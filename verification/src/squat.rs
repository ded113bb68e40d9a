//! The `set squat` command: reading the weight, choosing the statement that
//! records it, and the card that confirms it.

use crate::reply::{blank_card, plain_color, CardView, ReplyCard};
use crate::text::{strings_view, to_chars};
use vstd::prelude::*;
use vstd::string::StringExecFns;

verus! {

/// An ASCII decimal digit.
pub open spec fn is_digit(c: char) -> bool {
    '0' <= c && c <= '9'
}

/// The number that a digit stands for.
pub open spec fn digit_value(c: char) -> int {
    c as int - '0' as int
}

/// The digit that stands for a number below ten.
pub open spec fn digit_char(d: int) -> char {
    ('0' as int + d) as char
}

/// Whether every character is a digit.
pub open spec fn all_digits(s: Seq<char>) -> bool {
    forall|i: int| 0 <= i < s.len() ==> is_digit(#[trigger] s[i])
}

/// The number that a run of digits spells, most significant digit first.
pub open spec fn digits_value(s: Seq<char>) -> int
    decreases s.len(),
{
    if s.len() == 0 {
        0
    } else {
        10 * digits_value(s.drop_last()) + digit_value(s.last())
    }
}

/// Whether the text starts with a sign.
pub open spec fn has_sign(s: Seq<char>) -> bool {
    s.len() > 0 && (s[0] == '-' || s[0] == '+')
}

/// The text without its sign.
pub open spec fn unsigned_part(s: Seq<char>) -> Seq<char> {
    if has_sign(s) {
        s.skip(1)
    } else {
        s
    }
}

/// Whether the text is an integer in decimal: an optional sign, then one
/// digit or more and nothing else.
pub open spec fn is_integer_text(s: Seq<char>) -> bool {
    unsigned_part(s).len() > 0 && all_digits(unsigned_part(s))
}

/// The integer that the text spells.
pub open spec fn integer_value(s: Seq<char>) -> int {
    if s.len() > 0 && s[0] == '-' {
        -digits_value(unsigned_part(s))
    } else {
        digits_value(unsigned_part(s))
    }
}

/// The weight that the text gives: the integer it spells, if it spells one
/// that fits in 32 bits.
pub open spec fn weight_of(s: Seq<char>) -> Option<i32> {
    if is_integer_text(s) && i32::MIN <= integer_value(s) <= i32::MAX {
        Some(integer_value(s) as i32)
    } else {
        None
    }
}

/// The weight that a `set squat` command asks for: its second argument read
/// as a weight.
pub open spec fn requested_weight_of(args: Seq<Seq<char>>) -> Option<i32> {
    if args.len() >= 2 {
        weight_of(args[1])
    } else {
        None
    }
}

/// The digits of a natural number, without leading zeros.
pub open spec fn decimal_digits(n: nat) -> Seq<char>
    decreases n,
{
    if n < 10 {
        seq![digit_char(n as int)]
    } else {
        decimal_digits(n / 10).push(digit_char((n % 10) as int))
    }
}

/// An integer in decimal, with a minus sign where it is negative.
pub open spec fn decimal_of(v: int) -> Seq<char> {
    if v < 0 {
        seq!['-'] + decimal_digits((-v) as nat)
    } else {
        decimal_digits(v as nat)
    }
}

/// The card that confirms a new squat record.
pub open spec fn success_card_of(weight: i32) -> CardView {
    CardView {
        description: Some("Your squat PR has been set to "@ + decimal_of(weight as int) + " kg."@),
        ..blank_card(":white_check_mark: Success!"@, plain_color())
    }
}

/// The statement that records a weight.
#[derive(Debug, Clone, Copy, PartialEq, Eq, Structural)]
pub enum SquatWrite {
    /// The author has a record: it is overwritten.
    Update,
    /// The author has none yet: one is inserted.
    Insert,
}

/// A run of digits spells at least what any of its prefixes spells.
pub proof fn lemma_digits_value_grows(s: Seq<char>, k: int)
    requires
        all_digits(s),
        0 <= k <= s.len(),
    ensures
        0 <= digits_value(s.take(k)) <= digits_value(s),
    decreases s.len(),
{
    if k == s.len() {
        assert(s.take(k) =~= s);
        if s.len() > 0 {
            assert(all_digits(s.drop_last())) by {
                assert forall|i: int| 0 <= i < s.drop_last().len() implies is_digit(
                    #[trigger] s.drop_last()[i],
                ) by {
                    assert(s.drop_last()[i] == s[i]);
                }
            }
            lemma_digits_value_grows(s.drop_last(), k - 1);
            assert(s.drop_last().take(k - 1) =~= s.drop_last());
            assert(is_digit(s.last()));
        }
    } else {
        let front = s.drop_last();
        assert(all_digits(front)) by {
            assert forall|i: int| 0 <= i < front.len() implies is_digit(#[trigger] front[i]) by {
                assert(front[i] == s[i]);
            }
        }
        lemma_digits_value_grows(front, k);
        lemma_digits_value_grows(front, front.len() as int);
        assert(front.take(front.len() as int) =~= front);
        assert(front.take(k) =~= s.take(k));
        assert(is_digit(s.last()));
    }
}

/// The digits of a number are digits, and spell the number.
pub proof fn lemma_decimal_digits_spell(n: nat)
    ensures
        decimal_digits(n).len() > 0,
        all_digits(decimal_digits(n)),
        digits_value(decimal_digits(n)) == n,
    decreases n,
{
    if n < 10 {
        let s = decimal_digits(n);
        assert(s.drop_last() =~= Seq::<char>::empty());
        assert(digits_value(s.drop_last()) == 0);
    } else {
        lemma_decimal_digits_spell(n / 10);
        let front = decimal_digits(n / 10);
        let s = decimal_digits(n);
        assert(s.drop_last() =~= front);
        assert forall|i: int| 0 <= i < s.len() implies is_digit(#[trigger] s[i]) by {
            if i < front.len() {
                assert(s[i] == front[i]);
            }
        }
    }
}

/// Reading what `decimal_of` writes gives the number back.
pub proof fn lemma_decimal_round_trip(v: i32)
    ensures
        weight_of(decimal_of(v as int)) == Some(v),
{
    let text = decimal_of(v as int);
    if v < 0 {
        let digits = decimal_digits((-v) as nat);
        lemma_decimal_digits_spell((-v) as nat);
        assert(text[0] == '-');
        assert(unsigned_part(text) =~= digits);
    } else {
        let digits = decimal_digits(v as nat);
        lemma_decimal_digits_spell(v as nat);
        assert(is_digit(digits[0]));
        assert(unsigned_part(text) =~= digits);
    }
}

/// The number that `c` stands for, if it is a digit.
pub fn digit_of(c: char) -> (r: Option<u8>)
    ensures
        r is Some <==> is_digit(c),
        r matches Some(d) ==> d == digit_value(c),
{
    match c {
        '0' => Some(0),
        '1' => Some(1),
        '2' => Some(2),
        '3' => Some(3),
        '4' => Some(4),
        '5' => Some(5),
        '6' => Some(6),
        '7' => Some(7),
        '8' => Some(8),
        '9' => Some(9),
        _ => None,
    }
}

/// The digit that stands for `d`.
pub fn digit_for(d: u8) -> (c: char)
    requires
        d < 10,
    ensures
        c == digit_char(d as int),
{
    match d {
        0 => '0',
        1 => '1',
        2 => '2',
        3 => '3',
        4 => '4',
        5 => '5',
        6 => '6',
        7 => '7',
        8 => '8',
        _ => '9',
    }
}

/// Reads a weight: an integer in decimal with an optional sign that fits in
/// 32 bits. Anything else, such as a blank, a decimal point or a unit,
/// gives `None`.
pub fn parse_weight(text: &str) -> (r: Option<i32>)
    ensures
        r == weight_of(text@),
{
    let chars = to_chars(text);
    let n = chars.len();
    if n == 0 {
        return None;
    }
    let negative = chars[0] == '-';
    let start: usize = if negative || chars[0] == '+' {
        1
    } else {
        0
    };
    let ghost digits = unsigned_part(text@);
    assert(digits =~= chars@.subrange(start as int, n as int));
    if start == n {
        return None;
    }
    let limit: i64 = 2147483648;
    let mut acc: i64 = 0;
    let mut i: usize = start;
    assert(digits.take(0) =~= Seq::<char>::empty());
    while i < n
        invariant
            start <= i <= n,
            n == chars@.len(),
            limit == 2147483648,
            digits == chars@.subrange(start as int, n as int),
            digits == unsigned_part(text@),
            all_digits(digits.take(i - start)),
            acc == digits_value(digits.take(i - start)),
            0 <= acc <= limit,
        decreases n - i,
    {
        let ghost seen = digits.take(i - start);
        let ghost next = digits.take(i - start + 1);
        match digit_of(chars[i]) {
            Some(d) => {
                proof {
                    assert(next.drop_last() =~= seen);
                    assert(next.last() == chars@[i as int]);
                    assert forall|k: int| 0 <= k < next.len() implies is_digit(
                        #[trigger] next[k],
                    ) by {
                        if k < seen.len() {
                            assert(next[k] == seen[k]);
                        }
                    }
                }
                acc = acc * 10 + d as i64;
                if acc > limit {
                    proof {
                        if all_digits(digits) {
                            lemma_digits_value_grows(digits, i - start + 1);
                            assert(digits_value(digits) > limit);
                        }
                    }
                    return None;
                }
                i += 1;
            },
            None => {
                assert(!is_digit(digits[i - start]));
                return None;
            },
        }
    }
    assert(digits.take(i - start) =~= digits);
    if negative {
        Some((-acc) as i32)
    } else if acc == limit {
        None
    } else {
        Some(acc as i32)
    }
}

/// The weight that a `set squat` command asks for, from its arguments with
/// the subcommand first. Without a second argument there is none.
pub fn requested_weight(args: &Vec<String>) -> (r: Option<i32>)
    ensures
        r == requested_weight_of(strings_view(args@)),
{
    if args.len() >= 2 {
        assert(strings_view(args@)[1] == args@[1]@);
        parse_weight(args[1].as_str())
    } else {
        None
    }
}

/// The statement that records the weight, from the number of records that
/// storage holds for the author.
pub fn write_for(existing: usize) -> (w: SquatWrite)
    ensures
        w == if existing > 0 {
            SquatWrite::Update
        } else {
            SquatWrite::Insert
        },
{
    if existing > 0 {
        SquatWrite::Update
    } else {
        SquatWrite::Insert
    }
}

/// Appends the digits of `n` to `out`.
fn push_digits(n: u32, out: &mut String)
    ensures
        final(out)@ == old(out)@ + decimal_digits(n as nat),
    decreases n,
{
    if n >= 10 {
        push_digits(n / 10, out);
    }
    out.push(digit_for((n % 10) as u8));
    assert(out@ =~= old(out)@ + decimal_digits(n as nat));
}

/// Writes an integer in decimal.
pub fn decimal(v: i32) -> (text: String)
    ensures
        text@ == decimal_of(v as int),
{
    let mut text = String::new();
    if v < 0 {
        text.push('-');
        let magnitude: u32 = (-(v as i64)) as u32;
        push_digits(magnitude, &mut text);
        assert(text@ =~= decimal_of(v as int));
    } else {
        push_digits(v as u32, &mut text);
        assert(text@ =~= decimal_of(v as int));
    }
    text
}

/// The reply that confirms a new squat record of `weight` kilograms.
pub fn success_card(weight: i32) -> (card: ReplyCard)
    ensures
        card@ == success_card_of(weight),
{
    let mut text = "Your squat PR has been set to ".to_owned();
    let number = decimal(weight);
    text.append(number.as_str());
    text.append(" kg.");
    let mut card = ReplyCard::new(":white_check_mark: Success!", "#c8ccd4");
    card.description = Some(text);
    card
}

} // verus!
