//! Splitting a message body into a command name and its arguments.

use crate::text::strings_view;
use vstd::prelude::*;
use vstd::std_specs::iter::IteratorSpec;

verus! {

broadcast use vstd::string::group_string_axioms;

/// The character on which a message body is split.
pub open spec fn separator() -> char {
    ' '
}

/// The prefix that marks a message as addressed to the bot.
pub open spec fn trigger_prefix() -> Seq<char> {
    seq!['b', 'b', ' ']
}

/// Whether `body` starts with the trigger prefix.
pub open spec fn has_trigger(body: Seq<char>) -> bool {
    trigger_prefix().is_prefix_of(body)
}

/// What follows the trigger prefix in a body that starts with it.
pub open spec fn after_trigger(body: Seq<char>) -> Seq<char> {
    body.skip(trigger_prefix().len() as int)
}

/// The pieces of `s` between occurrences of `sep`, in order. Every occurrence
/// of `sep` ends one piece and starts the next, so neighbouring separators
/// give an empty piece and the empty text gives one empty piece.
pub open spec fn split(s: Seq<char>, sep: char) -> Seq<Seq<char>>
    decreases s.len(),
{
    if s.len() == 0 {
        seq![Seq::<char>::empty()]
    } else {
        let before = split(s.drop_last(), sep);
        if s.last() == sep {
            before.push(Seq::<char>::empty())
        } else {
            before.drop_last().push(before.last().push(s.last()))
        }
    }
}

/// The pieces put back together with one `sep` between neighbours.
pub open spec fn join(pieces: Seq<Seq<char>>, sep: char) -> Seq<char>
    decreases pieces.len(),
{
    if pieces.len() == 0 {
        Seq::<char>::empty()
    } else if pieces.len() == 1 {
        pieces[0]
    } else {
        join(pieces.drop_last(), sep).push(sep) + pieces.last()
    }
}

/// Whether no piece holds the separator.
pub open spec fn free_of(pieces: Seq<Seq<char>>, sep: char) -> bool {
    forall|i: int| 0 <= i < pieces.len() ==> !(#[trigger] pieces[i]).contains(sep)
}

/// A message split into the command's name and what follows it.
#[derive(Debug, Clone, PartialEq, Eq)]
pub struct ParsedCommand {
    pub name: String,
    pub args: Vec<String>,
}

/// What a `ParsedCommand` holds, as character sequences.
pub struct CommandView {
    pub name: Seq<char>,
    pub args: Seq<Seq<char>>,
}

impl View for ParsedCommand {
    type V = CommandView;

    open spec fn view(&self) -> CommandView {
        CommandView { name: self.name@, args: strings_view(self.args@) }
    }
}

/// The command that the text after the trigger prefix spells: its first
/// piece is the name, the others are the arguments.
pub open spec fn command_of(rest: Seq<char>) -> CommandView {
    let pieces = split(rest, separator());
    CommandView { name: pieces[0], args: pieces.skip(1) }
}

/// `split` always gives at least one piece.
pub proof fn lemma_split_nonempty(s: Seq<char>, sep: char)
    ensures
        split(s, sep).len() >= 1,
    decreases s.len(),
{
    if s.len() > 0 {
        lemma_split_nonempty(s.drop_last(), sep);
    }
}

/// No piece of `split` holds the separator.
pub proof fn lemma_split_free_of_separator(s: Seq<char>, sep: char)
    ensures
        free_of(split(s, sep), sep),
    decreases s.len(),
{
    if s.len() > 0 {
        let before = split(s.drop_last(), sep);
        lemma_split_nonempty(s.drop_last(), sep);
        lemma_split_free_of_separator(s.drop_last(), sep);
        let after = split(s, sep);
        assert forall|i: int| 0 <= i < after.len() implies !(#[trigger] after[i]).contains(sep) by {
            if i < after.len() - 1 {
                assert(after[i] == before[i]);
            } else if s.last() != sep {
                let tail = before.last();
                assert(!tail.contains(sep));
                assert forall|k: int| 0 <= k < after[i].len() implies after[i][k] != sep by {
                    if k < tail.len() {
                        assert(tail[k] == after[i][k]);
                    }
                }
            }
        }
    }
}

/// Joining the pieces of `split` gives the text back.
pub proof fn lemma_join_split(s: Seq<char>, sep: char)
    ensures
        join(split(s, sep), sep) == s,
    decreases s.len(),
{
    if s.len() > 0 {
        let front = s.drop_last();
        let before = split(front, sep);
        lemma_split_nonempty(front, sep);
        lemma_join_split(front, sep);
        let after = split(s, sep);
        if s.last() == sep {
            assert(after.drop_last() =~= before);
            assert(join(after, sep) =~= s);
        } else {
            let grown = before.last().push(s.last());
            assert(after.last() == grown);
            if before.len() == 1 {
                assert(join(after, sep) =~= s);
            } else {
                assert(after.drop_last() =~= before.drop_last());
                assert(join(after, sep) =~= join(before, sep).push(s.last()));
                assert(join(after, sep) =~= s);
            }
        }
    } else {
        assert(join(split(s, sep), sep) =~= s);
    }
}

/// A join of two or more pieces holds the separator.
proof fn lemma_join_holds_separator(pieces: Seq<Seq<char>>, sep: char)
    requires
        pieces.len() >= 2,
    ensures
        join(pieces, sep).contains(sep),
{
    let head = join(pieces.drop_last(), sep);
    let whole = join(pieces, sep);
    assert(whole[head.len() as int] == sep);
}

/// `split` is the only way to cut a text into pieces that hold no separator
/// and join back to the text.
pub proof fn lemma_split_unique(pieces: Seq<Seq<char>>, s: Seq<char>, sep: char)
    requires
        pieces.len() >= 1,
        free_of(pieces, sep),
        join(pieces, sep) == s,
    ensures
        pieces == split(s, sep),
    decreases s.len(),
{
    if s.len() == 0 {
        if pieces.len() >= 2 {
            lemma_join_holds_separator(pieces, sep);
            assert(false);
        }
        assert(pieces[0] =~= Seq::<char>::empty());
        assert(pieces =~= split(s, sep));
    } else {
        let front = s.drop_last();
        let tail = pieces.last();
        if tail.len() == 0 {
            assert(pieces.len() >= 2);
            let shorter = pieces.drop_last();
            assert(join(pieces, sep) =~= join(shorter, sep).push(sep));
            assert(s.last() == sep);
            assert(join(shorter, sep) =~= front);
            assert forall|i: int| 0 <= i < shorter.len() implies !(#[trigger] shorter[i]).contains(sep) by {
                assert(shorter[i] == pieces[i]);
            }
            lemma_split_unique(shorter, front, sep);
            assert(tail =~= Seq::<char>::empty());
            assert(pieces =~= shorter.push(tail));
        } else {
            let trimmed = pieces.drop_last().push(tail.drop_last());
            assert(!tail.contains(sep));
            assert(tail[tail.len() - 1] != sep);
            if pieces.len() == 1 {
                assert(s == tail);
                assert(join(trimmed, sep) =~= front);
            } else {
                assert(trimmed.drop_last() =~= pieces.drop_last());
                assert(join(pieces, sep).last() == tail.last());
                assert(join(trimmed, sep) =~= front);
            }
            assert(s.last() == tail.last());
            assert forall|i: int| 0 <= i < trimmed.len() implies !(#[trigger] trimmed[i]).contains(sep) by {
                if i < trimmed.len() - 1 {
                    assert(trimmed[i] == pieces[i]);
                } else {
                    assert forall|k: int| 0 <= k < trimmed[i].len() implies trimmed[i][k] != sep by {
                        assert(tail[k] == trimmed[i][k]);
                    }
                }
            }
            lemma_split_unique(trimmed, front, sep);
            assert(tail.drop_last().push(tail.last()) =~= tail);
            assert(pieces =~= split(s, sep));
        }
    }
}

/// Reads a message body. A body that does not start with the trigger prefix
/// is not addressed to the bot and gives `None`. Otherwise the text after
/// the prefix is split on single spaces: the first piece is the command's
/// name and the others are its arguments, with nothing trimmed, collapsed or
/// changed in case.
pub fn tokenize(body: &str) -> (r: Option<ParsedCommand>)
    ensures
        r is Some <==> has_trigger(body@),
        r matches Some(cmd) ==> cmd@ == command_of(after_trigger(body@)),
{
    let mut it = body.chars();
    match it.next() {
        Some(c) => {
            if c != 'b' {
                return None;
            }
        },
        None => {
            return None;
        },
    }
    match it.next() {
        Some(c) => {
            if c != 'b' {
                return None;
            }
        },
        None => {
            return None;
        },
    }
    match it.next() {
        Some(c) => {
            if c != ' ' {
                return None;
            }
        },
        None => {
            return None;
        },
    }
    let ghost rest = after_trigger(body@);
    assert(it.remaining() =~= rest);
    let mut done: Vec<String> = Vec::new();
    let mut current = String::new();
    let ghost mut n: int = 0;
    assert(strings_view(done@).push(current@) =~= split(rest.take(0), separator()));
    loop
        invariant
            it.obeys_prophetic_iter_laws(),
            0 <= n <= rest.len(),
            it.remaining() == rest.skip(n),
            strings_view(done@).push(current@) == split(rest.take(n), separator()),
        ensures
            strings_view(done@).push(current@) == split(rest, separator()),
        decreases rest.len() - n,
    {
        let ghost pieces = strings_view(done@).push(current@);
        match it.next() {
            Some(c) => {
                proof {
                    assert(rest.skip(n).drop_first() =~= rest.skip(n + 1));
                    assert(rest.take(n + 1).drop_last() =~= rest.take(n));
                    assert(rest.take(n + 1).last() == c);
                    assert(pieces.last() == current@);
                    assert(pieces.drop_last() =~= strings_view(done@));
                }
                if c == ' ' {
                    done.push(current);
                    current = String::new();
                    assert(strings_view(done@).push(current@) =~= pieces.push(Seq::<char>::empty()));
                } else {
                    current.push(c);
                    assert(strings_view(done@).push(current@) =~= pieces.drop_last().push(
                        pieces.last().push(c),
                    ));
                }
                proof {
                    n = n + 1;
                }
            },
            None => {
                assert(rest.take(n) =~= rest);
                break;
            },
        }
    }
    let ghost pieces = split(rest, separator());
    done.push(current);
    assert(strings_view(done@) =~= pieces);
    let name = done.remove(0);
    assert(strings_view(done@) =~= pieces.skip(1));
    Some(ParsedCommand { name, args: done })
}

} // verus!
