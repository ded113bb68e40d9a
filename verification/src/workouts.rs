//! The command that lists the author's workouts.

use crate::reply::{blank_card, CardView, FieldView, ReplyCard};
use crate::text::{str_eq, strings_view};
use vstd::prelude::*;

verus! {

/// The `workouts` command.
pub struct WorkoutsCommand {}

impl WorkoutsCommand {
    /// Whether the arguments ask for the one thing the command does: their
    /// first is `view`.
    pub open spec fn accepts_spec(args: Seq<Seq<char>>) -> bool {
        args.len() > 0 && args[0] == "view"@
    }

    /// The card that lists workouts with these titles: one inline field for
    /// each, in the order given.
    pub open spec fn card_of(titles: Seq<Seq<char>>) -> CardView {
        CardView {
            fields: Seq::new(
                titles.len(),
                |i: int| FieldView { name: titles[i], value: "Some text"@, inline: true },
            ),
            ..blank_card("Your Workouts"@, "#bf616a"@)
        }
    }

    /// Whether the command takes these arguments. Anything but `view` as the
    /// first of them, or no argument at all, is left without a reply.
    pub fn accepts(args: &Vec<String>) -> (r: bool)
        ensures
            r == Self::accepts_spec(strings_view(args@)),
    {
        if args.len() == 0 {
            return false;
        }
        assert(strings_view(args@)[0] == args@[0]@);
        str_eq(args[0].as_str(), "view")
    }

    /// The reply to `workouts view`, from the titles of the author's
    /// workouts as storage returned them.
    pub fn card(titles: &Vec<String>) -> (card: ReplyCard)
        ensures
            card@ == Self::card_of(strings_view(titles@)),
    {
        let mut card = ReplyCard::new("Your Workouts", "#bf616a");
        let ghost shown = strings_view(titles@);
        let mut i: usize = 0;
        assert(card@.fields =~= Self::card_of(shown.take(0)).fields);
        while i < titles.len()
            invariant
                i <= titles@.len(),
                shown == strings_view(titles@),
                card@ == Self::card_of(shown.take(i as int)),
            decreases titles@.len() - i,
        {
            card.add_field(titles[i].clone(), "Some text".to_owned(), true);
            i += 1;
            assert(card@.fields =~= Self::card_of(shown.take(i as int)).fields);
        }
        assert(shown.take(i as int) =~= shown);
        card
    }
}

} // verus!
