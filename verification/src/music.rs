//! The reply to `music random`: one of the stored links, picked at random.

use crate::text::strings_view;
use rand::Rng;
use vstd::prelude::*;

verus! {

/// The reply when storage holds no link.
pub open spec fn no_songs_reply() -> Seq<char> {
    "No songs in the database."@
}

/// The reply for the pick `index` among `urls`.
pub open spec fn song_reply_of(urls: Seq<Seq<char>>, index: int) -> Seq<char> {
    if urls.len() == 0 {
        no_songs_reply()
    } else {
        urls[index]
    }
}

/// Draws an index with `rand::Rng::gen_range(0..n)` on the generator that
/// `rand::thread_rng` returns. `gen_range` panics on an empty range, which
/// `n > 0` rules out, and else returns a value of the range. Which one is
/// not said: two calls may differ.
#[verifier::external_body]
fn random_below(n: usize) -> (r: usize)
    requires
        n > 0,
    ensures
        r < n,
{
    rand::thread_rng().gen_range(0..n)
}

/// An index into a list of `len` records. The generator is asked only where
/// there is a choice.
pub fn pick_index(len: usize) -> (index: usize)
    requires
        len > 0,
    ensures
        index < len,
{
    if len < 2 {
        0
    } else {
        random_below(len)
    }
}

/// The reply for the pick `index`: the link at that place, or the notice
/// that there is none to pick from.
pub fn song_reply(urls: &Vec<String>, index: usize) -> (text: String)
    requires
        urls@.len() > 0 ==> index < urls@.len(),
    ensures
        text@ == song_reply_of(strings_view(urls@), index as int),
{
    if urls.len() == 0 {
        "No songs in the database.".to_owned()
    } else {
        assert(strings_view(urls@)[index as int] == urls@[index as int]@);
        urls[index].clone()
    }
}

/// The reply to `music random`, from the links as storage returned them:
/// one of them, whichever the generator picks, or the notice that there is
/// none.
pub fn random_song(urls: &Vec<String>) -> (text: String)
    ensures
        urls@.len() == 0 ==> text@ == no_songs_reply(),
        urls@.len() > 0 ==> exists|i: int|
            0 <= i < urls@.len() && text@ == #[trigger] song_reply_of(strings_view(urls@), i),
{
    if urls.len() == 0 {
        song_reply(urls, 0)
    } else {
        let index = pick_index(urls.len());
        song_reply(urls, index)
    }
}

} // verus!
