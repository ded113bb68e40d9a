//! The `exercises` commands: which lookup a query asks for, and the cards
//! that show what storage returned.

use crate::reply::{blank_card, plain_color, CardView, FieldView, ReplyCard};
use crate::text::{join_from, joined, str_eq, strings_view};
use vstd::prelude::*;
use vstd::string::StringExecFns;

verus! {

/// A row of the lookup by muscle group.
#[derive(Debug, Clone, PartialEq, Eq)]
pub struct ExerciseSummary {
    pub name: String,
    pub description: String,
}

/// A row of the lookup by name.
#[derive(Debug, Clone, PartialEq, Eq)]
pub struct ExerciseEntry {
    pub name: String,
    pub muscles_worked: Vec<String>,
    pub description: String,
}

/// A row of the detailed view.
#[derive(Debug, Clone, PartialEq, Eq)]
pub struct ExerciseDetail {
    pub name: String,
    pub muscles_worked: Vec<String>,
    pub description: String,
    pub image_url: String,
}

/// The lookup that a query asks storage for.
#[derive(Debug, Clone, PartialEq, Eq)]
pub enum ExerciseLookup {
    /// The exercises whose first muscle is `group`.
    ByMuscleGroup { group: String },
    /// The exercises whose lower-cased name holds `pattern`.
    ByName { pattern: String },
}

/// An `ExerciseSummary` with its strings as character sequences.
pub struct SummaryView {
    pub name: Seq<char>,
    pub description: Seq<char>,
}

/// An `ExerciseEntry` with its strings as character sequences.
pub struct EntryView {
    pub name: Seq<char>,
    pub muscles_worked: Seq<Seq<char>>,
    pub description: Seq<char>,
}

/// An `ExerciseDetail` with its strings as character sequences.
pub struct DetailView {
    pub name: Seq<char>,
    pub muscles_worked: Seq<Seq<char>>,
    pub description: Seq<char>,
    pub image_url: Seq<char>,
}

/// An `ExerciseLookup` with its strings as character sequences.
pub enum LookupView {
    ByMuscleGroup { group: Seq<char> },
    ByName { pattern: Seq<char> },
}

impl View for ExerciseSummary {
    type V = SummaryView;

    open spec fn view(&self) -> SummaryView {
        SummaryView { name: self.name@, description: self.description@ }
    }
}

impl View for ExerciseEntry {
    type V = EntryView;

    open spec fn view(&self) -> EntryView {
        EntryView {
            name: self.name@,
            muscles_worked: strings_view(self.muscles_worked@),
            description: self.description@,
        }
    }
}

impl View for ExerciseDetail {
    type V = DetailView;

    open spec fn view(&self) -> DetailView {
        DetailView {
            name: self.name@,
            muscles_worked: strings_view(self.muscles_worked@),
            description: self.description@,
            image_url: self.image_url@,
        }
    }
}

impl View for ExerciseLookup {
    type V = LookupView;

    open spec fn view(&self) -> LookupView {
        match *self {
            ExerciseLookup::ByMuscleGroup { group } => LookupView::ByMuscleGroup { group: group@ },
            ExerciseLookup::ByName { pattern } => LookupView::ByName { pattern: pattern@ },
        }
    }
}

/// The muscle groups that a query can name.
pub open spec fn is_muscle_group(word: Seq<char>) -> bool {
    word == "triceps"@ || word == "biceps"@ || word == "chest"@ || word == "back"@ || word
        == "legs"@ || word == "calves"@ || word == "abs"@
}

/// The words of a query as typed: the arguments after the subcommand, with
/// one space between neighbours.
pub open spec fn query_words(args: Seq<Seq<char>>) -> Seq<char> {
    if args.len() >= 1 {
        joined(args.skip(1), " "@)
    } else {
        Seq::<char>::empty()
    }
}

/// What `str::to_lowercase` returns for a text.
pub uninterp spec fn lowercase_of(text: Seq<char>) -> Seq<char>;

/// What `str::trim` returns for a text.
pub uninterp spec fn trimmed_of(text: Seq<char>) -> Seq<char>;

/// The text that storage is searched for: the words of the query in lower
/// case.
pub open spec fn search_text_of(args: Seq<Seq<char>>) -> Seq<char> {
    lowercase_of(query_words(args))
}

/// The lookup for a query, from its arguments, its search text and the
/// search text without the whitespace around it. A query that names a
/// muscle group asks for that group, by the first word as it was typed;
/// any other asks for the names that hold the search text.
pub open spec fn lookup_of(args: Seq<Seq<char>>, search: Seq<char>, trimmed: Seq<char>) -> LookupView {
    if is_muscle_group(trimmed) && args.len() >= 2 {
        LookupView::ByMuscleGroup { group: args[1] }
    } else {
        LookupView::ByName { pattern: search }
    }
}

/// The card for the rows of a lookup by muscle group: one field for each
/// row, the name over the description.
pub open spec fn summary_card_of(rows: Seq<SummaryView>) -> CardView {
    CardView {
        fields: Seq::new(
            rows.len(),
            |i: int| FieldView { name: rows[i].name, value: rows[i].description, inline: false },
        ),
        ..blank_card("Exercises query results"@, plain_color())
    }
}

/// The heading of a row of a lookup by name: the name, a bar, and the
/// muscles with commas between them.
pub open spec fn entry_heading(entry: EntryView) -> Seq<char> {
    entry.name + " | "@ + joined(entry.muscles_worked, ", "@)
}

/// The card for the rows of a lookup by name: one field for each row, the
/// heading over the description.
pub open spec fn entry_card_of(rows: Seq<EntryView>) -> CardView {
    CardView {
        fields: Seq::new(
            rows.len(),
            |i: int|
                FieldView {
                    name: entry_heading(rows[i]),
                    value: rows[i].description,
                    inline: false,
                },
        ),
        ..blank_card("Exercises query results"@, plain_color())
    }
}

/// The text under the title of a detailed view.
pub open spec fn detail_text(detail: DetailView) -> Seq<char> {
    detail.description + "\nMuscles worked: "@ + joined(detail.muscles_worked, ", "@) + "."@
}

/// The card of a detailed view.
pub open spec fn detail_card_of(detail: DetailView) -> CardView {
    CardView {
        description: Some(detail_text(detail)),
        image_url: Some(detail.image_url),
        ..blank_card(detail.name, plain_color())
    }
}

/// The views of the rows of a lookup by muscle group.
pub open spec fn summaries_view(rows: Seq<ExerciseSummary>) -> Seq<SummaryView> {
    Seq::new(rows.len(), |i: int| rows[i]@)
}

/// The views of the rows of a lookup by name.
pub open spec fn entries_view(rows: Seq<ExerciseEntry>) -> Seq<EntryView> {
    Seq::new(rows.len(), |i: int| rows[i]@)
}

/// Lower-cases a text with `str::to_lowercase`. Nothing is said of the
/// result but that it is `lowercase_of` of the text.
#[verifier::external_body]
fn lowercase(text: &str) -> (r: String)
    ensures
        r@ == lowercase_of(text@),
{
    text.to_lowercase()
}

/// Removes the whitespace around a text with `str::trim`. Nothing is said
/// of the result but that it is `trimmed_of` of the text.
#[verifier::external_body]
fn trimmed(text: &str) -> (r: &str)
    ensures
        r@ == trimmed_of(text@),
{
    text.trim()
}

/// Whether `word` names a muscle group.
pub fn muscle_group(word: &str) -> (r: bool)
    ensures
        r == is_muscle_group(word@),
{
    str_eq(word, "triceps") || str_eq(word, "biceps") || str_eq(word, "chest") || str_eq(
        word,
        "back",
    ) || str_eq(word, "legs") || str_eq(word, "calves") || str_eq(word, "abs")
}

/// The text that storage is searched for, from the arguments of an
/// `exercises` command with the subcommand first.
pub fn search_text(args: &Vec<String>) -> (text: String)
    ensures
        text@ == search_text_of(strings_view(args@)),
{
    if args.len() >= 1 {
        let words = join_from(args, 1, " ");
        lowercase(words.as_str())
    } else {
        let nothing = String::new();
        lowercase(nothing.as_str())
    }
}

/// Chooses the lookup for a query from its arguments, its search text and
/// the search text without the whitespace around it.
pub fn choose_lookup(args: &Vec<String>, search: String, trimmed: &str) -> (lookup: ExerciseLookup)
    ensures
        lookup@ == lookup_of(strings_view(args@), search@, trimmed@),
{
    if muscle_group(trimmed) && args.len() >= 2 {
        assert(strings_view(args@)[1] == args@[1]@);
        ExerciseLookup::ByMuscleGroup { group: args[1].clone() }
    } else {
        ExerciseLookup::ByName { pattern: search }
    }
}

/// The lookup that `exercises query` asks storage for.
pub fn lookup(args: &Vec<String>) -> (lookup: ExerciseLookup)
    ensures
        lookup@ == lookup_of(
            strings_view(args@),
            search_text_of(strings_view(args@)),
            trimmed_of(search_text_of(strings_view(args@))),
        ),
{
    let search = search_text(args);
    let copy = search.clone();
    choose_lookup(args, copy, trimmed(search.as_str()))
}

/// The reply to a query by muscle group, from the rows in the order in
/// which storage returned them.
pub fn summary_card(rows: &Vec<ExerciseSummary>) -> (card: ReplyCard)
    ensures
        card@ == summary_card_of(summaries_view(rows@)),
{
    let mut card = ReplyCard::new("Exercises query results", "#c8ccd4");
    let ghost shown = summaries_view(rows@);
    let mut i: usize = 0;
    assert(card@.fields =~= summary_card_of(shown.take(0)).fields);
    while i < rows.len()
        invariant
            i <= rows@.len(),
            shown == summaries_view(rows@),
            card@ == summary_card_of(shown.take(i as int)),
        decreases rows@.len() - i,
    {
        card.add_field(rows[i].name.clone(), rows[i].description.clone(), false);
        i += 1;
        assert(card@.fields =~= summary_card_of(shown.take(i as int)).fields);
    }
    assert(shown.take(i as int) =~= shown);
    card
}

/// The heading of a row of a lookup by name.
pub fn heading(entry: &ExerciseEntry) -> (text: String)
    ensures
        text@ == entry_heading(entry@),
{
    let mut text = entry.name.clone();
    text.append(" | ");
    let muscles = join_from(&entry.muscles_worked, 0, ", ");
    assert(strings_view(entry.muscles_worked@).skip(0) =~= strings_view(entry.muscles_worked@));
    text.append(muscles.as_str());
    text
}

/// The reply to a query by name, from the rows in the order in which
/// storage returned them.
pub fn entry_card(rows: &Vec<ExerciseEntry>) -> (card: ReplyCard)
    ensures
        card@ == entry_card_of(entries_view(rows@)),
{
    let mut card = ReplyCard::new("Exercises query results", "#c8ccd4");
    let ghost shown = entries_view(rows@);
    let mut i: usize = 0;
    assert(card@.fields =~= entry_card_of(shown.take(0)).fields);
    while i < rows.len()
        invariant
            i <= rows@.len(),
            shown == entries_view(rows@),
            card@ == entry_card_of(shown.take(i as int)),
        decreases rows@.len() - i,
    {
        card.add_field(heading(&rows[i]), rows[i].description.clone(), false);
        i += 1;
        assert(card@.fields =~= entry_card_of(shown.take(i as int)).fields);
    }
    assert(shown.take(i as int) =~= shown);
    card
}

/// The card of a detailed view.
pub fn detail_card(detail: &ExerciseDetail) -> (card: ReplyCard)
    ensures
        card@ == detail_card_of(detail@),
{
    let mut text = detail.description.clone();
    text.append("\nMuscles worked: ");
    let muscles = join_from(&detail.muscles_worked, 0, ", ");
    assert(strings_view(detail.muscles_worked@).skip(0) =~= strings_view(detail.muscles_worked@));
    text.append(muscles.as_str());
    text.append(".");
    let mut card = ReplyCard::new(detail.name.as_str(), "#c8ccd4");
    card.description = Some(text);
    card.image_url = Some(detail.image_url.clone());
    card
}

/// The reply to `exercises view`: the card of the first row, or no reply
/// where storage returned none.
pub fn view_reply(rows: &Vec<ExerciseDetail>) -> (reply: Option<ReplyCard>)
    ensures
        rows@.len() == 0 <==> reply is None,
        reply matches Some(card) ==> card@ == detail_card_of(rows@[0]@),
{
    if rows.len() == 0 {
        None
    } else {
        Some(detail_card(&rows[0]))
    }
}

} // verus!
