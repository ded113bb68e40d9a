//! The storage interface as link ingestion sees it, and a table in memory
//! that keeps the one rule ingestion relies on: no URL is stored twice.

use crate::text::{str_eq, strings_view};
use vstd::prelude::*;

verus! {

/// How an insert into the link table ended.
#[derive(Debug, Clone, Copy, PartialEq, Eq, Structural)]
pub enum StoreOutcome {
    /// The record was appended.
    Inserted,
    /// The table already held the URL; nothing changed.
    Conflict,
    /// Storage failed for another reason.
    Failed,
}

/// What an insert does to a table with a unique URL column: a URL that the
/// table holds conflicts and changes nothing, any other is appended.
pub open spec fn insert_into(records: Seq<Seq<char>>, url: Seq<char>) -> (
    Seq<Seq<char>>,
    StoreOutcome,
) {
    if records.contains(url) {
        (records, StoreOutcome::Conflict)
    } else {
        (records.push(url), StoreOutcome::Inserted)
    }
}

/// An insert keeps the table free of duplicates.
pub proof fn lemma_insert_keeps_unique(records: Seq<Seq<char>>, url: Seq<char>)
    requires
        records.no_duplicates(),
    ensures
        insert_into(records, url).0.no_duplicates(),
        insert_into(records, url).0.contains(url),
{
    let after = insert_into(records, url).0;
    if !records.contains(url) {
        assert(after[records.len() as int] == url);
        assert forall|i: int, j: int| 0 <= i < after.len() && 0 <= j < after.len() && i != j implies
            after[i] != after[j] by {
            if i < records.len() && j < records.len() {
                assert(records[i] != records[j]);
            } else if i < records.len() {
                assert(records.contains(records[i]));
            } else {
                assert(records.contains(records[j]));
            }
        }
    }
}

/// A link table in memory: an append-only list of URLs without duplicates.
pub struct LinkTable {
    urls: Vec<String>,
}

impl View for LinkTable {
    type V = Seq<Seq<char>>;

    closed spec fn view(&self) -> Seq<Seq<char>> {
        strings_view(self.urls@)
    }
}

impl LinkTable {
    /// No two records hold the same URL. Every table that `new` and
    /// `insert` can make is of this kind.
    pub open spec fn wf(&self) -> bool {
        self@.no_duplicates()
    }

    /// An empty table.
    pub fn new() -> (table: LinkTable)
        ensures
            table@ == Seq::<Seq<char>>::empty(),
            table.wf(),
    {
        let urls: Vec<String> = Vec::new();
        assert(strings_view(urls@) =~= Seq::<Seq<char>>::empty());
        LinkTable { urls }
    }

    /// The number of records.
    pub fn len(&self) -> (n: usize)
        ensures
            n == self@.len(),
    {
        self.urls.len()
    }

    /// Whether the table holds `url`.
    pub fn contains(&self, url: &str) -> (r: bool)
        ensures
            r == self@.contains(url@),
    {
        let mut i: usize = 0;
        while i < self.urls.len()
            invariant
                i <= self.urls@.len(),
                forall|j: int| 0 <= j < i ==> strings_view(self.urls@)[j] != url@,
            decreases self.urls@.len() - i,
        {
            assert(strings_view(self.urls@)[i as int] == self.urls@[i as int]@);
            if str_eq(self.urls[i].as_str(), url) {
                return true;
            }
            i += 1;
        }
        false
    }

    /// The URL of the record at `index`, in the order of insertion.
    pub fn get(&self, index: usize) -> (r: Option<&String>)
        ensures
            r is Some <==> index < self@.len(),
            r matches Some(url) ==> url@ == self@[index as int],
    {
        if index < self.urls.len() {
            assert(strings_view(self.urls@)[index as int] == self.urls@[index as int]@);
            Some(&self.urls[index])
        } else {
            None
        }
    }

    /// Inserts a record for `url`. A URL that the table holds is a
    /// conflict and leaves the table as it was; any other is appended. A
    /// table in memory never fails in another way.
    pub fn insert(&mut self, url: String) -> (outcome: StoreOutcome)
        ensures
            (final(self)@, outcome) == insert_into(old(self)@, url@),
            old(self).wf() ==> final(self).wf(),
    {
        proof {
            if self.wf() {
                lemma_insert_keeps_unique(self@, url@);
            }
        }
        if self.contains(url.as_str()) {
            StoreOutcome::Conflict
        } else {
            let ghost before = strings_view(self.urls@);
            self.urls.push(url);
            assert(strings_view(self.urls@) =~= before.push(url@));
            StoreOutcome::Inserted
        }
    }
}

} // verus!
