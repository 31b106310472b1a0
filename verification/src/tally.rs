//! The two mappings that a run fills: episode counts by title, and the
//! metadata of each series, captured once.

use vstd::prelude::*;
use crate::media::{MetadataView, SeriesMetadata};

verus! {

/// The count that a mapping holds for a title: zero for a title it lacks.
pub open spec fn count_of(counts: Map<Seq<char>, nat>, title: Seq<char>) -> nat {
    if counts.contains_key(title) {
        counts[title]
    } else {
        0
    }
}

/// Whether one of the captured series has this title.
pub open spec fn has_series(series: Seq<MetadataView>, title: Seq<char>) -> bool {
    exists|i: int| 0 <= i < series.len() && (#[trigger] series[i]).title == title
}

/// No two of the captured series share a title.
pub open spec fn distinct_titles(series: Seq<MetadataView>) -> bool {
    forall|i: int, j: int|
        0 <= i < j < series.len() ==> (#[trigger] series[i]).title != (#[trigger] series[j]).title
}

/// One title and the number of episodes counted for it.
#[derive(Debug)]
pub struct TitleCount {
    pub title: String,
    pub count: u64,
}

/// Episode counts by title. Every title occurs once, in the order in which it
/// was first counted.
pub struct TitleCounts {
    entries: Vec<TitleCount>,
    model: Ghost<Map<Seq<char>, nat>>,
}

impl View for TitleCounts {
    type V = Map<Seq<char>, nat>;

    closed spec fn view(&self) -> Map<Seq<char>, nat> {
        self.model@
    }
}

impl TitleCounts {
    /// The entries list each title of the mapping once, with its count.
    pub closed spec fn wf(&self) -> bool {
        &&& forall|i: int|
            0 <= i < self.entries@.len() ==> {
                &&& self.model@.contains_key((#[trigger] self.entries@[i]).title@)
                &&& self.model@[self.entries@[i].title@] == self.entries@[i].count
            }
        &&& forall|t: Seq<char>| #[trigger]
            self.model@.contains_key(t) ==> exists|i: int|
                0 <= i < self.entries@.len() && (#[trigger] self.entries@[i]).title@ == t
        &&& forall|i: int, j: int|
            0 <= i < j < self.entries@.len() ==> (#[trigger] self.entries@[i]).title@ != (
            #[trigger] self.entries@[j]).title@
    }

    /// The titles in the order in which they were first counted.
    pub closed spec fn titles(&self) -> Seq<Seq<char>> {
        self.entries@.map_values(|e: TitleCount| e.title@)
    }

    /// A mapping without titles.
    pub fn new() -> (counts: TitleCounts)
        ensures
            counts.wf(),
            counts@ == Map::<Seq<char>, nat>::empty(),
            counts.titles().len() == 0,
    {
        TitleCounts { entries: Vec::new(), model: Ghost(Map::empty()) }
    }

    fn position(&self, title: &String) -> (found: Option<usize>)
        ensures
            match found {
                Some(i) => i < self.entries@.len() && self.entries@[i as int].title@ == title@,
                None => forall|i: int|
                    0 <= i < self.entries@.len() ==> (#[trigger] self.entries@[i]).title@
                        != title@,
            },
    {
        let mut i: usize = 0;
        while i < self.entries.len()
            invariant
                i <= self.entries@.len(),
                forall|k: int| 0 <= k < i ==> (#[trigger] self.entries@[k]).title@ != title@,
            decreases self.entries@.len() - i,
        {
            if self.entries[i].title == *title {
                return Some(i);
            }
            i += 1;
        }
        None
    }

    /// The count of a title, if the mapping has it.
    pub fn get(&self, title: &String) -> (count: Option<u64>)
        requires
            self.wf(),
        ensures
            match count {
                Some(c) => self@.contains_key(title@) && self@[title@] == c,
                None => !self@.contains_key(title@),
            },
    {
        match self.position(title) {
            Some(i) => Some(self.entries[i].count),
            None => None,
        }
    }

    /// Adds one to the count of a title, starting from zero for a title the
    /// mapping lacks, and returns the new count.
    pub fn increment(&mut self, title: &String) -> (count: u64)
        requires
            old(self).wf(),
            count_of(old(self)@, title@) < u64::MAX,
        ensures
            final(self).wf(),
            final(self)@ == old(self)@.insert(title@, count_of(old(self)@, title@) + 1),
            final(self).titles() == if old(self)@.contains_key(title@) {
                old(self).titles()
            } else {
                old(self).titles().push(title@)
            },
            count == count_of(old(self)@, title@) + 1,
    {
        let ghost before = self.model@;
        let ghost listed = self.entries@;
        let count = match self.position(title) {
            Some(i) => {
                let count = self.entries[i].count + 1;
                self.entries[i].count = count;
                self.model = Ghost(before.insert(title@, count as nat));
                count
            },
            None => {
                self.entries.push(TitleCount { title: title.clone(), count: 1 });
                self.model = Ghost(before.insert(title@, 1));
                assert(self.entries@[listed.len() as int].title@ == title@);
                1
            },
        };
        proof {
            assert forall|t: Seq<char>| #[trigger] self.model@.contains_key(t) implies exists|
                k: int,
            | 0 <= k < self.entries@.len() && (#[trigger] self.entries@[k]).title@ == t by {
                if t != title@ {
                    let k = choose|k: int|
                        0 <= k < listed.len() && (#[trigger] listed[k]).title@ == t;
                    assert(self.entries@[k].title@ == t);
                }
            }
        }
        count
    }

    /// The titles listed are the keys of the mapping, each listed once.
    pub proof fn lemma_titles_are_keys(&self)
        requires
            self.wf(),
        ensures
            self.titles().no_duplicates(),
            forall|t: Seq<char>| self@.contains_key(t) <==> self.titles().contains(t),
    {
        let titles = self.titles();
        assert forall|t: Seq<char>| self@.contains_key(t) <==> titles.contains(t) by {
            if self@.contains_key(t) {
                let i = choose|i: int|
                    0 <= i < self.entries@.len() && (#[trigger] self.entries@[i]).title@ == t;
                assert(titles[i] == t);
            }
        }
    }

    /// How many titles the mapping holds.
    pub fn len(&self) -> (n: usize)
        ensures
            n == self.titles().len(),
    {
        self.entries.len()
    }

    /// The `i`-th title in order of first count, with its count.
    pub fn entry(&self, i: usize) -> (entry: &TitleCount)
        requires
            self.wf(),
            i < self.titles().len(),
        ensures
            entry.title@ == self.titles()[i as int],
            self@.contains_key(entry.title@),
            self@[entry.title@] == entry.count,
    {
        &self.entries[i]
    }
}

/// Series metadata by title, write-once: what was captured first for a
/// title stays. The series stand in the order of their capture.
pub struct SeriesCatalog {
    entries: Vec<SeriesMetadata>,
}

impl View for SeriesCatalog {
    type V = Seq<MetadataView>;

    closed spec fn view(&self) -> Seq<MetadataView> {
        self.entries@.map_values(|m: SeriesMetadata| m@)
    }
}

impl SeriesCatalog {
    /// No title was captured twice.
    pub open spec fn wf(&self) -> bool {
        distinct_titles(self@)
    }

    /// A catalog without series.
    pub fn new() -> (catalog: SeriesCatalog)
        ensures
            catalog.wf(),
            catalog@.len() == 0,
    {
        SeriesCatalog { entries: Vec::new() }
    }

    /// Whether metadata was captured for this title.
    pub fn contains(&self, title: &String) -> (found: bool)
        ensures
            found == has_series(self@, title@),
    {
        let mut i: usize = 0;
        while i < self.entries.len()
            invariant
                i <= self.entries@.len(),
                forall|k: int| 0 <= k < i ==> (#[trigger] self@[k]).title != title@,
            decreases self.entries@.len() - i,
        {
            if self.entries[i].title == *title {
                assert(self@[i as int].title == title@);
                return true;
            }
            i += 1;
        }
        false
    }

    /// Stores the metadata unless its title already has some, and tells
    /// whether it was stored.
    pub fn insert_if_absent(&mut self, meta: SeriesMetadata) -> (inserted: bool)
        requires
            old(self).wf(),
        ensures
            final(self).wf(),
            inserted == !has_series(old(self)@, meta@.title),
            inserted ==> final(self)@ == old(self)@.push(meta@),
            !inserted ==> final(self)@ == old(self)@,
    {
        if self.contains(&meta.title) {
            false
        } else {
            let ghost captured = self@;
            let ghost added = meta@;
            self.entries.push(meta);
            assert(self@ =~= captured.push(added));
            true
        }
    }

    /// How many series were captured.
    pub fn len(&self) -> (n: usize)
        ensures
            n == self@.len(),
    {
        self.entries.len()
    }

    /// The `i`-th series in order of capture.
    pub fn get(&self, i: usize) -> (meta: &SeriesMetadata)
        requires
            i < self@.len(),
        ensures
            meta@ == self@[i as int],
    {
        &self.entries[i]
    }
}

} // verus!
