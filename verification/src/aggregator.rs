//! The scan over watch-history entries: one transition per entry, from the
//! tally so far to the tally after it.

use vstd::prelude::*;
use crate::media::{metadata_of, Media, MediaView, MetadataView, SeriesMetadata, SeriesView};
use crate::tally::{count_of, distinct_titles, has_series, SeriesCatalog, TitleCounts};
use crate::timestamp::Timestamp;

verus! {

/// What a scan is configured with: entries played strictly before `cutoff`
/// end it, and so does the `limit`-th counted entry.
#[derive(Clone, Copy, Debug, PartialEq, Eq, Structural)]
pub struct Settings {
    pub cutoff: Option<Timestamp>,
    pub limit: Option<u64>,
}

/// One item of the provider's history sequence, after the lookup of its
/// media.
#[derive(Debug)]
pub enum HistoryEvent {
    /// The entry, or the media it points at, could not be fetched.
    Unresolved,
    /// An entry with the media it points at.
    Played { played: Timestamp, media: Media },
}

/// A history item by the views of what it holds.
pub enum EventView {
    Unresolved,
    Played { played: Timestamp, media: MediaView },
}

impl View for HistoryEvent {
    type V = EventView;

    open spec fn view(&self) -> EventView {
        match self {
            HistoryEvent::Unresolved => EventView::Unresolved,
            HistoryEvent::Played { played, media } => EventView::Played {
                played: *played,
                media: media@,
            },
        }
    }
}

/// What a scan has gathered.
#[verifier::ext_equal]
pub struct Tally {
    /// Episodes counted, by title.
    pub counts: Map<Seq<char>, nat>,
    /// Metadata of the series met, in order of capture.
    pub series: Seq<MetadataView>,
    /// Entries counted in all.
    pub processed: nat,
    /// Whether the scan has ended.
    pub stopped: bool,
}

/// What became of an entry handed to the scan.
#[derive(Clone, Copy, Debug, PartialEq, Eq, Structural)]
pub enum Outcome {
    /// The scan had ended before; the entry was not looked at.
    Ignored,
    /// The entry was unresolved, or its media has no title.
    Skipped,
    /// The entry was played before the cutoff: the scan ends without
    /// counting it.
    ReachedCutoff,
    /// The entry was counted; `count` is what its title stands at now.
    Counted { count: u64 },
}

impl EventView {
    /// The display title of the entry's media, if it was resolved to a kind
    /// that has one.
    pub open spec fn title(self) -> Option<Seq<char>> {
        match self {
            EventView::Unresolved => None,
            EventView::Played { played, media } => media.title(),
        }
    }

    /// Whether the entry was played strictly before the cutoff, if there is
    /// one.
    pub open spec fn before_cutoff(self, settings: Settings) -> bool {
        match (self, settings.cutoff) {
            (EventView::Played { played, media }, Some(cutoff)) => played.earlier_than(cutoff),
            _ => false,
        }
    }

    /// A titled entry played before the cutoff: it ends a running scan.
    pub open spec fn halts(self, settings: Settings) -> bool {
        self.title() is Some && self.before_cutoff(settings)
    }

    /// A titled entry not played before the cutoff: a running scan counts it.
    pub open spec fn countable(self, settings: Settings) -> bool {
        self.title() is Some && !self.before_cutoff(settings)
    }

    /// The series that the entry points at, if it points at one.
    pub open spec fn series(self) -> Option<SeriesView> {
        match self {
            EventView::Played { played, media: MediaView::Series(series) } => Some(series),
            _ => None,
        }
    }
}

/// Whether `processed` counted entries exhaust the limit, if there is one.
pub open spec fn limit_reached(settings: Settings, processed: nat) -> bool {
    match settings.limit {
        Some(limit) => processed >= limit,
        None => false,
    }
}

/// The tally before the first entry.
pub open spec fn start(settings: Settings) -> Tally {
    Tally {
        counts: Map::empty(),
        series: Seq::empty(),
        processed: 0,
        stopped: limit_reached(settings, 0),
    }
}

/// The tally after counting a titled entry: one more for its title and in
/// all, and the metadata of its series if the title has none yet.
pub open spec fn record(settings: Settings, tally: Tally, event: EventView) -> Tally {
    let title = event.title()->0;
    Tally {
        counts: tally.counts.insert(title, count_of(tally.counts, title) + 1),
        series: match event.series() {
            Some(series) if !has_series(tally.series, title) => tally.series.push(
                metadata_of(series),
            ),
            _ => tally.series,
        },
        processed: tally.processed + 1,
        stopped: limit_reached(settings, tally.processed + 1),
    }
}

/// The tally after one more entry.
pub open spec fn step(settings: Settings, tally: Tally, event: EventView) -> Tally {
    if tally.stopped {
        tally
    } else if event.halts(settings) {
        Tally { stopped: true, ..tally }
    } else if event.countable(settings) {
        record(settings, tally, event)
    } else {
        tally
    }
}

/// What the scan reports of one more entry.
pub open spec fn outcome_of(settings: Settings, tally: Tally, event: EventView) -> Outcome {
    if tally.stopped {
        Outcome::Ignored
    } else if event.halts(settings) {
        Outcome::ReachedCutoff
    } else if event.countable(settings) {
        Outcome::Counted { count: (count_of(tally.counts, event.title()->0) + 1) as u64 }
    } else {
        Outcome::Skipped
    }
}

/// What holds of every tally that a scan can reach.
pub open spec fn consistent(settings: Settings, tally: Tally) -> bool {
    &&& distinct_titles(tally.series)
    &&& forall|i: int|
        0 <= i < tally.series.len() ==> tally.counts.contains_key((#[trigger] tally.series[i]).title)
    &&& forall|title: Seq<char>| #[trigger]
        tally.counts.contains_key(title) ==> 1 <= tally.counts[title] <= tally.processed
    &&& !tally.stopped ==> !limit_reached(settings, tally.processed)
}

/// Every step keeps a tally consistent.
pub proof fn lemma_step_consistent(settings: Settings, tally: Tally, event: EventView)
    requires
        consistent(settings, tally),
    ensures
        consistent(settings, step(settings, tally, event)),
{
}

/// A scan in progress: its settings and what it has gathered so far.
pub struct Aggregator {
    settings: Settings,
    counts: TitleCounts,
    series: SeriesCatalog,
    processed: u64,
    stopped: bool,
}

impl View for Aggregator {
    type V = Tally;

    closed spec fn view(&self) -> Tally {
        Tally {
            counts: self.counts@,
            series: self.series@,
            processed: self.processed as nat,
            stopped: self.stopped,
        }
    }
}

impl Aggregator {
    /// What the scan was made with.
    pub closed spec fn settings(&self) -> Settings {
        self.settings
    }

    /// The two mappings are well formed and the tally is one that a scan can
    /// reach.
    pub closed spec fn wf(&self) -> bool {
        &&& self.counts.wf()
        &&& self.series.wf()
        &&& consistent(self.settings, self@)
    }

    /// A scan that has seen no entry yet.
    pub fn new(cutoff: Option<Timestamp>, limit: Option<u64>) -> (aggregator: Aggregator)
        ensures
            aggregator.wf(),
            aggregator.settings() == (Settings { cutoff, limit }),
            aggregator@ == start(Settings { cutoff, limit }),
    {
        let stopped = match limit {
            Some(l) => l == 0,
            None => false,
        };
        Aggregator {
            settings: Settings { cutoff, limit },
            counts: TitleCounts::new(),
            series: SeriesCatalog::new(),
            processed: 0,
            stopped,
        }
    }

    /// Takes in the next entry of the history: ends the scan at a titled
    /// entry older than the cutoff, counts any other titled entry and
    /// captures the metadata of a series the first time its title is
    /// counted, and ends the scan when the limit is reached. An unresolved
    /// or untitled entry changes nothing, nor does any entry after the end.
    pub fn observe(&mut self, event: &HistoryEvent) -> (outcome: Outcome)
        requires
            old(self).wf(),
            !old(self)@.stopped ==> old(self)@.processed < u64::MAX,
        ensures
            final(self).wf(),
            final(self).settings() == old(self).settings(),
            final(self)@ == step(old(self).settings(), old(self)@, event@),
            outcome == outcome_of(old(self).settings(), old(self)@, event@),
    {
        proof {
            lemma_step_consistent(self.settings, self@, event@);
        }
        if self.stopped {
            return Outcome::Ignored;
        }
        match event {
            HistoryEvent::Unresolved => Outcome::Skipped,
            HistoryEvent::Played { played, media } => {
                match media.title() {
                    None => Outcome::Skipped,
                    Some(title) => {
                        let too_old = match self.settings.cutoff {
                            Some(cutoff) => played.is_before(&cutoff),
                            None => false,
                        };
                        if too_old {
                            self.stopped = true;
                            Outcome::ReachedCutoff
                        } else {
                            let count = self.counts.increment(title);
                            match media {
                                Media::Series(series) => {
                                    if !self.series.contains(title) {
                                        self.series.insert_if_absent(
                                            SeriesMetadata::from_series(series),
                                        );
                                    }
                                },
                                _ => {},
                            }
                            self.processed = self.processed + 1;
                            self.stopped = match self.settings.limit {
                                Some(limit) => self.processed >= limit,
                                None => false,
                            };
                            Outcome::Counted { count }
                        }
                    },
                }
            },
        }
    }

    /// Whether the scan has ended.
    pub fn is_stopped(&self) -> (stopped: bool)
        ensures
            stopped == self@.stopped,
    {
        self.stopped
    }

    /// How many entries were counted.
    pub fn processed(&self) -> (processed: u64)
        ensures
            processed == self@.processed,
    {
        self.processed
    }

    /// The cutoff the scan was made with.
    pub fn cutoff(&self) -> (cutoff: Option<Timestamp>)
        ensures
            cutoff == self.settings().cutoff,
    {
        self.settings.cutoff
    }

    /// The limit the scan was made with.
    pub fn limit(&self) -> (limit: Option<u64>)
        ensures
            limit == self.settings().limit,
    {
        self.settings.limit
    }

    /// The episode counts gathered so far.
    pub fn counts(&self) -> (counts: &TitleCounts)
        requires
            self.wf(),
        ensures
            counts.wf(),
            counts@ == self@.counts,
    {
        &self.counts
    }

    /// The series metadata captured so far.
    pub fn series(&self) -> (series: &SeriesCatalog)
        requires
            self.wf(),
        ensures
            series.wf(),
            series@ == self@.series,
    {
        &self.series
    }
}

} // verus!
