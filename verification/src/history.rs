//! A scan over a whole history: what it gathers, stated over the sequence of
//! entries, and the run that computes it.

use vstd::prelude::*;
use crate::aggregator::{
    consistent, lemma_step_consistent, limit_reached, start, step, Aggregator, EventView,
    HistoryEvent, Settings, Tally,
};
use crate::media::{metadata_of, MetadataView};
use crate::tally::{count_of, distinct_titles, has_series};
use crate::timestamp::Timestamp;

verus! {

/// The views of a history's entries, in order.
pub open spec fn event_views(events: Seq<HistoryEvent>) -> Seq<EventView> {
    events.map_values(|e: HistoryEvent| e@)
}

/// The tally after the entries of a history, taken in order.
pub open spec fn aggregate(settings: Settings, events: Seq<EventView>) -> Tally
    decreases events.len(),
{
    if events.len() == 0 {
        start(settings)
    } else {
        step(settings, aggregate(settings, events.drop_last()), events.last())
    }
}

/// How many leading entries the scan takes in before it ends: all of them if
/// it never ends.
pub open spec fn scanned(settings: Settings, events: Seq<EventView>) -> nat
    decreases events.len(),
{
    if events.len() == 0 {
        0
    } else if aggregate(settings, events.drop_last()).stopped {
        scanned(settings, events.drop_last())
    } else {
        events.len()
    }
}

/// How many entries carry this title and were not played before the cutoff.
pub open spec fn occurrences(settings: Settings, events: Seq<EventView>, title: Seq<char>) -> nat
    decreases events.len(),
{
    if events.len() == 0 {
        0
    } else {
        occurrences(settings, events.drop_last(), title) + if events.last().countable(settings)
            && events.last().title() == Some(title) {
            1nat
        } else {
            0nat
        }
    }
}

/// How many entries carry a title.
pub open spec fn titled(events: Seq<EventView>) -> nat
    decreases events.len(),
{
    if events.len() == 0 {
        0
    } else {
        titled(events.drop_last()) + if events.last().title() is Some {
            1nat
        } else {
            0nat
        }
    }
}

/// The metadata of the first entry that points at a series of this title and
/// was not played before the cutoff.
pub open spec fn first_capture(
    settings: Settings,
    events: Seq<EventView>,
    title: Seq<char>,
) -> Option<MetadataView>
    decreases events.len(),
{
    if events.len() == 0 {
        None
    } else {
        match first_capture(settings, events.drop_last(), title) {
            Some(meta) => Some(meta),
            None => match events.last().series() {
                Some(series) if events.last().countable(settings) && series.title == title => Some(
                    metadata_of(series),
                ),
                _ => None,
            },
        }
    }
}

/// What the captured series hold for a title.
pub open spec fn series_for(series: Seq<MetadataView>, title: Seq<char>) -> Option<MetadataView> {
    if has_series(series, title) {
        Some(series[choose|i: int| 0 <= i < series.len() && (#[trigger] series[i]).title == title])
    } else {
        None
    }
}

/// The entries come newest first: none was played earlier than one after it.
pub open spec fn newest_first(events: Seq<EventView>) -> bool {
    forall|i: int, j: int|
        0 <= i < j < events.len() ==> match (#[trigger] events[i], #[trigger] events[j]) {
            (
                EventView::Played { played: first, media: _ },
                EventView::Played { played: second, media: _ },
            ) => !first.earlier_than(second),
            _ => true,
        }
}

/// Every tally of a scan is consistent: no series title twice, every series
/// title among the counts, no count above the entries counted in all, and a
/// running scan below its limit.
pub proof fn lemma_aggregate_consistent(settings: Settings, events: Seq<EventView>)
    ensures
        consistent(settings, aggregate(settings, events)),
    decreases events.len(),
{
    if events.len() > 0 {
        lemma_aggregate_consistent(settings, events.drop_last());
        lemma_step_consistent(
            settings,
            aggregate(settings, events.drop_last()),
            events.last(),
        );
    }
}

/// A scan that has ended stays as it is, whatever entries follow.
pub proof fn lemma_stop_is_final(settings: Settings, events: Seq<EventView>, more: Seq<EventView>)
    requires
        aggregate(settings, events).stopped,
    ensures
        aggregate(settings, events + more) == aggregate(settings, events),
    decreases more.len(),
{
    if more.len() > 0 {
        lemma_stop_is_final(settings, events, more.drop_last());
        assert((events + more).drop_last() =~= events + more.drop_last());
    }
}

/// The scan takes in a leading part of the history and nothing after it:
/// the tally is that of the entries taken in, and a scan that has not ended
/// has taken in every entry.
pub proof fn lemma_scanned_prefix(settings: Settings, events: Seq<EventView>)
    ensures
        scanned(settings, events) <= events.len(),
        aggregate(settings, events) == aggregate(
            settings,
            events.take(scanned(settings, events) as int),
        ),
        !aggregate(settings, events).stopped ==> scanned(settings, events) == events.len(),
    decreases events.len(),
{
    if events.len() > 0 {
        let earlier = events.drop_last();
        lemma_scanned_prefix(settings, earlier);
        if aggregate(settings, earlier).stopped {
            assert(events.take(scanned(settings, events) as int) =~= earlier.take(
                scanned(settings, earlier) as int,
            ));
        } else {
            assert(events.take(events.len() as int) =~= events);
        }
    }
}

/// For every title, the count is the number of entries of that title, not
/// played before the cutoff, among those that the scan took in.
pub proof fn lemma_counts_are_occurrences(
    settings: Settings,
    events: Seq<EventView>,
    title: Seq<char>,
)
    ensures
        count_of(aggregate(settings, events).counts, title) == occurrences(
            settings,
            events.take(scanned(settings, events) as int),
            title,
        ),
    decreases events.len(),
{
    if events.len() > 0 {
        let earlier = events.drop_last();
        lemma_counts_are_occurrences(settings, earlier, title);
        lemma_scanned_prefix(settings, earlier);
        if aggregate(settings, earlier).stopped {
            assert(events.take(scanned(settings, events) as int) =~= earlier.take(
                scanned(settings, earlier) as int,
            ));
        } else {
            assert(events.take(events.len() as int) =~= events);
            assert(earlier.take(earlier.len() as int) =~= earlier);
        }
    }
}

/// Without a cutoff the scan ends for no reason but the limit: it counts
/// every titled entry until the history is exhausted or the limit is
/// reached.
pub proof fn lemma_no_cutoff_counts_to_limit(settings: Settings, events: Seq<EventView>)
    requires
        settings.cutoff is None,
    ensures
        aggregate(settings, events).stopped == limit_reached(
            settings,
            aggregate(settings, events).processed,
        ),
        aggregate(settings, events).processed == match settings.limit {
            Some(limit) if limit <= titled(events) => limit as nat,
            _ => titled(events),
        },
    decreases events.len(),
{
    if events.len() > 0 {
        lemma_no_cutoff_counts_to_limit(settings, events.drop_last());
    }
}

/// A titled entry played before the cutoff ends the scan: neither it nor
/// any entry after it is counted or captured.
pub proof fn lemma_old_entry_halts(
    settings: Settings,
    events: Seq<EventView>,
    entry: EventView,
    more: Seq<EventView>,
)
    requires
        entry.halts(settings),
    ensures
        aggregate(settings, events.push(entry) + more) == (Tally {
            stopped: true,
            ..aggregate(settings, events)
        }),
{
    assert(events.push(entry).drop_last() =~= events);
    lemma_stop_is_final(settings, events.push(entry), more);
}

/// A scan ends for one of two reasons and no other: the limit is reached,
/// or the last entry taken in is a titled one played before the cutoff.
pub proof fn lemma_scan_ends_for_a_reason(settings: Settings, events: Seq<EventView>)
    ensures
        aggregate(settings, events).stopped ==> {
            ||| limit_reached(settings, aggregate(settings, events).processed)
            ||| scanned(settings, events) > 0 && events[scanned(settings, events) - 1].halts(
                settings,
            )
        },
    decreases events.len(),
{
    if events.len() > 0 {
        lemma_scan_ends_for_a_reason(settings, events.drop_last());
        lemma_scanned_prefix(settings, events.drop_last());
    }
}

/// Where the provider hands the entries out newest first and no limit is
/// set, ending the scan at the cutoff loses nothing: for every title the
/// count is the number of all the entries of that title that were not
/// played before the cutoff.
pub proof fn lemma_newest_first_counts_all(
    settings: Settings,
    events: Seq<EventView>,
    title: Seq<char>,
)
    requires
        newest_first(events),
        settings.limit is None,
    ensures
        count_of(aggregate(settings, events).counts, title) == occurrences(
            settings,
            events,
            title,
        ),
    decreases events.len(),
{
    if events.len() > 0 {
        let earlier = events.drop_last();
        lemma_newest_first_counts_all(settings, earlier, title);
        if aggregate(settings, earlier).stopped {
            // The entry that ended the scan is older than the cutoff, and the
            // last entry is no newer than that one.
            lemma_scan_ends_for_a_reason(settings, earlier);
            lemma_scanned_prefix(settings, earlier);
        }
    }
}

/// What the captured series hold for a title is the one entry of that
/// title.
pub proof fn lemma_series_for_unique(series: Seq<MetadataView>, title: Seq<char>, i: int)
    requires
        distinct_titles(series),
        0 <= i < series.len(),
        series[i].title == title,
    ensures
        series_for(series, title) == Some(series[i]),
{
    let k = choose|k: int| 0 <= k < series.len() && (#[trigger] series[k]).title == title;
    assert(k == i) by {
        if k < i {
            assert(series[k].title != series[i].title);
        } else if i < k {
            assert(series[i].title != series[k].title);
        }
    }
}

/// What holds of a step and the series captured: the metadata of a title
/// that has some stays, and a title gains metadata only from an entry, not
/// played before the cutoff, that points at a series of that title.
proof fn lemma_step_capture(settings: Settings, tally: Tally, event: EventView, title: Seq<char>)
    requires
        consistent(settings, tally),
        !tally.stopped,
    ensures
        series_for(step(settings, tally, event).series, title) == match series_for(
            tally.series,
            title,
        ) {
            Some(meta) => Some(meta),
            None => match event.series() {
                Some(series) if event.countable(settings) && series.title == title => Some(
                    metadata_of(series),
                ),
                _ => None,
            },
        },
{
    let next = step(settings, tally, event);
    lemma_step_consistent(settings, tally, event);
    if next.series != tally.series {
        let series = event.series()->0;
        let last = tally.series.len() as int;
        if series.title == title {
            lemma_series_for_unique(next.series, title, last);
        } else if has_series(tally.series, title) {
            let k = choose|k: int|
                0 <= k < tally.series.len() && (#[trigger] tally.series[k]).title == title;
            lemma_series_for_unique(tally.series, title, k);
            assert(next.series[k] == tally.series[k]);
            lemma_series_for_unique(next.series, title, k);
        } else if has_series(next.series, title) {
            let k = choose|k: int|
                0 <= k < next.series.len() && (#[trigger] next.series[k]).title == title;
            assert(next.series[k] == tally.series[k]);
        }
    }
}

/// The metadata kept for a title is what was captured from the first entry,
/// among those that the scan took in, that points at a series of that title
/// and was not played before the cutoff. Entries after it do not alter it.
pub proof fn lemma_series_are_first_captures(
    settings: Settings,
    events: Seq<EventView>,
    title: Seq<char>,
)
    ensures
        series_for(aggregate(settings, events).series, title) == first_capture(
            settings,
            events.take(scanned(settings, events) as int),
            title,
        ),
    decreases events.len(),
{
    if events.len() > 0 {
        let earlier = events.drop_last();
        lemma_series_are_first_captures(settings, earlier, title);
        lemma_scanned_prefix(settings, earlier);
        lemma_aggregate_consistent(settings, earlier);
        if aggregate(settings, earlier).stopped {
            assert(events.take(scanned(settings, events) as int) =~= earlier.take(
                scanned(settings, earlier) as int,
            ));
        } else {
            assert(events.take(events.len() as int) =~= events);
            assert(earlier.take(earlier.len() as int) =~= earlier);
            lemma_step_capture(settings, aggregate(settings, earlier), events.last(), title);
        }
    }
}

/// The captured series only grow: what a scan holds after more entries
/// starts with what it held before them.
pub proof fn lemma_series_only_grow(
    settings: Settings,
    events: Seq<EventView>,
    more: Seq<EventView>,
)
    ensures
        aggregate(settings, events).series.is_prefix_of(aggregate(settings, events + more).series),
    decreases more.len(),
{
    if more.len() > 0 {
        lemma_series_only_grow(settings, events, more.drop_last());
        assert((events + more).drop_last() =~= events + more.drop_last());
    }
}

/// Runs a scan over a history that is at hand as a whole, entry by entry
/// until the history or the scan ends.
pub fn scan_history(
    cutoff: Option<Timestamp>,
    limit: Option<u64>,
    events: &Vec<HistoryEvent>,
) -> (aggregator: Aggregator)
    ensures
        aggregator.wf(),
        aggregator.settings() == (Settings { cutoff, limit }),
        aggregator@ == aggregate(Settings { cutoff, limit }, event_views(events@)),
{
    let ghost settings = Settings { cutoff, limit };
    let ghost all = event_views(events@);
    let mut aggregator = Aggregator::new(cutoff, limit);
    let mut i: usize = 0;
    while i < events.len() && !aggregator.is_stopped()
        invariant
            i <= events@.len(),
            all == event_views(events@),
            aggregator.wf(),
            aggregator.settings() == settings,
            aggregator@ == aggregate(settings, all.take(i as int)),
            aggregator@.processed <= i,
        decreases events@.len() - i,
    {
        assert(all.take(i + 1).drop_last() =~= all.take(i as int));
        aggregator.observe(&events[i]);
        i += 1;
    }
    proof {
        assert(all.take(i as int) + all.skip(i as int) =~= all);
        if aggregator@.stopped {
            lemma_stop_is_final(settings, all.take(i as int), all.skip(i as int));
        }
    }
    aggregator
}

} // verus!
