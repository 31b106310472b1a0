//! The report: for every series with captured metadata, the metadata and
//! the episodes counted under its title, as a JSON document and as text.

use vstd::prelude::*;
use crate::json::{
    json_doc, json_list, json_number, json_object, json_text, members_insert, members_new,
    pretty_text, to_pretty, JsonDoc,
};
use crate::aggregator::{consistent, Settings, Tally};
use crate::media::{MetadataView, SeriesMetadata};
use crate::tally::{count_of, SeriesCatalog, TitleCounts};
use crate::text::texts;

verus! {

/// One record of the report.
#[derive(Debug)]
pub struct ReportRecord {
    pub series: SeriesMetadata,
    pub episodes_watched: u64,
}

/// A record by the view of its series and its count as a number.
pub struct RecordView {
    pub series: MetadataView,
    pub episodes_watched: nat,
}

impl View for ReportRecord {
    type V = RecordView;

    open spec fn view(&self) -> RecordView {
        RecordView { series: self.series@, episodes_watched: self.episodes_watched as nat }
    }
}

/// Why no text could be made of a report.
#[derive(Clone, Copy, Debug, PartialEq, Eq, Structural)]
pub enum ReportError {
    /// The JSON serializer failed.
    Serialize,
}

/// The views of a report's records, in order.
pub open spec fn record_views(report: Seq<ReportRecord>) -> Seq<RecordView> {
    report.map_values(|r: ReportRecord| r@)
}

/// The report over two mappings: one record for every series, in the order
/// of the series, with the count of its title, or zero where the title has
/// none.
pub open spec fn report_of(counts: Map<Seq<char>, nat>, series: Seq<MetadataView>) -> Seq<
    RecordView,
> {
    Seq::new(
        series.len(),
        |i: int|
            RecordView {
                series: series[i],
                episodes_watched: count_of(counts, series[i].title),
            },
    )
}

/// The JSON array of strings.
pub open spec fn texts_doc(items: Seq<Seq<char>>) -> JsonDoc {
    JsonDoc::List(items.map_values(|t: Seq<char>| JsonDoc::Text(t)))
}

/// The JSON object of a series' metadata.
pub open spec fn series_doc(meta: MetadataView) -> JsonDoc {
    JsonDoc::Object(
        Map::<Seq<char>, JsonDoc>::empty()
            .insert("title"@, JsonDoc::Text(meta.title))
            .insert("slug"@, JsonDoc::Text(meta.slug))
            .insert("description"@, JsonDoc::Text(meta.description))
            .insert("extendedDescription"@, JsonDoc::Text(meta.extended_description))
            .insert("episodes"@, JsonDoc::Number(meta.episodes as int))
            .insert("seasons"@, JsonDoc::Number(meta.seasons as int))
            .insert("publisher"@, JsonDoc::Text(meta.publisher))
            .insert("keywords"@, texts_doc(meta.keywords))
            .insert("posterTall"@, JsonDoc::Text(meta.poster_tall)),
    )
}

/// The JSON object of a record.
pub open spec fn record_doc(record: RecordView) -> JsonDoc {
    JsonDoc::Object(
        Map::<Seq<char>, JsonDoc>::empty()
            .insert("series"@, series_doc(record.series))
            .insert("episodesWatched"@, JsonDoc::Number(record.episodes_watched as int)),
    )
}

/// The JSON array of a report's records.
pub open spec fn report_doc(report: Seq<RecordView>) -> JsonDoc {
    JsonDoc::List(report.map_values(|r: RecordView| record_doc(r)))
}

/// The contents of a report file: the pretty-printed document and a line
/// break, or `None` where the serializer fails on the document.
pub open spec fn report_text(report: Seq<RecordView>) -> Option<Seq<char>> {
    match pretty_text(report_doc(report)) {
        Some(text) => Some(text.push('\n')),
        None => None,
    }
}

/// In the report of a scan every series has at least one episode to its
/// title: what a scan captures it has counted.
pub proof fn lemma_reported_series_are_counted(settings: Settings, tally: Tally)
    requires
        consistent(settings, tally),
    ensures
        forall|i: int|
            0 <= i < tally.series.len() ==> (#[trigger] report_of(
                tally.counts,
                tally.series,
            )[i]).episodes_watched >= 1,
{
    assert forall|i: int| 0 <= i < tally.series.len() implies (#[trigger] report_of(
        tally.counts,
        tally.series,
    )[i]).episodes_watched >= 1 by {
        assert(tally.counts.contains_key(tally.series[i].title));
    }
}

/// Reports that hold the same give the same file contents, whatever else
/// sets the records apart.
pub proof fn lemma_equal_reports_equal_text(first: Seq<ReportRecord>, second: Seq<ReportRecord>)
    requires
        record_views(first) == record_views(second),
    ensures
        report_text(record_views(first)) == report_text(record_views(second)),
{
}

/// Joins the captured series with the counts of their titles.
pub fn build_report(counts: &TitleCounts, series: &SeriesCatalog) -> (report: Vec<ReportRecord>)
    requires
        counts.wf(),
    ensures
        report@.len() == series@.len(),
        record_views(report@) == report_of(counts@, series@),
{
    let mut report: Vec<ReportRecord> = Vec::new();
    let mut i: usize = 0;
    while i < series.len()
        invariant
            counts.wf(),
            i <= series@.len(),
            report@.len() == i,
            forall|k: int| 0 <= k < i ==> (#[trigger] report@[k])@ == report_of(counts@, series@)[k],
        decreases series@.len() - i,
    {
        let meta = series.get(i);
        let episodes_watched = match counts.get(&meta.title) {
            Some(count) => count,
            None => 0,
        };
        report.push(ReportRecord { series: meta.clone(), episodes_watched });
        i += 1;
    }
    report
}

fn texts_json(items: &Vec<String>) -> (value: serde_json::Value)
    ensures
        json_doc(value) == texts_doc(texts(items@)),
{
    let mut values: Vec<serde_json::Value> = Vec::new();
    let mut i: usize = 0;
    while i < items.len()
        invariant
            i <= items@.len(),
            values@.len() == i,
            forall|k: int| 0 <= k < i ==> json_doc(#[trigger] values@[k]) == JsonDoc::Text(items@[k]@),
        decreases items@.len() - i,
    {
        values.push(json_text(items[i].as_str()));
        i += 1;
    }
    assert(values@.map_values(|v: serde_json::Value| json_doc(v)) =~= texts(
        items@,
    ).map_values(|t: Seq<char>| JsonDoc::Text(t)));
    json_list(values)
}

fn series_json(meta: &SeriesMetadata) -> (value: serde_json::Value)
    ensures
        json_doc(value) == series_doc(meta@),
{
    let mut members = members_new();
    members_insert(&mut members, "title", json_text(meta.title.as_str()));
    members_insert(&mut members, "slug", json_text(meta.slug.as_str()));
    members_insert(&mut members, "description", json_text(meta.description.as_str()));
    members_insert(
        &mut members,
        "extendedDescription",
        json_text(meta.extended_description.as_str()),
    );
    members_insert(&mut members, "episodes", json_number(meta.episodes as u64));
    members_insert(&mut members, "seasons", json_number(meta.seasons as u64));
    members_insert(&mut members, "publisher", json_text(meta.publisher.as_str()));
    members_insert(&mut members, "keywords", texts_json(&meta.keywords));
    members_insert(&mut members, "posterTall", json_text(meta.poster_tall.as_str()));
    json_object(members)
}

fn record_json(record: &ReportRecord) -> (value: serde_json::Value)
    ensures
        json_doc(value) == record_doc(record@),
{
    let mut members = members_new();
    members_insert(&mut members, "series", series_json(&record.series));
    members_insert(&mut members, "episodesWatched", json_number(record.episodes_watched));
    json_object(members)
}

/// The JSON document of a report.
pub fn report_json(report: &Vec<ReportRecord>) -> (value: serde_json::Value)
    ensures
        json_doc(value) == report_doc(record_views(report@)),
{
    let mut values: Vec<serde_json::Value> = Vec::new();
    let mut i: usize = 0;
    while i < report.len()
        invariant
            i <= report@.len(),
            values@.len() == i,
            forall|k: int| 0 <= k < i ==> json_doc(#[trigger] values@[k]) == record_doc(report@[k]@),
        decreases report@.len() - i,
    {
        values.push(record_json(&report[i]));
        i += 1;
    }
    assert(values@.map_values(|v: serde_json::Value| json_doc(v)) =~= record_views(
        report@,
    ).map_values(|r: RecordView| record_doc(r)));
    json_list(values)
}

/// What the serializer's answer means for the report file: its text with a
/// line break at the end, or the failure.
pub fn report_from_pretty(pretty: Result<String, serde_json::Error>) -> (contents: Result<
    String,
    ReportError,
>)
    ensures
        match pretty {
            Ok(text) => contents matches Ok(c) && c@ == text@.push('\n'),
            Err(_) => contents == Err::<String, ReportError>(ReportError::Serialize),
        },
{
    match pretty {
        Ok(text) => {
            let mut contents = text;
            proof {
                reveal_strlit("\n");
            }
            contents.append("\n");
            Ok(contents)
        },
        Err(_) => Err(ReportError::Serialize),
    }
}

/// The contents of the report file: the report as pretty-printed JSON, with
/// a line break at the end, where the serializer gives a text for the
/// report's document, and the failure where it gives none.
pub fn render_report(report: &Vec<ReportRecord>) -> (contents: Result<String, ReportError>)
    ensures
        match report_text(record_views(report@)) {
            Some(text) => contents matches Ok(c) && c@ == text,
            None => contents == Err::<String, ReportError>(ReportError::Serialize),
        },
{
    let document = report_json(report);
    report_from_pretty(to_pretty(&document))
}

} // verus!
