use chrono::{DateTime, Utc};
use watch_history::cutoff::{
    cutoff_from_parse, cutoff_line, cutoff_line_from, cutoff_or_none, read_cutoff_date,
    CutoffError, CUTOFF_FILE,
};
use watch_history::timestamp::Timestamp;

#[test]
fn missing_file_means_no_cutoff() {
    assert_eq!(read_cutoff_date(None), Ok(None));
}

#[test]
fn empty_file_means_no_cutoff() {
    assert_eq!(read_cutoff_date(Some("")), Ok(None));
}

#[test]
fn white_space_alone_means_no_cutoff() {
    assert_eq!(read_cutoff_date(Some(" \t\r\n")), Ok(None));
    assert_eq!(read_cutoff_date(Some("\n")), Ok(None));
    assert_eq!(read_cutoff_date(Some("\u{a0}\u{2003}\u{3000}\u{85}")), Ok(None));
}

#[test]
fn timestamp_is_read() {
    assert_eq!(
        read_cutoff_date(Some("2024-01-02T03:04:05Z\n")),
        Ok(Some(Timestamp::new(1_704_164_645, 0)))
    );
    assert_eq!(
        read_cutoff_date(Some("  2024-01-02 03:04:05.25 UTC  ")),
        Ok(Some(Timestamp::new(1_704_164_645, 250_000_000)))
    );
    assert_eq!(
        read_cutoff_date(Some("2024-01-02T04:04:05+01:00")),
        Ok(Some(Timestamp::new(1_704_164_645, 0)))
    );
    assert_eq!(read_cutoff_date(Some("1969-12-31T23:59:59Z")), Ok(Some(Timestamp::new(-1, 0))));
}

#[test]
fn malformed_content_is_a_format_error() {
    assert_eq!(read_cutoff_date(Some("yesterday")), Err(CutoffError::Format));
    assert_eq!(read_cutoff_date(Some("2024-01-02")), Err(CutoffError::Format));
    assert_eq!(read_cutoff_date(Some("2024-13-02T03:04:05Z")), Err(CutoffError::Format));
    assert_eq!(read_cutoff_date(Some("2024-01-02T03:04:05Z and more")), Err(CutoffError::Format));
    assert_eq!(read_cutoff_date(Some("\u{200b}")), Err(CutoffError::Format));
}

#[test]
fn unreadable_store_counts_as_no_cutoff() {
    assert_eq!(cutoff_or_none(Err(CutoffError::Format)), None);
    assert_eq!(cutoff_or_none(Ok(None)), None);
    assert_eq!(cutoff_or_none(Ok(Some(Timestamp::new(3, 4)))), Some(Timestamp::new(3, 4)));
    assert_eq!(cutoff_or_none(read_cutoff_date(Some("garbage"))), None);
}

#[test]
fn parser_answers_become_cutoffs() {
    let failure = "nope".parse::<DateTime<Utc>>().unwrap_err();
    assert_eq!(cutoff_from_parse(Err(failure)), Err(CutoffError::Format));
    assert_eq!(cutoff_from_parse(Ok(Timestamp::new(8, 9))), Ok(Some(Timestamp::new(8, 9))));
}

#[test]
fn cutoff_is_written_on_a_line() {
    assert_eq!(
        cutoff_line(Timestamp::new(1_431_648_000, 0)),
        Some("2015-05-15 00:00:00 UTC\n".to_string())
    );
    assert_eq!(
        cutoff_line(Timestamp::new(1_431_648_000, 500_000_000)),
        Some("2015-05-15 00:00:00.500 UTC\n".to_string())
    );
    assert_eq!(
        cutoff_line(Timestamp::new(1_704_164_645, 123_456_789)),
        Some("2024-01-02 03:04:05.123456789 UTC\n".to_string())
    );
    assert_eq!(cutoff_line(Timestamp::new(0, 0)), Some("1970-01-01 00:00:00 UTC\n".to_string()));
}

#[test]
fn time_out_of_range_has_no_line() {
    assert_eq!(cutoff_line(Timestamp::new(i64::MAX, 0)), None);
    assert_eq!(cutoff_line(Timestamp::new(i64::MIN, 0)), None);
    assert_eq!(cutoff_line(Timestamp::new(0, 2_000_000_000)), None);
    assert_eq!(cutoff_line(Timestamp::new(0, 1_000_000_000)), None);
}

#[test]
fn line_break_ends_the_displayed_text() {
    assert_eq!(cutoff_line_from(Some("text".to_string())), Some("text\n".to_string()));
    assert_eq!(cutoff_line_from(Some(String::new())), Some("\n".to_string()));
    assert_eq!(cutoff_line_from(None), None);
}

#[test]
fn written_cutoff_reads_back() {
    let times = [
        Timestamp::new(0, 0),
        Timestamp::new(1_431_648_000, 0),
        Timestamp::new(1_704_164_645, 123_456_789),
        Timestamp::new(1_704_164_645, 1_000),
        Timestamp::new(1_704_164_645, 999_999_999),
        Timestamp::new(-1, 999_000_000),
        Timestamp::new(-86_401 * 365 * 300, 1),
        Timestamp::new(32_503_680_000, 0),
        Timestamp::new(253_402_300_800, 0),
        Timestamp::new(59, 1_500_000_000),
    ];
    for time in times {
        let line = cutoff_line(time).unwrap();
        assert_eq!(read_cutoff_date(Some(&line)), Ok(Some(time)));
    }
}

#[test]
fn current_time_reads_back() {
    let now = Utc::now();
    let time = Timestamp::new(now.timestamp(), now.timestamp_subsec_nanos());
    let line = cutoff_line(time).unwrap();
    assert_eq!(line, format!("{}\n", now));
    assert_eq!(read_cutoff_date(Some(&line)), Ok(Some(time)));
}

#[test]
fn one_character_is_no_cutoff_or_no_timestamp() {
    let mut blank: Vec<u32> = vec![0x20, 0x85, 0xA0, 0x1680, 0x2028, 0x2029, 0x202F, 0x205F, 0x3000];
    blank.extend(0x09..=0x0D);
    blank.extend(0x2000..=0x200A);
    assert_eq!(blank.len(), 25);
    for code in 0..=0x3100_u32 {
        if let Some(c) = char::from_u32(code) {
            let expected = if blank.contains(&code) { Ok(None) } else { Err(CutoffError::Format) };
            assert_eq!(read_cutoff_date(Some(&c.to_string())), expected, "U+{:04X}", code);
        }
    }
}

#[test]
fn white_space_around_a_timestamp_is_dropped() {
    let time = Timestamp::new(1_704_164_645, 0);
    for space in ["\n", "\r\n", " ", "\t", "\u{a0}", "\u{2028}", "\u{3000} \u{85}"] {
        let contents = format!("{}2024-01-02T03:04:05Z{}", space, space);
        assert_eq!(read_cutoff_date(Some(&contents)), Ok(Some(time)));
    }
}

#[test]
fn cutoff_file_name() {
    assert_eq!(CUTOFF_FILE, "cutoff_date.txt");
}
