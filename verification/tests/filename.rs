use watch_history::filename::{candidate_name, get_unique_filename, stem, REPORT_FILE};
use watch_history::text::decimal_string;

fn files(names: &[&str]) -> Vec<String> {
    names.iter().map(|n| n.to_string()).collect()
}

#[test]
fn base_name_is_used_when_free() {
    assert_eq!(get_unique_filename("show_data.json", &files(&[])), "show_data.json");
    assert_eq!(
        get_unique_filename("show_data.json", &files(&["other.json", "show_data-1.json"])),
        "show_data.json"
    );
}

#[test]
fn taken_names_get_a_running_number() {
    assert_eq!(
        get_unique_filename("show_data.json", &files(&["show_data.json"])),
        "show_data-1.json"
    );
    assert_eq!(
        get_unique_filename("show_data.json", &files(&["show_data-1.json", "show_data.json"])),
        "show_data-2.json"
    );
    assert_eq!(
        get_unique_filename(
            "show_data.json",
            &files(&["show_data.json", "show_data-1.json", "show_data-2.json"])
        ),
        "show_data-3.json"
    );
}

#[test]
fn first_free_number_is_taken() {
    assert_eq!(
        get_unique_filename(
            "show_data.json",
            &files(&["show_data.json", "show_data-2.json", "show_data-3.json"])
        ),
        "show_data-1.json"
    );
}

#[test]
fn numbers_run_past_nine() {
    let mut existing = vec!["show_data.json".to_string()];
    for n in 1..=11 {
        existing.push(format!("show_data-{}.json", n));
    }
    assert_eq!(get_unique_filename("show_data.json", &existing), "show_data-12.json");
}

#[test]
fn listing_a_name_twice_changes_nothing() {
    assert_eq!(
        get_unique_filename("r.json", &files(&["r.json", "r.json", "r.json"])),
        "r-1.json"
    );
}

#[test]
fn writing_twice_gives_two_names() {
    let mut existing = files(&["show_data.json"]);
    let first = get_unique_filename("show_data.json", &existing);
    existing.push(first.clone());
    let second = get_unique_filename("show_data.json", &existing);
    assert_eq!(first, "show_data-1.json");
    assert_eq!(second, "show_data-2.json");
    assert_ne!(first, second);
    assert!(!existing.contains(&second));
}

#[test]
fn extension_is_added_where_the_base_has_none() {
    assert_eq!(get_unique_filename("show_data", &files(&[])), "show_data.json");
    assert_eq!(get_unique_filename("show_data", &files(&["show_data.json"])), "show_data-1.json");
}

#[test]
fn repeated_extension_is_taken_off() {
    assert_eq!(stem("show_data.json"), "show_data");
    assert_eq!(stem("show_data.json.json"), "show_data");
    assert_eq!(stem("show_data"), "show_data");
    assert_eq!(stem(".json"), "");
    assert_eq!(stem(""), "");
    assert_eq!(stem("json"), "json");
    assert_eq!(stem("a.jsonx"), "a.jsonx");
    assert_eq!(stem("a.JSON"), "a.JSON");
    assert_eq!(stem("données.json"), "données");
    assert_eq!(get_unique_filename("x.json.json", &files(&["x.json"])), "x-1.json");
}

#[test]
fn candidate_names_by_attempt() {
    assert_eq!(candidate_name("show_data.json", 0), "show_data.json");
    assert_eq!(candidate_name("show_data.json", 1), "show_data-1.json");
    assert_eq!(candidate_name("show_data.json", 10), "show_data-10.json");
    assert_eq!(candidate_name("show_data.json", 1234), "show_data-1234.json");
    assert_eq!(
        candidate_name("show_data.json", u64::MAX),
        "show_data-18446744073709551615.json"
    );
}

#[test]
fn decimal_numerals() {
    assert_eq!(decimal_string(0), "0");
    assert_eq!(decimal_string(7), "7");
    assert_eq!(decimal_string(10), "10");
    assert_eq!(decimal_string(909), "909");
    assert_eq!(decimal_string(1_000_000), "1000000");
    assert_eq!(decimal_string(u64::MAX), "18446744073709551615");
}

#[test]
fn report_file_name() {
    assert_eq!(REPORT_FILE, "show_data.json");
    assert_eq!(get_unique_filename(REPORT_FILE, &files(&[REPORT_FILE])), "show_data-1.json");
}
