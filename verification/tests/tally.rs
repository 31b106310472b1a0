use watch_history::media::SeriesMetadata;
use watch_history::tally::{SeriesCatalog, TitleCounts};

fn metadata_named(title: &str, description: &str) -> SeriesMetadata {
    SeriesMetadata {
        title: title.to_string(),
        slug: String::new(),
        description: description.to_string(),
        extended_description: String::new(),
        episodes: 1,
        seasons: 1,
        publisher: String::new(),
        keywords: Vec::new(),
        poster_tall: String::new(),
    }
}

#[test]
fn counts_start_at_one_and_grow_by_one() {
    let mut counts = TitleCounts::new();
    assert_eq!(counts.len(), 0);
    assert_eq!(counts.get(&"A".to_string()), None);
    assert_eq!(counts.increment(&"A".to_string()), 1);
    assert_eq!(counts.increment(&"B".to_string()), 1);
    assert_eq!(counts.increment(&"A".to_string()), 2);
    assert_eq!(counts.increment(&"A".to_string()), 3);
    assert_eq!(counts.len(), 2);
    assert_eq!(counts.get(&"A".to_string()), Some(3));
    assert_eq!(counts.get(&"B".to_string()), Some(1));
    assert_eq!(counts.get(&"a".to_string()), None);
    assert_eq!(counts.entry(0).title, "A");
    assert_eq!(counts.entry(0).count, 3);
    assert_eq!(counts.entry(1).title, "B");
    assert_eq!(counts.entry(1).count, 1);
}

#[test]
fn catalog_keeps_the_first_metadata_of_a_title() {
    let mut catalog = SeriesCatalog::new();
    assert_eq!(catalog.len(), 0);
    assert!(!catalog.contains(&"A".to_string()));
    assert!(catalog.insert_if_absent(metadata_named("A", "first")));
    assert!(catalog.insert_if_absent(metadata_named("B", "other")));
    assert!(!catalog.insert_if_absent(metadata_named("A", "second")));
    assert_eq!(catalog.len(), 2);
    assert!(catalog.contains(&"A".to_string()));
    assert!(catalog.contains(&"B".to_string()));
    assert_eq!(catalog.get(0).title, "A");
    assert_eq!(catalog.get(0).description, "first");
    assert_eq!(catalog.get(1).title, "B");
}
