use m4b_merge::duration::Duration;
use m4b_merge::metadata::{BookMetadata, Chapter};

#[test]
fn test_chapter_creation() {
    let chapter = Chapter::new("Chapter 1", Duration::from_secs(0), Duration::from_secs(600));
    assert_eq!(chapter.title, "Chapter 1");
    assert_eq!(chapter.start_time, Duration::from_secs(0));
    assert_eq!(chapter.duration, Duration::from_secs(600));
    assert_eq!(chapter.end_time(), Duration::from_secs(600));
}

#[test]
fn test_book_metadata_creation() {
    let metadata = BookMetadata::new("B08XYZ123", "Book Title", "Description");
    assert_eq!(metadata.asin, "B08XYZ123");
    assert_eq!(metadata.title, "Book Title");
    assert_eq!(metadata.description, "Description");
    assert!(metadata.authors.is_empty());
    assert!(metadata.chapters.is_empty());
}

#[test]
fn test_book_metadata_builder_methods() {
    let metadata = BookMetadata::new("B08XYZ123", "Title", "Desc")
        .add_author("John Doe")
        .add_narrator("Jane Smith")
        .add_genre("Fiction")
        .with_subtitle("The Sequel")
        .with_series("My Series", "1")
        .with_year(2023)
        .with_cover_url("https://example.com/cover.jpg")
        .add_chapter(Chapter::new("Intro", Duration::from_secs(0), Duration::from_secs(300)));

    assert_eq!(metadata.authors, vec!["John Doe"]);
    assert_eq!(metadata.narrators, vec!["Jane Smith"]);
    assert_eq!(metadata.genres, vec!["Fiction"]);
    assert_eq!(metadata.subtitle, Some("The Sequel".to_string()));
    assert_eq!(metadata.series_name, Some("My Series".to_string()));
    assert_eq!(metadata.series_position, Some("1".to_string()));
    assert_eq!(metadata.year, Some(2023));
    assert_eq!(metadata.cover_url, Some("https://example.com/cover.jpg".to_string()));
    assert_eq!(metadata.chapters.len(), 1);
}

#[test]
fn test_valid_asin() {
    assert!(BookMetadata::is_valid_asin("B08XYZ1234"));
    assert!(BookMetadata::is_valid_asin("B08XYZ123A"));
    assert!(BookMetadata::is_valid_asin("1234567890"));
    assert!(!BookMetadata::is_valid_asin("B08XYZ123"));
    assert!(!BookMetadata::is_valid_asin("B08XYZ12345"));
    assert!(!BookMetadata::is_valid_asin("B08-XYZ123"));
    assert!(!BookMetadata::is_valid_asin(""));
}

#[test]
fn test_full_title() {
    let metadata_with_subtitle = BookMetadata::new("A1", "Title", "Desc").with_subtitle("The Sequel");
    assert_eq!(metadata_with_subtitle.full_title(), "Title: The Sequel");

    let metadata_no_subtitle = BookMetadata::new("A1", "Title", "Desc");
    assert_eq!(metadata_no_subtitle.full_title(), "Title");
}

#[test]
fn test_total_duration() {
    let metadata = BookMetadata::new("A1", "Title", "Desc")
        .add_chapter(Chapter::new("Chapter 1", Duration::from_secs(0), Duration::from_secs(600)))
        .add_chapter(Chapter::new("Chapter 2", Duration::from_secs(600), Duration::from_secs(600)));

    assert_eq!(metadata.total_duration(), Some(Duration::from_secs(1200)));

    let empty_metadata = BookMetadata::new("A1", "Title", "Desc");
    assert_eq!(empty_metadata.total_duration(), None);
}

#[test]
fn authors_and_narrators_are_joined_with_commas() {
    let metadata = BookMetadata::new("A1", "Title", "Desc")
        .add_author("Ann")
        .add_author("Bob")
        .add_narrator("Cy");
    assert_eq!(metadata.authors_str(), "Ann, Bob");
    assert_eq!(metadata.narrators_str(), "Cy");
    assert_eq!(BookMetadata::new("A1", "T", "D").authors_str(), "");
}

#[test]
fn asin_check_accepts_unicode_letters_and_counts_characters() {
    // Ten characters, all alphanumeric in Unicode terms.
    assert!(BookMetadata::is_valid_asin("ABCDEFGHIJ"));
    // "é" is alphanumeric: ten characters, though eleven bytes.
    assert!(BookMetadata::is_valid_asin("ABCDEFGHIé"));
    // Nine characters, though ten bytes.
    assert!(!BookMetadata::is_valid_asin("ABCDEFGHé"));
}

#[test]
fn chapters_sort_by_start_stably() {
    let chapters = vec![
        Chapter::new("B", Duration::from_secs(5), Duration::from_secs(1)),
        Chapter::new("A", Duration::from_secs(0), Duration::from_secs(1)),
        Chapter::new("C", Duration::from_secs(5), Duration::from_secs(1)),
    ];
    let sorted = m4b_merge::metadata::sort_chapters_by_start(&chapters);
    let titles: Vec<&str> = sorted.iter().map(|c| c.title.as_str()).collect();
    assert_eq!(titles, vec!["A", "B", "C"]);
}

#[test]
fn asin_counts_characters_not_bytes() {
    assert!(BookMetadata::is_valid_asin("B08XYZ1234"));
    assert!(BookMetadata::is_valid_asin("1234567890"));
    assert!(!BookMetadata::is_valid_asin("ÄÄÄÄÄ"));
    assert!(BookMetadata::is_valid_asin("ÄBCDEFGHIJ"));
    assert!(!BookMetadata::is_valid_asin("B08-XYZ123"));
    assert!(!BookMetadata::is_valid_asin(""));
}
