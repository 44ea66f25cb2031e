use m4b_merge::api::audible::{
    ApiBookResponse, ApiChapter, ApiChapterInfo, ApiGenre, ApiPerson, ApiSeries, AudibleClient,
    AudibleError, MetadataRegion, DEFAULT_API_URL,
};
use m4b_merge::api::audiobookdb::{
    AudiobookdbBook, AudiobookdbBookInSeries, AudiobookdbChapter, AudiobookdbChapterDetail,
    AudiobookdbClient, AudiobookdbError, AudiobookdbIdTitle, AudiobookdbImage,
    AudiobookdbPersonRef, AudiobookdbPersonRelation, AudiobookdbRelease, AudiobookdbReleaseRef,
    AudiobookdbRoleRef, AudiobookdbSeriesPosition, AudiobookdbSeriesRef, BookEndpoint, FetchAction,
    FetchEvent, FetchPhase, FetchState, NotFoundFallback, SearchDocumentBook, RETRY_AFTER_MAX_SECS,
};
use m4b_merge::api::{ClientSettings, MetadataSource, MetadataSourceKind, MAX_RETRIES};
use m4b_merge::duration::Duration;
use m4b_merge::metadata::IntoBookMetadata;

fn person(name: &str) -> ApiPerson {
    ApiPerson { name: name.to_string() }
}

fn minimal_response(asin: &str, title: &str) -> ApiBookResponse {
    ApiBookResponse {
        asin: asin.to_string(),
        title: title.to_string(),
        subtitle: None,
        authors: vec![],
        narrators: vec![],
        series: vec![],
        summary: None,
        genres: vec![],
        release_date: None,
        chapter_info: None,
        image: None,
    }
}

fn book(id: Option<&str>, title: &str) -> AudiobookdbBook {
    AudiobookdbBook {
        id: id.map(|s| s.to_string()),
        title: title.to_string(),
        subtitle: None,
        disambiguation: None,
        description: None,
        copyright: None,
        originally_published_at: None,
        images: vec![],
        cover_image: None,
        people: vec![],
        releases: vec![],
        series: vec![],
        genres: vec![],
        matched_release_id: None,
    }
}

fn rel(role: &str, name: &str) -> AudiobookdbPersonRelation {
    AudiobookdbPersonRelation {
        role: AudiobookdbRoleRef { name: role.to_string() },
        person: AudiobookdbPersonRef { name: name.to_string() },
    }
}

fn series(value: Option<&str>, label: &str, title: &str) -> AudiobookdbBookInSeries {
    AudiobookdbBookInSeries {
        position: AudiobookdbSeriesPosition { value: value.map(|s| s.to_string()), label: label.to_string() },
        series: AudiobookdbSeriesRef { title: title.to_string() },
    }
}

fn chapter(title: &str, ordinal: i32, start: i64, length: i64) -> AudiobookdbChapter {
    AudiobookdbChapter { title: title.to_string(), ordinal, start_offset_ms: start, length_ms: length }
}

#[test]
fn test_validate_id_valid() {
    assert!(AudibleClient::validate_id("B08XYZ1234").is_ok());
    assert!(AudibleClient::validate_id("1234567890").is_ok());
    assert!(AudibleClient::validate_id("ABCDEFGHIJ").is_ok());
}

#[test]
fn test_validate_id_invalid() {
    assert!(matches!(AudibleClient::validate_id("B08XYZ123"), Err(AudibleError::InvalidMetadataId(_))));
    assert!(matches!(AudibleClient::validate_id("B08XYZ12345"), Err(AudibleError::InvalidMetadataId(_))));
    assert!(matches!(AudibleClient::validate_id("B08-XYZ123"), Err(AudibleError::InvalidMetadataId(_))));
    assert!(matches!(AudibleClient::validate_id(""), Err(AudibleError::InvalidMetadataId(_))));
}

#[test]
fn test_api_response_deserialization() {
    let mut response = minimal_response("B08XYZ1234", "Test Book");
    response.subtitle = Some("A Test Subtitle".to_string());
    response.authors = vec![person("Test Author")];
    response.narrators = vec![person("Test Narrator")];
    response.series = vec![ApiSeries { name: "Test Series".to_string(), position: Some("1".to_string()) }];
    response.summary = Some("Test description".to_string());
    response.genres = vec![ApiGenre { name: "Fiction".to_string() }];
    response.release_date = Some("2023-01-15".to_string());
    response.chapter_info = Some(ApiChapterInfo {
        chapters: vec![ApiChapter { title: "Chapter 1".to_string(), start_offset_ms: 0, length_ms: 360000 }],
    });
    response.image = Some("https://example.com/cover.jpg".to_string());
    assert_eq!(response.asin, "B08XYZ1234");
    assert_eq!(response.title, "Test Book");
    assert_eq!(response.subtitle, Some("A Test Subtitle".to_string()));
    assert_eq!(response.authors.len(), 1);
    assert_eq!(response.authors[0].name, "Test Author");

    let metadata = response.into_book_metadata();
    assert_eq!(metadata.asin, "B08XYZ1234");
    assert_eq!(metadata.year, Some(2023));
    assert_eq!(metadata.chapters.len(), 1);
    assert_eq!(metadata.chapters[0].start_time, Duration::from_millis(0));
}

#[test]
fn test_api_response_minimal() {
    let metadata = minimal_response("B08XYZ1234", "Test Book").into_book_metadata();
    assert_eq!(metadata.asin, "B08XYZ1234");
    assert_eq!(metadata.title, "Test Book");
    assert!(metadata.authors.is_empty());
    assert!(metadata.chapters.is_empty());
    assert_eq!(metadata.description, "");
}

#[test]
fn test_api_response_multi_author_multi_narrator() {
    let mut response = minimal_response("B08C6YJ1LS", "The Coldest Case");
    response.subtitle = Some("A Black Book Audio Drama".to_string());
    response.authors = vec![person("Ryan Silbert"), person("Alex Finlay")];
    response.narrators = vec![person("Luke Treadaway"), person("Krysten Ritter")];
    response.series = vec![ApiSeries { name: "Black Book".to_string(), position: Some("2".to_string()) }];
    response.summary = Some("An audio drama".to_string());
    response.genres = vec![
        ApiGenre { name: "Mystery, Thriller & Suspense".to_string() },
        ApiGenre { name: "Thriller & Suspense".to_string() },
    ];
    response.release_date = Some("2020-06-23".to_string());
    response.chapter_info = Some(ApiChapterInfo {
        chapters: vec![
            ApiChapter { title: "Chapter 1".to_string(), start_offset_ms: 0, length_ms: 3600000 },
            ApiChapter { title: "Chapter 2".to_string(), start_offset_ms: 3600000, length_ms: 3700000 },
        ],
    });
    response.image = Some("https://example.com/cover.jpg".to_string());
    assert_eq!(response.authors[1].name, "Alex Finlay");
    assert_eq!(response.narrators[0].name, "Luke Treadaway");
    assert_eq!(response.series[0].position, Some("2".to_string()));

    let metadata = response.into_book_metadata();
    assert_eq!(metadata.asin, "B08C6YJ1LS");
    assert_eq!(metadata.title, "The Coldest Case");
    assert_eq!(metadata.authors, vec!["Ryan Silbert", "Alex Finlay"]);
    assert_eq!(metadata.narrators, vec!["Luke Treadaway", "Krysten Ritter"]);
    assert_eq!(metadata.series_name, Some("Black Book".to_string()));
    assert_eq!(metadata.series_position, Some("2".to_string()));
    assert_eq!(metadata.year, Some(2020));
    assert_eq!(metadata.chapters.len(), 2);
}

#[test]
fn test_client_creation() {
    let client = AudibleClient::new().expect("default client should build");
    assert_eq!(client.base_url(), DEFAULT_API_URL);
    assert_eq!(client.region(), MetadataRegion::Us);

    let client = AudibleClient::with_base_url("https://custom.api.com").expect("client should build");
    assert_eq!(client.base_url(), "https://custom.api.com");
    assert_eq!(client.region(), MetadataRegion::Us);

    let client = AudibleClient::with_base_url_region("https://custom.api.com", MetadataRegion::De)
        .expect("client should build");
    assert_eq!(client.base_url(), "https://custom.api.com");
    assert_eq!(client.region(), MetadataRegion::De);
}

#[test]
fn test_constructor_region_reaches_query_param() {
    for (region, expected) in [
        (MetadataRegion::Us, "?region=us"),
        (MetadataRegion::De, "?region=de"),
        (MetadataRegion::Jp, "?region=jp"),
    ] {
        let client = AudibleClient::with_base_url_region("https://api.audnex.us", region)
            .expect("client should build");
        assert_eq!(client.region(), region);
        assert!(AudibleClient::book_url(client.base_url(), "B00BM5F96W", client.region()).ends_with(expected));
    }
}

#[test]
fn test_book_url_appends_region() {
    assert_eq!(
        AudibleClient::book_url("https://api.audnex.us", "B00BM5F96W", MetadataRegion::De),
        "https://api.audnex.us/books/B00BM5F96W?region=de"
    );
    assert!(AudibleClient::book_url("https://api.audnex.us", "B00BM5F96W", MetadataRegion::Us)
        .ends_with("?region=us"));
}

#[test]
fn test_not_found_error_maps_region_unavailable() {
    let body = r#"{"error":{"code":"REGION_UNAVAILABLE","message":"Item not available in region 'us' for ASIN: B00BM5F96W","details":{"asin":"B00BM5F96W","code":"REGION_UNAVAILABLE"}}}"#;
    let err = AudibleClient::not_found_error("B00BM5F96W", MetadataRegion::Jp, body);
    match &err {
        AudibleError::RegionUnavailable { metadata_id, region } => {
            assert_eq!(metadata_id, "B00BM5F96W");
            assert_eq!(*region, MetadataRegion::Jp);
        }
        other => panic!("expected RegionUnavailable, got {other:?}"),
    }
    let message = err.to_string();
    assert!(message.contains("region 'jp'"), "{message}");
    assert!(message.contains("B00BM5F96W"), "{message}");
    assert!(!message.contains("e.g. --region de"), "{message}");
    assert!(matches!(
        AudibleClient::not_found_error("B00BM5F96W", MetadataRegion::Us, "not found"),
        AudibleError::NotFound(_)
    ));
    assert!(matches!(AudibleClient::not_found_error("B00BM5F96W", MetadataRegion::Us, ""), AudibleError::NotFound(_)));
}

#[test]
fn test_region_display_codes() {
    assert_eq!(MetadataRegion::Au.to_string(), "au");
    assert_eq!(MetadataRegion::Ca.to_string(), "ca");
    assert_eq!(MetadataRegion::De.to_string(), "de");
    assert_eq!(MetadataRegion::Es.to_string(), "es");
    assert_eq!(MetadataRegion::Fr.to_string(), "fr");
    assert_eq!(MetadataRegion::In.to_string(), "in");
    assert_eq!(MetadataRegion::It.to_string(), "it");
    assert_eq!(MetadataRegion::Jp.to_string(), "jp");
    assert_eq!(MetadataRegion::Us.to_string(), "us");
    assert_eq!(MetadataRegion::Uk.to_string(), "uk");
}

#[test]
fn audible_status_mapping() {
    assert!(matches!(
        AudibleClient::error_for_status(429, String::new(), "B00BM5F96W", MetadataRegion::Us),
        AudibleError::RateLimited
    ));
    assert!(matches!(
        AudibleClient::error_for_status(408, String::new(), "B00BM5F96W", MetadataRegion::Us),
        AudibleError::Timeout
    ));
    match AudibleClient::error_for_status(500, "oops".to_string(), "B00BM5F96W", MetadataRegion::Us) {
        AudibleError::ApiError { status, message } => {
            assert_eq!(status, 500);
            assert_eq!(message, "oops");
        }
        other => panic!("unexpected: {other:?}"),
    }
    assert!(AudibleClient::is_transient_error(&AudibleError::ApiError { status: 503, message: String::new() }));
    assert!(!AudibleClient::is_transient_error(&AudibleError::NotFound("x".to_string())));
}

#[test]
fn test_metadata_source_dispatch_matrix() {
    let cases = [
        (MetadataSourceKind::Audnexus, None, false),
        (MetadataSourceKind::Audnexus, Some("http://localhost:1"), false),
        (MetadataSourceKind::Audiobookdb, None, true),
        (MetadataSourceKind::Audiobookdb, Some("http://localhost:1"), true),
    ];
    for (kind, api_url, expect_audiobookdb) in cases {
        let source = MetadataSource::new_with_region(kind, api_url, MetadataRegion::Us)
            .unwrap_or_else(|e| panic!("{} should build: {}", kind.to_string(), e.to_string()));
        assert!(matches!(source, MetadataSource::Audiobookdb(_)) == expect_audiobookdb);
    }
}

#[test]
fn test_http_error_mapping_table() {
    let cases: [(u16, &str, Option<&str>); 5] = [
        (404, "id1", Some("id1")),
        (408, "took too long", None),
        (429, "slow down", None),
        (502, "boom", Some("boom")),
        (503, "", Some("")),
    ];
    for (status, body, expected_message) in cases {
        let error = AudiobookdbClient::http_error(status, body.to_string(), "id1");
        match error {
            AudiobookdbError::Timeout => assert_eq!(status, 408),
            AudiobookdbError::RateLimited => assert_eq!(status, 429),
            AudiobookdbError::NotFound(id) => {
                assert_eq!(status, 404);
                assert_eq!(id, "id1");
            }
            AudiobookdbError::ApiError { status: got, message } => {
                assert_eq!(got, status);
                assert_eq!(message, expected_message.unwrap());
            }
            other => panic!("unexpected error variant: {other:?}"),
        }
    }
}

#[test]
fn test_looks_like_asin_table() {
    let cases = [
        ("B08XYZ1234", true),
        ("b08xyz1234", true),
        ("A08XYZ1234", true),
        ("1234567890", true),
        ("ABCDEFGHIJ", true),
        ("B08XYZ123", false),
        ("B08XYZ12345", false),
        ("B08-XYZ123", false),
        ("", false),
    ];
    for (id, expected) in cases {
        assert_eq!(AudiobookdbClient::looks_like_asin(id), expected, "id {id:?}");
    }
}

#[test]
fn test_parse_retry_after_table() {
    let future_date = std::time::SystemTime::now() + std::time::Duration::from_secs(120);
    let past_date = std::time::SystemTime::now() - std::time::Duration::from_secs(120);
    let future = httpdate::fmt_http_date(future_date);
    let past = httpdate::fmt_http_date(past_date);
    let cap = Duration::from_secs(RETRY_AFTER_MAX_SECS);
    let cases = [
        ("3", Some(Duration::from_secs(3))),
        ("0", Some(Duration::zero())),
        ("  5  ", Some(Duration::from_secs(5))),
        ("300", Some(cap)),
        (future.as_str(), Some(cap)),
        (past.as_str(), Some(Duration::zero())),
        ("12.5", None),
        ("abc", None),
        ("", None),
        ("not a date", None),
    ];
    for (input, expected) in cases {
        assert_eq!(AudiobookdbClient::parse_retry_after(input), expected, "input {input:?}");
    }
}

#[test]
fn test_parse_retry_after_date_future_within_cap() {
    let date = std::time::SystemTime::now() + std::time::Duration::from_secs(30);
    let parsed = AudiobookdbClient::parse_retry_after(&httpdate::fmt_http_date(date)).unwrap();
    assert!(parsed.as_millis() <= 30_000, "got {parsed:?}");
    assert!(parsed.as_millis() >= 29_000, "got {parsed:?}");
}

#[test]
fn retry_policy_allows_max_retries() {
    let error = AudiobookdbError::ApiError { status: 503, message: "unavailable".into() };
    let mut requests = 1;
    let mut attempt = 0;
    while AudiobookdbClient::next_retry_delay(attempt, &error, None).is_some() {
        requests += 1;
        attempt += 1;
    }
    assert_eq!(requests, 1 + MAX_RETRIES);
}

#[test]
fn retry_policy_honors_retry_after() {
    let wait = AudiobookdbClient::next_retry_delay(0, &AudiobookdbError::RateLimited, Some(Duration::zero()));
    assert_eq!(wait, Some(Duration::zero()));
    assert_eq!(
        AudiobookdbClient::next_retry_delay(1, &AudiobookdbError::RateLimited, None),
        Some(Duration::from_millis(2000))
    );
    assert_eq!(AudiobookdbClient::next_retry_delay(0, &AudiobookdbError::NotFound("x".into()), None), None);
}

#[test]
fn test_narrators_merged_from_release_and_book() {
    let mut b = book(Some("abc123def456"), "T");
    b.people = vec![rel("Author", "A. Author")];
    let release = AudiobookdbRelease { chapter_detail: None, people: vec![rel("Narrator", "N. Narrator")] };
    let meta = AudiobookdbClient::map_book("abc123def456", &b, Some(&release));
    assert_eq!(meta.narrators, vec!["N. Narrator".to_string()]);
    assert_eq!(meta.authors, vec!["A. Author".to_string()]);

    let release2 = AudiobookdbRelease {
        chapter_detail: None,
        people: vec![rel("Narrator", "N. Narrator"), rel("Author", "A. Author")],
    };
    let mut b2 = book(Some("abc123def456"), "T");
    b2.people = vec![rel("Narrator", "N. Narrator"), rel("Narrator", "M. Second")];
    let meta2 = AudiobookdbClient::map_book("abc123def456", &b2, Some(&release2));
    assert_eq!(meta2.narrators, vec!["N. Narrator".to_string(), "M. Second".to_string()]);
    assert!(meta2.authors.is_empty());
}

#[test]
fn test_book_null_subtitle_copyright_year() {
    let mut b = book(Some("abc123def456"), "The Name of the Wind");
    b.disambiguation = Some("Robin Hobb novel".to_string());
    b.copyright = Some(2015);
    b.description = Some("A story.".to_string());
    b.people = vec![rel("Author", "Patrick Rothfuss"), rel("narrator", "Scott Brick")];
    b.series = vec![series(Some("1"), "Book 1", "The Kingdoms")];
    b.genres = vec![AudiobookdbIdTitle { title: "Fantasy".to_string() }];
    b.cover_image = Some(AudiobookdbImage {
        url: "img/base".to_string(),
        source_url: Some("https://cdn.example/source.jpg:book".to_string()),
    });
    let meta = AudiobookdbClient::map_book("B000000000", &b, None);
    assert_eq!(meta.asin, "abc123def456");
    assert_eq!(meta.title, "The Name of the Wind");
    assert_eq!(meta.subtitle.as_deref(), Some("Robin Hobb novel"));
    assert_eq!(meta.year, Some(2015));
    assert_eq!(meta.authors, vec!["Patrick Rothfuss".to_string()]);
    assert_eq!(meta.narrators, vec!["Scott Brick".to_string()]);
    assert_eq!(meta.series_name.as_deref(), Some("The Kingdoms"));
    assert_eq!(meta.series_position.as_deref(), Some("1"));
    assert_eq!(meta.genres, vec!["Fantasy".to_string()]);
    assert_eq!(meta.description, "A story.");
    assert_eq!(meta.cover_url.as_deref(), Some("https://cdn.example/source.jpg:book"));
}

#[test]
fn test_year_falls_back_to_originally_published_at() {
    let mut b = book(Some("abc123def456"), "T");
    b.originally_published_at = Some("1993-04-05T00:00:00.000Z".to_string());
    let meta = AudiobookdbClient::map_book("abc123def456", &b, None);
    assert_eq!(meta.year, Some(1993));
}

#[test]
fn test_series_position_value_vs_label() {
    let mut with_value = book(Some("abc123def456"), "T");
    with_value.series = vec![series(Some("1.5"), "Book 1.5", "Series")];
    assert_eq!(
        AudiobookdbClient::map_book("abc123def456", &with_value, None).series_position.as_deref(),
        Some("1.5")
    );
    let mut null_value = book(Some("abc123def456"), "T");
    null_value.series = vec![series(None, "Collection", "Series")];
    assert_eq!(
        AudiobookdbClient::map_book("abc123def456", &null_value, None).series_position.as_deref(),
        Some("Collection")
    );
    let mut absent = book(Some("abc123def456"), "T");
    absent.series = vec![series(None, "", "Series")];
    assert_eq!(AudiobookdbClient::map_book("abc123def456", &absent, None).series_position, None);
}

#[test]
fn test_empty_string_fallback_boundaries() {
    let cases = [
        (Some(""), Some("The Deluxe Edition"), Some("The Deluxe Edition")),
        (Some(""), Some(""), None),
    ];
    for (subtitle, disambiguation, expected) in cases {
        let mut b = book(Some("abc123def456"), "T");
        b.subtitle = subtitle.map(|s| s.to_string());
        b.disambiguation = disambiguation.map(|s| s.to_string());
        assert_eq!(AudiobookdbClient::map_book("abc123def456", &b, None).subtitle.as_deref(), expected);
    }
}

#[test]
fn test_release_chapters_sorted_by_ordinal_and_filtered() {
    let release = AudiobookdbRelease {
        chapter_detail: Some(AudiobookdbChapterDetail {
            chapters: vec![
                chapter("Chapter 3", 3, 300000, 100000),
                chapter("Chapter 1", 1, 0, 100000),
                chapter("Bad chapter", 4, -1, 1000),
                chapter("Bad length", 5, 100000, -1),
                chapter("Chapter 2", 2, 100000, 100000),
            ],
        }),
        people: vec![],
    };
    let meta = AudiobookdbClient::map_book("abc123def456", &book(Some("abc123def456"), "T"), Some(&release));
    assert_eq!(
        meta.chapters.iter().map(|c| c.title.as_str()).collect::<Vec<_>>(),
        vec!["Chapter 1", "Chapter 2", "Chapter 3"]
    );
    assert_eq!(meta.chapters[0].start_time, Duration::zero());
    assert_eq!(meta.chapters[1].start_time, Duration::from_millis(100_000));
    assert_eq!(meta.chapters[2].start_time, Duration::from_millis(300_000));
    assert_eq!(meta.chapters[2].duration, Duration::from_millis(100_000));
}

#[test]
fn test_cover_url_source_url_present_vs_absent() {
    let mut with_source = book(Some("abc123def456"), "T");
    with_source.cover_image = Some(AudiobookdbImage {
        url: "img/base".to_string(),
        source_url: Some("https://cdn.example/source.jpg:book".to_string()),
    });
    assert_eq!(
        AudiobookdbClient::map_book("abc123def456", &with_source, None).cover_url.as_deref(),
        Some("https://cdn.example/source.jpg:book")
    );
    let mut without_source = book(Some("abc123def456"), "T");
    without_source.images = vec![AudiobookdbImage { url: "img/base".to_string(), source_url: None }];
    assert_eq!(
        AudiobookdbClient::map_book("abc123def456", &without_source, None).cover_url.as_deref(),
        Some("img/base/large.jpg")
    );
    let no_images = book(Some("abc123def456"), "T");
    assert_eq!(AudiobookdbClient::map_book("abc123def456", &no_images, None).cover_url, None);
    let mut empty_source = book(Some("abc123def456"), "T");
    empty_source.cover_image = Some(AudiobookdbImage { url: "img/base".to_string(), source_url: Some(String::new()) });
    assert_eq!(
        AudiobookdbClient::map_book("abc123def456", &empty_source, None).cover_url.as_deref(),
        Some("img/base/large.jpg")
    );
}

#[test]
fn test_resolve_endpoint_table() {
    let cases = [
        ("B08XYZ1234", BookEndpoint::ExternalAsin),
        ("1234567890", BookEndpoint::ExternalAsin),
        ("b08xyz1234", BookEndpoint::ExternalAsin),
        ("abc123def456", BookEndpoint::InternalBook),
        ("dune", BookEndpoint::InternalBook),
        ("123456789", BookEndpoint::InternalBook),
    ];
    for (id, expected) in cases {
        assert_eq!(AudiobookdbClient::resolve_endpoint(id), expected, "id {id:?}");
    }
}

#[test]
fn test_not_found_fallback_table() {
    let external = BookEndpoint::ExternalAsin;
    let internal = BookEndpoint::InternalBook;
    let cases = [
        ("B08XYZ1234", external, NotFoundFallback::InternalBook),
        ("1234567890", external, NotFoundFallback::InternalBook),
        ("abc123def456", internal, NotFoundFallback::Search),
        ("dune", internal, NotFoundFallback::Search),
        ("ab", internal, NotFoundFallback::GiveUp),
        ("", internal, NotFoundFallback::GiveUp),
    ];
    for (id, endpoint, expected) in cases {
        assert_eq!(AudiobookdbClient::not_found_fallback(id, endpoint), expected, "id {id:?} after {endpoint:?}");
    }
}

#[test]
fn test_select_search_hit_exact_match_only() {
    let hits: Vec<SearchDocumentBook> = vec![
        SearchDocumentBook { id: "def456abc789".into() },
        SearchDocumentBook { id: "abc123def456".into() },
    ];
    assert_eq!(
        AudiobookdbClient::select_search_hit("abc123def456", &hits).map(|h| h.id.as_str()),
        Some("abc123def456")
    );
    assert_eq!(AudiobookdbClient::select_search_hit("dune", &hits), None);
    let empty: Vec<SearchDocumentBook> = vec![];
    assert_eq!(AudiobookdbClient::select_search_hit("abc123def456", &empty), None);
}

#[test]
fn test_metadata_id_falls_back_to_caller_id_when_book_id_absent() {
    let no_id = book(None, "No ID Book");
    let meta = AudiobookdbClient::map_book("B000000000", &no_id, None);
    assert_eq!(meta.asin, "B000000000");
    let empty_id = book(Some(""), "Empty ID Book");
    let meta = AudiobookdbClient::map_book("caller-1", &empty_id, None);
    assert_eq!(meta.asin, "caller-1");
}

#[test]
fn test_release_id_for_preferred_order() {
    let mut b = book(Some("b1"), "T");
    b.releases = vec![AudiobookdbReleaseRef { id: "rel1".to_string() }];
    assert_eq!(AudiobookdbClient::release_id_for(&b, Some("rel-matched")), Some("rel-matched".to_string()));
    assert_eq!(AudiobookdbClient::release_id_for(&b, Some("")), Some("rel1".to_string()));
    assert_eq!(AudiobookdbClient::release_id_for(&b, None), Some("rel1".to_string()));
    let bare = book(Some("b2"), "T");
    assert_eq!(AudiobookdbClient::release_id_for(&bare, None), None);
}

#[test]
fn audiobookdb_urls_and_messages() {
    let client = AudiobookdbClient::with_base_url("https://db.example/api").unwrap();
    assert_eq!(client.external_url(" B08XYZ1234 "), "https://db.example/api/audiobooks/external/audible/B08XYZ1234");
    assert_eq!(
        client.book_url("abc"),
        "https://db.example/api/books/abc?include=people,releases,series,genres,images"
    );
    assert_eq!(client.release_url("r1"), "https://db.example/api/releases/r1");
    assert_eq!(client.search_url(), "https://db.example/api/search");
    assert_eq!(AudiobookdbError::IdNotFound("x".to_string()).to_string(), "no book found for ID: x");
    assert_eq!(
        AudiobookdbError::ApiError { status: 502, message: "bad".to_string() }.to_string(),
        "API error 502: bad"
    );
}

fn db_client() -> AudiobookdbClient {
    AudiobookdbClient::with_base_url("https://db.example/api").unwrap()
}

#[test]
fn lookup_of_asin_falls_back_to_internal_id() {
    let c = db_client();
    let (state, action) = c.fetch_step(FetchState::new("B0ABCDEFGH"), FetchEvent::Begin);
    match &action {
        FetchAction::GetBook { url, not_found_id } => {
            assert_eq!(url, "https://db.example/api/audiobooks/external/audible/B0ABCDEFGH");
            assert_eq!(not_found_id, "B0ABCDEFGH");
        }
        _ => panic!("expected a book request"),
    }
    let (state, action) =
        c.fetch_step(state, FetchEvent::BookFetched(Err(AudiobookdbError::NotFound("B0ABCDEFGH".to_string()))));
    assert_eq!(state.phase, FetchPhase::Fallback);
    match &action {
        FetchAction::GetBook { url, .. } => {
            assert_eq!(url, "https://db.example/api/books/B0ABCDEFGH?include=people,releases,series,genres,images")
        }
        _ => panic!("expected the internal endpoint"),
    }
    let (_, action) = c.fetch_step(state, FetchEvent::BookFetched(Ok(book(Some("B0ABCDEFGH"), "Found"))));
    match action {
        FetchAction::Finish(Ok(m)) => assert_eq!(m.title, "Found"),
        _ => panic!("expected the metadata"),
    }
}

#[test]
fn lookup_searches_then_fetches_the_exact_hit_and_its_release() {
    let c = db_client();
    let (state, _) = c.fetch_step(FetchState::new("abc123"), FetchEvent::Begin);
    let (state, action) =
        c.fetch_step(state, FetchEvent::BookFetched(Err(AudiobookdbError::NotFound("abc123".to_string()))));
    match &action {
        FetchAction::Search { url, query } => {
            assert_eq!(url, "https://db.example/api/search");
            assert_eq!(query, "abc123");
        }
        _ => panic!("expected a search"),
    }
    let hits = vec![SearchDocumentBook { id: "other".to_string() }, SearchDocumentBook { id: "abc123".to_string() }];
    let (state, action) = c.fetch_step(state, FetchEvent::HitsFound(Ok(hits)));
    assert_eq!(state.phase, FetchPhase::FromHit);
    assert!(matches!(&action, FetchAction::GetBook { not_found_id, .. } if not_found_id == "abc123"));
    let mut b = book(Some("abc123"), "Title");
    b.releases = vec![AudiobookdbReleaseRef { id: "r1".to_string() }];
    let (state, action) = c.fetch_step(state, FetchEvent::BookFetched(Ok(b)));
    assert_eq!(state.phase, FetchPhase::Release);
    match &action {
        FetchAction::GetRelease { url, id } => {
            assert_eq!(url, "https://db.example/api/releases/r1");
            assert_eq!(id, "r1");
        }
        _ => panic!("expected the release"),
    }
    let (_, action) = c.fetch_step(state, FetchEvent::ReleaseFetched(None));
    assert!(matches!(action, FetchAction::Finish(Ok(ref m)) if m.title == "Title"));
}

#[test]
fn lookup_without_an_exact_hit_fails() {
    let c = db_client();
    let (state, _) = c.fetch_step(FetchState::new("abc123"), FetchEvent::Begin);
    let (state, _) =
        c.fetch_step(state, FetchEvent::BookFetched(Err(AudiobookdbError::NotFound("abc123".to_string()))));
    let (_, action) = c.fetch_step(state, FetchEvent::HitsFound(Ok(vec![SearchDocumentBook { id: "x".to_string() }])));
    assert!(matches!(action, FetchAction::Finish(Err(AudiobookdbError::IdNotFound(ref id))) if id == "abc123"));
}

#[test]
fn lookup_of_short_id_gives_up() {
    let c = db_client();
    let (state, _) = c.fetch_step(FetchState::new("ab"), FetchEvent::Begin);
    let (_, action) = c.fetch_step(state, FetchEvent::BookFetched(Err(AudiobookdbError::NotFound("ab".to_string()))));
    assert!(matches!(action, FetchAction::Finish(Err(AudiobookdbError::IdNotFound(_)))));
}

#[test]
fn lookup_passes_other_errors_on() {
    let c = db_client();
    let (state, _) = c.fetch_step(FetchState::new("abc123"), FetchEvent::Begin);
    let (_, action) = c.fetch_step(state, FetchEvent::BookFetched(Err(AudiobookdbError::Timeout)));
    assert!(matches!(action, FetchAction::Finish(Err(AudiobookdbError::Timeout))));
}

#[test]
fn clients_are_built_with_the_source_timeouts() {
    let expected = ClientSettings { timeout_secs: 30, connect_secs: 10, idle_secs: 30 };
    let db = AudiobookdbClient::with_base_url("https://db.example/api").unwrap();
    assert_eq!(db.settings(), expected);
    assert_eq!(db.user_agent(), "m4b-merge/1.0.0 (https://github.com/djdembeck/m4b-merge)");
    let audible = AudibleClient::with_base_url_region("https://api.example", MetadataRegion::Uk).unwrap();
    assert_eq!(audible.settings(), expected);
}
