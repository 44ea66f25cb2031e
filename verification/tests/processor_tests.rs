use m4b_merge::api::MetadataSourceKind;
use m4b_merge::config::Config;
use m4b_merge::discovery::{AudioFile, AudioFormat};
use m4b_merge::duration::Duration;
use m4b_merge::metadata::BookMetadata;
use m4b_merge::processor::{
    batch_outcome, chapters_from_file, determine_output_path, extract_metadata_id, format_path,
    lookup_id, ProcessingResult, ProcessingStage, ProcessorError,
};

fn audio(path: &str) -> AudioFile {
    AudioFile { path: path.to_string(), format: AudioFormat::from_path(path).unwrap(), metadata: None }
}

fn result(name: &str) -> ProcessingResult {
    ProcessingResult {
        input_files: vec![format!("/in/{name}.mp3")],
        output_file: format!("/out/{name}.m4b"),
        metadata_applied: false,
        files_moved: false,
    }
}

#[test]
fn test_processing_stage_display() {
    assert_eq!(ProcessingStage::Discovery.to_string(), "Discovery");
    assert_eq!(ProcessingStage::Merging.to_string(), "Merging");
    assert_eq!(ProcessingStage::Complete.to_string(), "Complete");
}

#[test]
fn test_determine_output_path() {
    let file = audio("/tmp/work/My Audiobook/chapter1.mp3");
    let output_path = determine_output_path(Some("/tmp/work/output"), "{author}/{title}", &[file], None).unwrap();
    assert!(output_path.contains("My Audiobook"));
    assert!(output_path.ends_with(".m4b"));
}

#[test]
fn output_paths_stay_under_output_dir() {
    for name in ["Book One", "Book Two"] {
        let file = audio(&format!("/tmp/work/{name}/audio.mp3"));
        let output = determine_output_path(Some("/tmp/work/output"), "{author}/{title}", &[file], None).unwrap();
        assert!(output.starts_with("/tmp/work/output"));
        assert!(output.ends_with(".m4b"));
    }
}

#[test]
fn output_path_uses_metadata_template() {
    let meta = BookMetadata::new("A1", "  The Title ", "")
        .add_author(" Jane Doe ")
        .with_series("Saga", "3")
        .with_year(2001);
    assert_eq!(format_path("{author}/{series_name} {series_position}/{title}", &meta), "Jane Doe/Saga 3/The Title");
    assert_eq!(format_path("{author}//{subtitle}/{title} ({year})", &meta), "Jane Doe/The Title (2001)");
    let bare = BookMetadata::new("A1", "T", "");
    assert_eq!(format_path("{author}/{narrator}/{title}", &bare), "Unknown/Unknown/T");
    let file = audio("/in/x/1.mp3");
    assert_eq!(
        determine_output_path(Some("/out"), "{author}/{title}", &[file], Some(&meta)).unwrap(),
        "/out/Jane Doe/The Title.m4b"
    );
}

#[test]
fn output_path_needs_directory_and_files() {
    assert!(matches!(
        determine_output_path(None, "{title}", &[audio("/a/b.mp3")], None),
        Err(ProcessorError::NoOutputDir)
    ));
    assert!(matches!(determine_output_path(Some("/out"), "{title}", &[], None), Err(ProcessorError::NoInputs)));
}

#[test]
fn metadata_id_comes_from_config_then_folder_name() {
    assert_eq!(extract_metadata_id("Dune [B08XYZ1234]").as_deref(), Some("B08XYZ1234"));
    assert_eq!(extract_metadata_id("Dune [b08xyz1234]"), None);
    assert_eq!(extract_metadata_id("Test Book [INVALID_ASIN]"), None);
    assert_eq!(lookup_id(Some("CONFIGURED"), "Dune [B08XYZ1234]").as_deref(), Some("CONFIGURED"));
    assert_eq!(lookup_id(None, "Dune [B08XYZ1234]").as_deref(), Some("B08XYZ1234"));
}

#[test]
fn file_chapters_become_durations() {
    let chs = vec![m4b_merge::chapters::Chapter { title: "One".to_string(), start_time: 1500, duration: 2000 }];
    let out = chapters_from_file(&chs);
    assert_eq!(out.len(), 1);
    assert_eq!(out[0].title, "One");
    assert_eq!(out[0].start_time, Duration::from_millis(1500));
    assert_eq!(out[0].duration, Duration::from_millis(2000));
}

#[test]
fn batch_outcome_reports_partial_and_total_failure() {
    match batch_outcome(vec![], vec![("A".to_string(), "boom".to_string())], 1) {
        Err(ProcessorError::GroupProcessingFailed { group, .. }) => assert_eq!(group, "A"),
        other => panic!("unexpected: {other:?}"),
    }
    match batch_outcome(
        vec![result("ok")],
        vec![("B".to_string(), "e1".to_string()), ("C".to_string(), "e2".to_string())],
        3,
    ) {
        Err(ProcessorError::PartialFailure { results, detail }) => {
            assert_eq!(results.len(), 1);
            assert_eq!(detail, "1 of 3 groups succeeded; failed: B: e1; C: e2");
        }
        other => panic!("unexpected: {other:?}"),
    }
    assert_eq!(batch_outcome(vec![result("ok")], vec![], 1).unwrap().len(), 1);
    assert_eq!(ProcessorError::NoInputs.to_string(), "No input files provided");
}

#[test]
fn config_validation_needs_inputs() {
    let config = Config::new(
        vec![],
        Some("/out".to_string()),
        None,
        MetadataSourceKind::Audiobookdb,
        None,
        1,
        "info".to_string(),
        "{author}/{title}".to_string(),
        false,
        None,
    );
    assert_eq!(config.validate_given(None, None).unwrap_err(), "No input files or directories provided");
    let with_input = Config::new(
        vec!["/in".to_string()],
        None,
        None,
        MetadataSourceKind::default(),
        None,
        1,
        "info".to_string(),
        "{title}".to_string(),
        true,
        None,
    );
    assert!(with_input.validate_given(Some(Ok(())), None).is_ok());
    let err = with_input
        .validate_given(Some(Err(std::io::Error::other("denied"))), None)
        .unwrap_err();
    assert!(err.starts_with("Output directory is not writable: "));
}

#[test]
fn output_path_drops_parent_components() {
    let meta = BookMetadata::new("A1", "../../etc", "");
    let file = audio("/in/x/1.mp3");
    let out = determine_output_path(Some("/out"), "{title}", &[file], Some(&meta)).unwrap();
    assert_eq!(out, "/out/etc.m4b");
}

#[test]
fn output_path_components_are_sanitized() {
    let file = audio("/in/x/1.mp3");
    let meta = BookMetadata::new("A1", "Who? Me: <Yes>|\"*", "");
    let out = determine_output_path(Some("/out"), "{title}", &[file.clone()], Some(&meta)).unwrap();
    assert_eq!(out, "/out/Who Me Yes.m4b");
    let long: String = std::iter::repeat('é').take(300).collect();
    let meta = BookMetadata::new("A1", &long, "");
    let out = determine_output_path(Some("/out"), "{title}", &[file], Some(&meta)).unwrap();
    let expected: String = std::iter::repeat('é').take(127).collect();
    assert_eq!(out, format!("/out/{expected}.m4b"));
}
