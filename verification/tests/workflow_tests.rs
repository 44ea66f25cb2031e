use m4b_merge::api::MetadataSourceKind;
use m4b_merge::chapters::Chapter as FileChapter;
use m4b_merge::config::Config;
use m4b_merge::discovery::{AudioFile, AudioFormat, AudioGroup};
use m4b_merge::merge::MergeError;
use m4b_merge::metadata::BookMetadata;
use m4b_merge::processor::{ProcessingResult, ProcessingStage, ProcessorError};
use m4b_merge::workflow::{
    batch_step, group_step, lookup_target_of, BatchAction, BatchEvent, BatchPhase, BatchState, GroupAction, GroupEvent,
    GroupPhase, GroupState,
};

fn audio(path: &str) -> AudioFile {
    AudioFile { path: path.to_string(), format: AudioFormat::from_path(path).unwrap(), metadata: None }
}

fn config(output: Option<&str>, completed: Option<&str>, dry_run: bool) -> Config {
    Config::new(
        vec!["/in".to_string()],
        output.map(|s| s.to_string()),
        None,
        MetadataSourceKind::Audnexus,
        completed.map(|s| s.to_string()),
        4,
        "info".to_string(),
        "{author}/{title}".to_string(),
        dry_run,
        None,
    )
}

fn group(name: &str, files: &[&str]) -> AudioGroup {
    AudioGroup::new(name.to_string(), files.iter().map(|f| audio(f)).collect())
}

fn result(name: &str) -> ProcessingResult {
    ProcessingResult {
        input_files: vec![format!("/in/{name}.mp3")],
        output_file: format!("/out/{name}.m4b"),
        metadata_applied: false,
        files_moved: false,
    }
}

#[test]
fn batch_without_inputs_fails() {
    let cfg = config(Some("/out"), None, false);
    let (state, step) = batch_step(&cfg, BatchState::new(vec![]), BatchEvent::Begin);
    assert_eq!(state.phase, BatchPhase::Done);
    assert!(step.reports.is_empty());
    assert!(matches!(step.action, BatchAction::Finish(Err(ProcessorError::NoInputs))));
}

#[test]
fn batch_creates_output_dir_first_and_fails_with_it() {
    let cfg = config(Some("/out"), None, false);
    let (state, step) = batch_step(&cfg, BatchState::new(vec!["/in".to_string()]), BatchEvent::Begin);
    assert_eq!(state.phase, BatchPhase::CreatingOutput);
    match step.action {
        BatchAction::CreateOutputDir(d) => assert_eq!(d, "/out"),
        _ => panic!("expected the output directory to be created"),
    }
    let (state, step) = batch_step(&cfg, state, BatchEvent::OutputDirCreated(Err("denied".to_string())));
    assert_eq!(state.phase, BatchPhase::Done);
    match step.action {
        BatchAction::Finish(Err(ProcessorError::OutputDirCreation(m))) => assert_eq!(m, "denied"),
        _ => panic!("expected a creation failure"),
    }
}

#[test]
fn dry_run_batch_skips_output_dir_and_ends_on_nothing_found() {
    let cfg = config(Some("/out"), None, true);
    let (state, step) = batch_step(&cfg, BatchState::new(vec!["/in".to_string()]), BatchEvent::Begin);
    assert_eq!(state.phase, BatchPhase::Discovering);
    assert_eq!(step.reports.len(), 1);
    assert_eq!(step.reports[0].stage, ProcessingStage::Discovery);
    assert_eq!(step.reports[0].total_files, 1);
    assert_eq!(step.reports[0].message, "Discovering audio files...");
    match step.action {
        BatchAction::Discover(v) => assert_eq!(v, vec!["/in".to_string()]),
        _ => panic!("expected discovery"),
    }
    let (_, step) = batch_step(&cfg, state, BatchEvent::Discovered(Ok(vec![])));
    assert!(matches!(step.action, BatchAction::FinishNothingFound));
}

#[test]
fn batch_without_groups_has_no_inputs() {
    let cfg = config(None, None, false);
    let (state, _) = batch_step(&cfg, BatchState::new(vec!["/in".to_string()]), BatchEvent::Begin);
    let (_, step) = batch_step(&cfg, state, BatchEvent::Discovered(Ok(vec![])));
    assert!(matches!(step.action, BatchAction::Finish(Err(ProcessorError::NoInputs))));
}

#[test]
fn batch_goes_on_after_a_failed_group() {
    let cfg = config(None, None, false);
    let (state, _) = batch_step(&cfg, BatchState::new(vec!["/in".to_string()]), BatchEvent::Begin);
    let groups = vec![group("A", &["/in/A/1.mp3"]), group("B", &["/in/B/1.mp3"])];
    let (state, step) = batch_step(&cfg, state, BatchEvent::Discovered(Ok(groups)));
    assert_eq!(state.phase, BatchPhase::Processing);
    assert_eq!(step.reports[0].message, "Processing group 'A'...");
    assert_eq!(step.reports[0].current_file.as_deref(), Some("/in/A/1.mp3"));
    assert!(matches!(step.action, BatchAction::ProcessGroup(0)));
    let (state, step) = batch_step(&cfg, state, BatchEvent::GroupFailed("boom".to_string()));
    assert_eq!(step.reports.len(), 2);
    assert_eq!(step.reports[0].stage, ProcessingStage::Error);
    assert_eq!(step.reports[0].message, "Failed to process group 'A': boom");
    assert_eq!(step.reports[1].message, "Processing group 'B'...");
    assert_eq!(step.reports[1].completed_files, 1);
    assert!(matches!(step.action, BatchAction::ProcessGroup(1)));
    let (state, step) = batch_step(&cfg, state, BatchEvent::GroupSucceeded(result("B")));
    assert_eq!(state.phase, BatchPhase::Done);
    assert!(step.reports.is_empty());
    match step.action {
        BatchAction::Finish(Err(ProcessorError::PartialFailure { results, detail })) => {
            assert_eq!(results.len(), 1);
            assert_eq!(detail, "1 of 2 groups succeeded; failed: A: boom");
        }
        _ => panic!("expected a partial failure"),
    }
}

#[test]
fn batch_of_successes_reports_completion() {
    let cfg = config(None, None, false);
    let (state, _) = batch_step(&cfg, BatchState::new(vec!["/in".to_string()]), BatchEvent::Begin);
    let (state, _) = batch_step(&cfg, state, BatchEvent::Discovered(Ok(vec![group("A", &["/in/A/1.mp3"])])));
    let (_, step) = batch_step(&cfg, state, BatchEvent::GroupSucceeded(result("A")));
    assert_eq!(step.reports.len(), 1);
    assert_eq!(step.reports[0].stage, ProcessingStage::Complete);
    assert_eq!(step.reports[0].message, "Completed processing 1 audiobooks");
    match step.action {
        BatchAction::Finish(Ok(rs)) => assert_eq!(rs[0].output_file, "/out/A.m4b"),
        _ => panic!("expected success"),
    }
}

#[test]
fn dry_run_group_ends_at_once() {
    let cfg = config(Some("/out"), Some("/done"), true);
    let g = group("Book One", &["/in/Book One/1.mp3", "/in/Book One/2.mp3"]);
    let (state, step) = group_step(&cfg, true, &g, GroupState::new(), GroupEvent::Begin);
    assert_eq!(state.phase, GroupPhase::Done);
    assert!(step.reports.is_empty());
    match step.action {
        GroupAction::Finish(Ok(r)) => {
            assert_eq!(r.output_file, "/out/Book One.m4b");
            assert_eq!(r.input_files, vec!["/in/Book One/1.mp3".to_string(), "/in/Book One/2.mp3".to_string()]);
            assert!(!r.metadata_applied);
            assert!(!r.files_moved);
        }
        _ => panic!("expected the dry run to end"),
    }
}

#[test]
fn group_without_output_dir_fails() {
    let cfg = config(None, None, false);
    let g = group("Book", &["/in/Book/1.mp3"]);
    let (_, step) = group_step(&cfg, false, &g, GroupState::new(), GroupEvent::Begin);
    assert!(matches!(step.action, GroupAction::Finish(Err(ProcessorError::NoOutputDir))));
}

#[test]
fn group_without_metadata_is_merged_then_done() {
    let cfg = config(Some("/out"), None, false);
    let g = group("Book", &["/in/Book/1.mp3"]);
    let (state, step) = group_step(&cfg, false, &g, GroupState::new(), GroupEvent::Begin);
    assert_eq!(state.phase, GroupPhase::Merging);
    assert_eq!(step.reports[0].message, "Merging audio files...");
    match &step.action {
        GroupAction::Merge(job) => {
            assert_eq!(job.output_path, "/out/Book.m4b");
            assert_eq!(job.num_threads, Some(4));
            assert_eq!(job.input_files.len(), 1);
        }
        _ => panic!("expected a merge"),
    }
    let (state, step) = group_step(&cfg, false, &g, state, GroupEvent::Merged(Ok("/out/Book.m4b".to_string())));
    assert_eq!(state.phase, GroupPhase::Done);
    assert_eq!(step.reports.len(), 1);
    assert_eq!(step.reports[0].stage, ProcessingStage::Tagging);
    match step.action {
        GroupAction::Finish(Ok(r)) => {
            assert_eq!(r.output_file, "/out/Book.m4b");
            assert!(!r.metadata_applied);
        }
        _ => panic!("expected the group to end"),
    }
}

#[test]
fn failed_merge_fails_the_group() {
    let cfg = config(Some("/out"), None, false);
    let g = group("Book", &["/in/Book/1.mp3"]);
    let (state, _) = group_step(&cfg, false, &g, GroupState::new(), GroupEvent::Begin);
    let (_, step) = group_step(&cfg, false, &g, state, GroupEvent::Merged(Err(MergeError::NoOutputPath)));
    assert!(matches!(step.action, GroupAction::Finish(Err(ProcessorError::Merge(MergeError::NoOutputPath)))));
}

#[test]
fn group_with_metadata_goes_through_every_stage() {
    let cfg = config(Some("/out"), Some("/done"), false);
    let g = group("Title [B0ABCDEFGH]", &["/in/T/1.mp3"]);
    let (state, step) = group_step(&cfg, true, &g, GroupState::new(), GroupEvent::Begin);
    assert_eq!(step.reports[0].stage, ProcessingStage::ApiLookup);
    assert_eq!(step.reports[0].message, "Fetching metadata for ID: B0ABCDEFGH...");
    match &step.action {
        GroupAction::FetchMetadata(id) => assert_eq!(id, "B0ABCDEFGH"),
        _ => panic!("expected a lookup"),
    }
    let meta = BookMetadata::new("B0ABCDEFGH", "Title", "")
        .add_author("Jane")
        .with_cover_url("https://example.com/c.jpg");
    let (state, step) = group_step(&cfg, true, &g, state, GroupEvent::MetadataFetched(Some(meta)));
    match &step.action {
        GroupAction::ReadChapters(p) => assert_eq!(p, "/in/T/1.mp3"),
        _ => panic!("expected chapters to be read"),
    }
    let chapters = vec![FileChapter { title: "One".to_string(), start_time: 0, duration: 1000 }];
    let (state, step) = group_step(&cfg, true, &g, state, GroupEvent::ChaptersRead(chapters));
    match &step.action {
        GroupAction::Merge(job) => assert_eq!(job.output_path, "/out/Jane/Title.m4b"),
        _ => panic!("expected a merge"),
    }
    assert_eq!(state.metadata.as_ref().unwrap().chapters.len(), 1);
    let merged = "/out/Jane/Title.m4b".to_string();
    let (state, step) = group_step(&cfg, true, &g, state, GroupEvent::Merged(Ok(merged.clone())));
    assert!(matches!(&step.action, GroupAction::WriteTags(p) if *p == merged));
    let (state, step) = group_step(&cfg, true, &g, state, GroupEvent::TagsWritten(true));
    match &step.action {
        GroupAction::EmbedCover(p, u) => {
            assert_eq!(p, &merged);
            assert_eq!(u, "https://example.com/c.jpg");
        }
        _ => panic!("expected the cover"),
    }
    let (state, step) = group_step(&cfg, true, &g, state, GroupEvent::StepDone);
    assert!(matches!(&step.action, GroupAction::EmbedChapters(p) if *p == merged));
    let (state, step) = group_step(&cfg, true, &g, state, GroupEvent::StepDone);
    match &step.action {
        GroupAction::WriteChaptersTxt(p) => assert_eq!(p, "/out/Jane/Title.chapters.txt"),
        _ => panic!("expected the chapter list"),
    }
    let (state, step) = group_step(&cfg, true, &g, state, GroupEvent::StepDone);
    assert_eq!(step.reports[0].stage, ProcessingStage::MovingFiles);
    match &step.action {
        GroupAction::MoveFiles(sources, dir) => {
            assert_eq!(sources, &vec!["/in/T/1.mp3".to_string()]);
            assert_eq!(dir, "/done");
        }
        _ => panic!("expected the move"),
    }
    let (_, step) = group_step(&cfg, true, &g, state, GroupEvent::FilesMoved(true));
    match step.action {
        GroupAction::Finish(Ok(r)) => {
            assert_eq!(r.output_file, merged);
            assert!(r.metadata_applied);
            assert!(r.files_moved);
        }
        _ => panic!("expected the group to end"),
    }
}

#[test]
fn failed_tags_skip_the_rest_of_tagging() {
    let cfg = config(Some("/out"), None, false);
    let g = group("Book", &["/in/Book/1.mp3"]);
    let meta = BookMetadata::new("B0ABCDEFGH", "Title", "").add_chapter(m4b_merge::metadata::Chapter::new(
        "One",
        m4b_merge::duration::Duration::zero(),
        m4b_merge::duration::Duration::from_secs(1),
    ));
    let cfg_id = Config { metadata_id: Some("B0ABCDEFGH".to_string()), ..cfg };
    let (state, _) = group_step(&cfg_id, true, &g, GroupState::new(), GroupEvent::Begin);
    let (state, step) = group_step(&cfg_id, true, &g, state, GroupEvent::MetadataFetched(Some(meta)));
    assert!(matches!(step.action, GroupAction::Merge(_)));
    let (state, _) = group_step(&cfg_id, true, &g, state, GroupEvent::Merged(Ok("/out/Title.m4b".to_string())));
    let (_, step) = group_step(&cfg_id, true, &g, state, GroupEvent::TagsWritten(false));
    match step.action {
        GroupAction::Finish(Ok(r)) => assert!(!r.metadata_applied),
        _ => panic!("expected the group to end"),
    }
}

#[test]
fn test_process_empty_inputs() {
    let cfg = Config::new(
        vec![],
        Some("/tmp/t/output".to_string()),
        None,
        MetadataSourceKind::Audiobookdb,
        Some("/tmp/t/completed".to_string()),
        1,
        "info".to_string(),
        "{author}/{title}".to_string(),
        false,
        None,
    );
    let (_, step) = batch_step(&cfg, BatchState::new(vec![]), BatchEvent::Begin);
    assert!(matches!(step.action, BatchAction::Finish(Err(ProcessorError::NoInputs))));
}

#[test]
fn test_process_group_dry_run_no_metadata() {
    let cfg = Config::new(
        vec![],
        Some("/tmp/t/output".to_string()),
        None,
        MetadataSourceKind::Audiobookdb,
        None,
        1,
        "info".to_string(),
        "{author}/{title}".to_string(),
        true,
        None,
    );
    let g = group("Test Book", &["/tmp/t/Test Book/chapter1.mp3"]);
    let (_, step) = group_step(&cfg, true, &g, GroupState::new(), GroupEvent::Begin);
    assert!(matches!(step.action, GroupAction::Finish(Ok(_))));
}

#[test]
fn test_process_group_dry_run_with_invalid_id() {
    let cfg = Config::new(
        vec![],
        Some("/tmp/t/output".to_string()),
        None,
        MetadataSourceKind::Audiobookdb,
        None,
        1,
        "info".to_string(),
        "{author}/{title}".to_string(),
        true,
        Some("INVALID_ID".to_string()),
    );
    let g = group("Test Book [INVALID_ASIN]", &["/tmp/t/Test Book [INVALID_ASIN]/chapter1.mp3"]);
    let (_, step) = group_step(&cfg, true, &g, GroupState::new(), GroupEvent::Begin);
    assert!(matches!(step.action, GroupAction::Finish(Ok(_))));
}

#[test]
fn empty_group_without_lookup_has_no_inputs() {
    let cfg = config(Some("/out"), None, false);
    let g = group("Empty", &[]);
    let (state, step) = group_step(&cfg, false, &g, GroupState::new(), GroupEvent::Begin);
    assert_eq!(state.phase, GroupPhase::Done);
    assert!(step.reports.is_empty());
    assert!(matches!(step.action, GroupAction::Finish(Err(ProcessorError::NoInputs))));
    let no_dir = config(None, None, true);
    let (_, step) = group_step(&no_dir, true, &g, GroupState::new(), GroupEvent::Begin);
    assert!(matches!(step.action, GroupAction::Finish(Err(ProcessorError::NoOutputDir))));
}

#[test]
fn lookup_target_follows_dry_run_source_and_name() {
    let cfg = config(Some("/out"), None, false);
    assert_eq!(lookup_target_of(&cfg, true, "Book [B0ABCDEFGH]").as_deref(), Some("B0ABCDEFGH"));
    assert_eq!(lookup_target_of(&cfg, false, "Book [B0ABCDEFGH]"), None);
    let dry = config(Some("/out"), None, true);
    assert_eq!(lookup_target_of(&dry, true, "Book [B0ABCDEFGH]"), None);
}
