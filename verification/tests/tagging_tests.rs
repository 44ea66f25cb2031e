use m4b_merge::duration::Duration;
use m4b_merge::metadata::{BookMetadata, Chapter};
use m4b_merge::tagging::{
    chapters_txt_content, convert_chapters_for_embedding, detect_image_format, format_duration,
    is_cross_device_code, move_destination, plan_move, plan_tags, validate_and_sort_chapters,
    move_step, ImageFormat, MoveAction, MoveEvent, MovePhase, MoveState, MoveStep, OverwriteBehavior, Tagger,
    TaggingError,
};

#[test]
fn test_format_duration() {
    assert_eq!(format_duration(Duration::from_secs(0)), "00:00:00.000");
    assert_eq!(format_duration(Duration::from_secs(90)), "00:01:30.000");
    assert_eq!(format_duration(Duration::from_millis(5432100)), "01:30:32.100");
    assert_eq!(format_duration(Duration::from_millis(3661001)), "01:01:01.001");
}

#[test]
fn test_detect_image_format_jpeg() {
    let jpeg_data = vec![0xFF, 0xD8, 0xFF, 0xE0, 0x00, 0x10, 0x4A, 0x46];
    assert_eq!(detect_image_format(&jpeg_data).unwrap(), ImageFormat::Jpeg);
}

#[test]
fn test_detect_image_format_png() {
    let png_data = vec![0x89, 0x50, 0x4E, 0x47, 0x0D, 0x0A, 0x1A, 0x0A];
    assert_eq!(detect_image_format(&png_data).unwrap(), ImageFormat::Png);
}

#[test]
fn test_detect_image_format_unknown() {
    let unknown_data = vec![0x00, 0x01, 0x02, 0x03, 0x04, 0x05, 0x06, 0x07];
    assert!(detect_image_format(&unknown_data).is_err());
}

#[test]
fn test_detect_image_format_too_short() {
    let short_data = vec![0xFF, 0xD8];
    assert!(detect_image_format(&short_data).is_err());
}

#[test]
fn test_overwrite_behavior_default() {
    assert_eq!(OverwriteBehavior::default(), OverwriteBehavior::Error);
}

#[test]
fn test_tagger_creation() {
    let tagger = Tagger::new().unwrap();
    assert!(matches!(tagger.overwrite_behavior(), OverwriteBehavior::Error));
}

#[test]
fn test_tagger_with_overwrite_behavior() {
    let tagger = Tagger::new().unwrap().with_overwrite_behavior(OverwriteBehavior::Force);
    assert!(matches!(tagger.overwrite_behavior(), OverwriteBehavior::Force));
}

#[test]
fn test_write_chapters_txt() {
    let metadata = BookMetadata::new("B08XYZ1234", "Test Book", "Description")
        .add_author("Test Author")
        .add_chapter(Chapter::new("Chapter 1", Duration::from_secs(0), Duration::from_secs(600)))
        .add_chapter(Chapter::new("Chapter 2", Duration::from_secs(600), Duration::from_secs(600)));
    let content = chapters_txt_content(&metadata);
    assert!(content.contains("## artist: Test Author"));
    assert!(content.contains("## album: Test Book"));
    assert!(content.contains("00:00:00.000 Chapter 1"));
    assert!(content.contains("00:10:00.000 Chapter 2"));
}

#[test]
fn test_chapters_txt_format() {
    let metadata = BookMetadata::new("B08XYZ1234", "Test Book", "Description")
        .add_author("Author One")
        .add_author("Author Two")
        .with_year(2023)
        .add_chapter(Chapter::new("Intro", Duration::from_millis(0), Duration::from_millis(5000)))
        .add_chapter(Chapter::new("Chapter 1", Duration::from_millis(5000), Duration::from_millis(10000)))
        .add_chapter(Chapter::new("Chapter 2", Duration::from_millis(15000), Duration::from_millis(10000)));
    let content = chapters_txt_content(&metadata);
    assert!(content.contains("## artist: Author One, Author Two"));
    assert!(content.contains("## album: Test Book"));
    assert!(content.contains("## total-duration: 00:00:25.000"));
    assert!(content.contains("00:00:00.000 Intro"));
    assert!(content.contains("00:00:05.000 Chapter 1"));
    assert!(content.contains("00:00:15.000 Chapter 2"));
}

#[test]
fn test_convert_chapters_for_embedding() {
    let chapters = vec![
        Chapter::new("Ch1", Duration::zero(), Duration::from_secs(60)),
        Chapter::new("Ch2", Duration::from_secs(60), Duration::from_secs(60)),
    ];
    let mp4_chapters = convert_chapters_for_embedding(&chapters, None);
    assert_eq!(mp4_chapters.len(), 2);
    assert_eq!(mp4_chapters[0].title, "Ch1");
    assert_eq!(mp4_chapters[0].start, Duration::zero());
    assert_eq!(mp4_chapters[1].title, "Ch2");
    assert_eq!(mp4_chapters[1].start, Duration::from_secs(60));
}

#[test]
fn test_convert_chapters_for_embedding_sorts_chapters() {
    let chapters = vec![
        Chapter::new("Ch2", Duration::from_secs(60), Duration::from_secs(60)),
        Chapter::new("Ch1", Duration::zero(), Duration::from_secs(60)),
        Chapter::new("Ch3", Duration::from_secs(120), Duration::from_secs(60)),
    ];
    let mp4_chapters = convert_chapters_for_embedding(&chapters, None);
    assert_eq!(mp4_chapters.len(), 3);
    assert_eq!(mp4_chapters[0].title, "Ch1");
    assert_eq!(mp4_chapters[1].title, "Ch2");
    assert_eq!(mp4_chapters[2].title, "Ch3");
}

#[test]
fn test_convert_chapters_for_embedding_title_truncation() {
    let long_title = "A".repeat(300);
    let chapters = vec![Chapter::new(&long_title, Duration::zero(), Duration::from_secs(60))];
    let mp4_chapters = convert_chapters_for_embedding(&chapters, None);
    assert_eq!(mp4_chapters.len(), 1);
    assert_eq!(mp4_chapters[0].title.len(), 255);
}

#[test]
fn test_convert_chapters_for_embedding_empty() {
    let chapters: Vec<Chapter> = vec![];
    let mp4_chapters = convert_chapters_for_embedding(&chapters, None);
    assert!(mp4_chapters.is_empty());
}

#[test]
fn test_validate_and_sort_chapters_empty() {
    let mut chapters: Vec<Chapter> = vec![];
    let result = validate_and_sort_chapters(&mut chapters);
    assert!(result.is_ok());
    assert!(chapters.is_empty());
}

#[test]
fn test_validate_and_sort_chapters_single() {
    let mut chapters = vec![Chapter::new("Ch1", Duration::zero(), Duration::from_secs(60))];
    let result = validate_and_sort_chapters(&mut chapters);
    assert!(result.is_ok());
    assert_eq!(chapters.len(), 1);
}

#[test]
fn test_validate_and_sort_chapters_unsorted_gets_sorted() {
    let mut chapters = vec![
        Chapter::new("Ch2", Duration::from_secs(60), Duration::from_secs(60)),
        Chapter::new("Ch1", Duration::zero(), Duration::from_secs(60)),
        Chapter::new("Ch3", Duration::from_secs(120), Duration::from_secs(60)),
    ];
    validate_and_sort_chapters(&mut chapters).unwrap();
    assert_eq!(chapters[0].title, "Ch1");
    assert_eq!(chapters[0].start_time, Duration::zero());
    assert_eq!(chapters[1].title, "Ch2");
    assert_eq!(chapters[1].start_time, Duration::from_secs(60));
    assert_eq!(chapters[2].title, "Ch3");
    assert_eq!(chapters[2].start_time, Duration::from_secs(120));
}

#[test]
fn test_validate_and_sort_chapters_duplicates() {
    let chapters = vec![
        Chapter::new("Ch1", Duration::zero(), Duration::from_secs(60)),
        Chapter::new("Ch2", Duration::zero(), Duration::from_secs(60)),
    ];
    let mut chapters_copy = chapters;
    let result = validate_and_sort_chapters(&mut chapters_copy);
    assert!(matches!(result, Err(TaggingError::DuplicateChapterTimes)));
}

#[test]
fn test_validate_and_sort_chapters_already_sorted() {
    let mut chapters = vec![
        Chapter::new("Ch1", Duration::zero(), Duration::from_secs(60)),
        Chapter::new("Ch2", Duration::from_secs(60), Duration::from_secs(60)),
    ];
    let result = validate_and_sort_chapters(&mut chapters);
    assert!(result.is_ok());
    assert_eq!(chapters[0].title, "Ch1");
    assert_eq!(chapters[1].title, "Ch2");
}

#[test]
fn move_steps_follow_overwrite_behavior() {
    assert_eq!(plan_move(false, true, OverwriteBehavior::Force), MoveStep::SkipMissing);
    assert_eq!(plan_move(true, false, OverwriteBehavior::Error), MoveStep::Move);
    assert_eq!(plan_move(true, true, OverwriteBehavior::Skip), MoveStep::SkipExisting);
    assert_eq!(plan_move(true, true, OverwriteBehavior::Error), MoveStep::Refuse);
    assert_eq!(plan_move(true, true, OverwriteBehavior::Force), MoveStep::ReplaceThenMove);
}

#[test]
fn move_destination_keeps_file_name() {
    assert_eq!(move_destination("/done", "/src/a/file1.txt").unwrap(), "/done/file1.txt");
    match move_destination("/done", "/") {
        Err(TaggingError::FileMove(m)) => assert_eq!(m, "Invalid source path"),
        other => panic!("unexpected: {other:?}"),
    }
}

#[test]
fn cross_device_code_is_exdev() {
    assert!(is_cross_device_code(Some(18)));
    assert!(!is_cross_device_code(Some(2)));
    assert!(!is_cross_device_code(None));
}

#[test]
fn tag_plan_joins_people_and_series() {
    let metadata = BookMetadata::new("A1", "Title", "About")
        .add_author("Ann")
        .add_author("Bob")
        .add_narrator("Cy")
        .add_genre("Fantasy")
        .with_year(2020)
        .with_series("Saga", "2");
    let plan = plan_tags(&metadata, None);
    assert_eq!(plan.title, "Title");
    assert_eq!(plan.album, "Title");
    assert_eq!(plan.artist.as_deref(), Some("Ann, Bob"));
    assert_eq!(plan.genre.as_deref(), Some("Fantasy"));
    assert_eq!(plan.year.as_deref(), Some("2020"));
    assert_eq!(plan.comment.as_deref(), Some("About"));
    assert_eq!(plan.grouping.as_deref(), Some("Narrator: Cy | Series: Saga #2"));
}

#[test]
fn tagging_error_messages() {
    assert_eq!(
        TaggingError::DuplicateChapterTimes.to_string(),
        "Duplicate chapter start times detected"
    );
    assert_eq!(TaggingError::FileNotFound("/x.m4b".to_string()).to_string(), "File not found: /x.m4b");
}

fn move_start(sources: &[&str], behavior: OverwriteBehavior) -> MoveState {
    let sources: Vec<String> = sources.iter().map(|s| s.to_string()).collect();
    let (state, action) = move_step(MoveState::new(sources, "/done".to_string(), behavior), MoveEvent::Begin);
    assert!(matches!(&action, MoveAction::CreateDir(d) if d == "/done"));
    state
}

#[test]
fn move_steps_move_every_file() {
    let state = move_start(&["/src/file1.txt", "/src/file2.txt"], OverwriteBehavior::Skip);
    let (state, action) = move_step(state, MoveEvent::DirCreated(Ok(())));
    assert!(matches!(&action, MoveAction::CheckSource(p) if p == "/src/file1.txt"));
    let (state, action) = move_step(state, MoveEvent::Exists(true));
    assert!(matches!(&action, MoveAction::CheckDest(p) if p == "/done/file1.txt"));
    let (state, action) = move_step(state, MoveEvent::Exists(false));
    assert!(matches!(&action, MoveAction::Rename(a, b) if a == "/src/file1.txt" && b == "/done/file1.txt"));
    let (state, action) = move_step(state, MoveEvent::Renamed(Ok(())));
    assert!(matches!(&action, MoveAction::CheckSource(p) if p == "/src/file2.txt"));
    let (state, _) = move_step(state, MoveEvent::Exists(true));
    let (state, _) = move_step(state, MoveEvent::Exists(false));
    let (state, action) = move_step(state, MoveEvent::Renamed(Ok(())));
    assert_eq!(state.phase, MovePhase::Done);
    match action {
        MoveAction::Finish(Ok(moved)) => {
            assert_eq!(moved, vec!["/done/file1.txt".to_string(), "/done/file2.txt".to_string()])
        }
        _ => panic!("expected the move to end"),
    }
}

#[test]
fn move_steps_skip_missing_and_existing() {
    let state = move_start(&["/src/gone.txt", "/src/file1.txt"], OverwriteBehavior::Skip);
    let (state, _) = move_step(state, MoveEvent::DirCreated(Ok(())));
    let (state, action) = move_step(state, MoveEvent::Exists(false));
    assert!(matches!(&action, MoveAction::CheckSource(p) if p == "/src/file1.txt"));
    let (state, _) = move_step(state, MoveEvent::Exists(true));
    let (_, action) = move_step(state, MoveEvent::Exists(true));
    match action {
        MoveAction::Finish(Ok(moved)) => assert!(moved.is_empty()),
        _ => panic!("expected nothing moved"),
    }
}

#[test]
fn move_steps_refuse_existing_destination() {
    let state = move_start(&["/src/file1.txt"], OverwriteBehavior::Error);
    let (state, _) = move_step(state, MoveEvent::DirCreated(Ok(())));
    let (state, _) = move_step(state, MoveEvent::Exists(true));
    let (_, action) = move_step(state, MoveEvent::Exists(true));
    match action {
        MoveAction::Finish(Err(TaggingError::FileMove(m))) => {
            assert_eq!(m, "Destination already exists: /done/file1.txt")
        }
        _ => panic!("expected a refusal"),
    }
}

#[test]
fn move_steps_replace_existing_destination() {
    let state = move_start(&["/src/file1.txt"], OverwriteBehavior::Force);
    let (state, _) = move_step(state, MoveEvent::DirCreated(Ok(())));
    let (state, _) = move_step(state, MoveEvent::Exists(true));
    let (state, action) = move_step(state, MoveEvent::Exists(true));
    assert!(matches!(&action, MoveAction::RemoveDest(p) if p == "/done/file1.txt"));
    let (state, action) = move_step(state, MoveEvent::Removed(Ok(())));
    assert!(matches!(&action, MoveAction::Rename(_, _)));
    let (_, action) = move_step(state, MoveEvent::Renamed(Ok(())));
    assert!(matches!(&action, MoveAction::Finish(Ok(v)) if v.len() == 1));
}

#[test]
fn move_steps_copy_across_devices() {
    let state = move_start(&["/src/file1.txt"], OverwriteBehavior::Skip);
    let (state, _) = move_step(state, MoveEvent::DirCreated(Ok(())));
    let (state, _) = move_step(state, MoveEvent::Exists(true));
    let (state, _) = move_step(state, MoveEvent::Exists(false));
    let (state, action) = move_step(state, MoveEvent::Renamed(Err((Some(18), "cross-device".to_string()))));
    assert!(matches!(&action, MoveAction::Copy(a, b) if a == "/src/file1.txt" && b == "/done/file1.txt"));
    let (state, action) = move_step(state, MoveEvent::Copied(Ok(())));
    assert!(matches!(&action, MoveAction::RemoveSource(p) if p == "/src/file1.txt"));
    let (_, action) = move_step(state, MoveEvent::Removed(Err("busy".to_string())));
    match action {
        MoveAction::Finish(Err(TaggingError::FileMove(m))) => {
            assert_eq!(m, "Failed to remove source /src/file1.txt after copy: busy")
        }
        _ => panic!("expected a removal failure"),
    }
}

#[test]
fn move_steps_report_other_rename_failures() {
    let state = move_start(&["/src/file1.txt"], OverwriteBehavior::Skip);
    let (state, _) = move_step(state, MoveEvent::DirCreated(Ok(())));
    let (state, _) = move_step(state, MoveEvent::Exists(true));
    let (state, _) = move_step(state, MoveEvent::Exists(false));
    let (_, action) = move_step(state, MoveEvent::Renamed(Err((Some(13), "denied".to_string()))));
    match action {
        MoveAction::Finish(Err(TaggingError::FileMove(m))) => {
            assert_eq!(m, "Failed to move /src/file1.txt to /done/file1.txt: denied")
        }
        _ => panic!("expected a move failure"),
    }
}

#[test]
fn move_steps_fail_on_unusable_directory() {
    let state = move_start(&["/src/file1.txt"], OverwriteBehavior::Skip);
    let err = std::io::Error::new(std::io::ErrorKind::PermissionDenied, "denied");
    let (_, action) = move_step(state, MoveEvent::DirCreated(Err(err)));
    assert!(matches!(action, MoveAction::Finish(Err(TaggingError::Io(_)))));
}

#[test]
fn chapters_txt_has_chapter_lines_right_after_headers() {
    let metadata = BookMetadata::new("B08XYZ1234", "Test Book", "Description")
        .add_author("Author One")
        .add_author("Author Two")
        .with_year(2023)
        .add_chapter(Chapter::new("Intro", Duration::from_millis(0), Duration::from_millis(5000)))
        .add_chapter(Chapter::new("Chapter 1", Duration::from_millis(5000), Duration::from_millis(10000)))
        .add_chapter(Chapter::new("Chapter 2", Duration::from_millis(15000), Duration::from_millis(10000)));
    assert_eq!(
        chapters_txt_content(&metadata),
        "## artist: Author One, Author Two\n## album: Test Book\n## total-duration: 00:00:25.000\n00:00:00.000 Intro\n00:00:05.000 Chapter 1\n00:00:15.000 Chapter 2\n"
    );
    let bare = BookMetadata::new("B08XYZ1234", "Solo", "");
    assert_eq!(chapters_txt_content(&bare), "## album: Solo\n");
}
