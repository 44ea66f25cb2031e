use m4b_merge::discovery::{
    any_disc_name, arrange_groups, detect_disc_number, filter_audio_paths, group_files_by_directory,
    nonempty_discovery, order_disc_entries, sort_files, validate_checked, AudioFile, AudioFormat,
    AudioGroup, DiscoveryError, FileMetadata, OpenCheck,
};
use m4b_merge::duration::Duration;
use m4b_merge::ffmpeg::AudioMetadata;

fn file(path: &str) -> AudioFile {
    let format = AudioFormat::from_path(path).expect("test paths have audio extensions");
    AudioFile { path: path.to_string(), format, metadata: None }
}

fn names(files: &[AudioFile]) -> Vec<String> {
    files.iter().map(|f| f.filename()).collect()
}

#[test]
fn test_audio_format_from_extension() {
    assert_eq!(AudioFormat::from_extension("mp3"), Some(AudioFormat::MP3));
    assert_eq!(AudioFormat::from_extension("MP3"), Some(AudioFormat::MP3));
    assert_eq!(AudioFormat::from_extension("m4a"), Some(AudioFormat::M4A));
    assert_eq!(AudioFormat::from_extension("m4b"), Some(AudioFormat::M4B));
    assert_eq!(AudioFormat::from_extension("wav"), None);
    assert_eq!(AudioFormat::from_extension("ogg"), None);
}

#[test]
fn test_audio_format_from_path() {
    assert_eq!(AudioFormat::from_path("/path/to/file.mp3"), Some(AudioFormat::MP3));
    assert_eq!(AudioFormat::from_path("/path/to/file.m4b"), Some(AudioFormat::M4B));
    assert_eq!(AudioFormat::from_path("/path/to/file.txt"), None);
}

#[test]
fn test_audio_format_display() {
    assert_eq!(AudioFormat::MP3.to_string(), "MP3");
    assert_eq!(AudioFormat::M4A.to_string(), "M4A");
    assert_eq!(AudioFormat::M4B.to_string(), "M4B");
}

#[test]
fn test_detect_disc_number() {
    assert_eq!(detect_disc_number("CD1"), Some(1));
    assert_eq!(detect_disc_number("CD 1"), Some(1));
    assert_eq!(detect_disc_number("CD01"), Some(1));
    assert_eq!(detect_disc_number("CD10"), Some(10));
    assert_eq!(detect_disc_number("Disc 2"), Some(2));
    assert_eq!(detect_disc_number("DISC3"), Some(3));
    assert_eq!(detect_disc_number("Disk 1"), Some(1));
    assert_eq!(detect_disc_number("Part 1"), Some(1));
    assert_eq!(detect_disc_number("Disc_1"), Some(1));
    assert_eq!(detect_disc_number("CD-1"), Some(1));
    assert_eq!(detect_disc_number("Some Book"), None);
    assert_eq!(detect_disc_number("Chapter 1"), None);
}

#[test]
fn test_has_multi_disc_subdirs() {
    assert!(any_disc_name(&["CD1".to_string(), "CD2".to_string()]));
    assert!(!any_disc_name(&["RegularDir".to_string()]));
}

#[test]
fn test_audio_file_new() {
    let made = AudioFile::new_checked("/books/test.mp3".to_string(), true, true, OpenCheck::Opened);
    assert!(made.is_ok());
    let file = made.unwrap();
    assert_eq!(file.format, AudioFormat::MP3);
    assert_eq!(file.filename(), "test.mp3");
    assert!(file.metadata.is_none());
}

#[test]
fn test_audio_file_new_nonexistent() {
    let result =
        AudioFile::new_checked("/nonexistent/file.mp3".to_string(), false, false, OpenCheck::Opened);
    assert!(matches!(result, Err(DiscoveryError::FileNotFound(_))));
}

#[test]
fn test_audio_file_new_wrong_extension() {
    let result = AudioFile::new_checked("/books/test.txt".to_string(), true, true, OpenCheck::Opened);
    assert!(matches!(result, Err(DiscoveryError::InvalidFormat(_))));
}

#[test]
fn test_validate_audio_file() {
    assert!(validate_checked("/books/test.mp3", true, true, OpenCheck::Opened).is_ok());
    assert!(matches!(
        validate_checked("/books/test.txt", true, true, OpenCheck::Opened),
        Err(DiscoveryError::UnsupportedExtension(_))
    ));
    assert!(matches!(
        validate_checked("/nonexistent.mp3", false, false, OpenCheck::Opened),
        Err(DiscoveryError::FileNotFound(_))
    ));
}

#[test]
fn test_collect_files_from_dir() {
    let paths = vec![
        "/d/01.mp3".to_string(),
        "/d/02.mp3".to_string(),
        "/d/03.m4a".to_string(),
        "/d/readme.txt".to_string(),
    ];
    let files = filter_audio_paths(paths);
    assert_eq!(files.len(), 3);
    assert!(files.iter().any(|p| p.ends_with(".mp3")));
    assert!(files.iter().any(|p| p.ends_with(".m4a")));
    assert!(!files.iter().any(|p| p.ends_with(".txt")));
}

#[test]
fn test_discover_multi_disc_dir() {
    let entries = vec![
        (Some(2), file("/b/CD2/02.mp3")),
        (Some(1), file("/b/CD1/02.mp3")),
        (Some(2), file("/b/CD2/01.mp3")),
        (Some(1), file("/b/CD1/01.mp3")),
    ];
    let files = order_disc_entries(entries);
    assert_eq!(files.len(), 4);
    assert!(files[0].path.contains("CD1"));
    assert!(files[1].path.contains("CD1"));
    assert!(files[2].path.contains("CD2"));
    assert!(files[3].path.contains("CD2"));
    assert_eq!(files[0].path, "/b/CD1/01.mp3");
    assert_eq!(files[2].path, "/b/CD2/01.mp3");
}

#[test]
fn test_natural_sorting() {
    let files = vec![file("/d/10.mp3"), file("/d/01.mp3"), file("/d/02.mp3"), file("/d/100.mp3")];
    let sorted = sort_files(files, true);
    assert_eq!(sorted.len(), 4);

    let files2 = vec![file("/e/file_10.mp3"), file("/e/file_1.mp3"), file("/e/file_2.mp3")];
    let sorted2 = names(&sort_files(files2, true));
    assert_eq!(sorted2[0], "file_1.mp3");
    assert_eq!(sorted2[1], "file_2.mp3");
    assert_eq!(sorted2[2], "file_10.mp3");
}

#[test]
fn test_group_files_by_directory() {
    let files = vec![
        file("/t/Book1/chapter1.mp3"),
        file("/t/Book1/chapter2.mp3"),
        file("/t/Book2/chapter1.mp3"),
    ];
    let groups = group_files_by_directory(files);
    assert_eq!(groups.len(), 2);
    let group_names: Vec<_> = groups.iter().map(|g| g.name.clone()).collect();
    assert!(group_names.contains(&"Book1".to_string()));
    assert!(group_names.contains(&"Book2".to_string()));
    let book1_group = groups.iter().find(|g| g.name == "Book1").unwrap();
    assert_eq!(book1_group.files.len(), 2);
}

#[test]
fn test_audio_group_sort_naturally() {
    let files = vec![file("/t/10.mp3"), file("/t/1.mp3"), file("/t/2.mp3")];
    let mut group = AudioGroup::new("Test".to_string(), files);
    group.sort_naturally();
    let sorted = names(&group.files);
    assert_eq!(sorted, vec!["1.mp3", "2.mp3", "10.mp3"]);
}

#[test]
fn test_audio_group_disc_number() {
    let group1 = AudioGroup::new("CD1".to_string(), vec![]);
    assert_eq!(group1.disc_number, Some(1));
    let group2 = AudioGroup::new("Disc 2".to_string(), vec![]);
    assert_eq!(group2.disc_number, Some(2));
    let group3 = AudioGroup::new("Regular".to_string(), vec![]);
    assert_eq!(group3.disc_number, None);
}

#[test]
fn test_discover_and_group() {
    let files = vec![file("/t/Book1/01.mp3"), file("/t/Book2/01.mp3")];
    let groups = arrange_groups(group_files_by_directory(files));
    assert_eq!(groups.len(), 2);
}

#[test]
fn test_discover_no_audio_files() {
    let result = nonempty_discovery(vec![], "/t/empty");
    assert!(matches!(result, Err(DiscoveryError::NoAudioFiles(_))));
}

#[test]
fn test_file_metadata_from_audio_metadata() {
    let audio_metadata = AudioMetadata {
        duration: Some(Duration::from_secs(120)),
        bitrate: Some(128000),
        sample_rate: Some(44100),
        channels: Some(2),
        codec: Some("aac".to_string()),
        format_name: Some("m4a".to_string()),
        format_long_name: Some("MP4/M4A".to_string()),
        tags: None,
    };
    let file_metadata: FileMetadata = audio_metadata.into();
    assert_eq!(file_metadata.duration, Duration::from_secs(120));
    assert_eq!(file_metadata.bitrate, 128000);
    assert_eq!(file_metadata.sample_rate, 44100);
    assert_eq!(file_metadata.channels, 2);
    assert_eq!(file_metadata.codec, "aac");
}

#[test]
fn file_metadata_saturates_large_bitrates_and_fills_defaults() {
    let m = AudioMetadata {
        duration: None,
        bitrate: Some(5_000_000_000),
        sample_rate: None,
        channels: Some(258),
        codec: None,
        format_name: None,
        format_long_name: None,
        tags: None,
    };
    let f = FileMetadata::from_audio_metadata(m);
    assert_eq!(f.bitrate, u32::MAX);
    assert_eq!(f.channels, 2);
    assert_eq!(f.sample_rate, 0);
    assert_eq!(f.duration, Duration::zero());
    assert_eq!(f.codec, "");
}

#[test]
fn groups_are_ordered_by_disc_then_unnumbered() {
    let groups = vec![
        AudioGroup::new("Extras".to_string(), vec![]),
        AudioGroup::new("CD2".to_string(), vec![]),
        AudioGroup::new("CD1".to_string(), vec![]),
        AudioGroup::new("Bonus".to_string(), vec![]),
    ];
    let arranged = arrange_groups(groups);
    let order: Vec<&str> = arranged.iter().map(|g| g.name.as_str()).collect();
    assert_eq!(order, vec!["CD1", "CD2", "Extras", "Bonus"]);
}

#[test]
fn group_duration_sums_known_durations() {
    let mut a = file("/t/a.mp3");
    a.metadata = Some(FileMetadata {
        duration: Duration::from_secs(30),
        bitrate: 0,
        sample_rate: 0,
        channels: 0,
        codec: String::new(),
    });
    let b = file("/t/b.mp3");
    let mut c = file("/t/c.mp3");
    c.metadata = Some(FileMetadata {
        duration: Duration::from_millis(1500),
        bitrate: 0,
        sample_rate: 0,
        channels: 0,
        codec: String::new(),
    });
    let group = AudioGroup::new("G".to_string(), vec![a, b, c]);
    assert_eq!(group.total_duration(), Duration::from_millis(31_500));
}

#[test]
fn unsupported_extension_is_reported() {
    match validate_checked("/books/readme", true, true, OpenCheck::Opened) {
        Err(DiscoveryError::UnsupportedExtension(e)) => assert_eq!(e, "unknown"),
        other => panic!("unexpected: {other:?}"),
    }
    match validate_checked("/books/notes.txt", true, true, OpenCheck::Opened) {
        Err(DiscoveryError::UnsupportedExtension(e)) => assert_eq!(e, "txt"),
        other => panic!("unexpected: {other:?}"),
    }
    assert!(matches!(
        validate_checked("/books/dir.mp3", true, false, OpenCheck::Opened),
        Err(DiscoveryError::InvalidPath(_))
    ));
    assert!(matches!(
        validate_checked("/books/locked.mp3", true, true, OpenCheck::PermissionDenied),
        Err(DiscoveryError::PermissionDenied(_))
    ));
}

#[test]
fn discovery_error_messages() {
    assert_eq!(DiscoveryError::FileNotFound("/x".to_string()).to_string(), "File not found: /x");
    assert_eq!(
        DiscoveryError::NoAudioFiles("/d".to_string()).to_string(),
        "No audio files found in: /d"
    );
}

#[test]
fn all_extensions_lists_supported_formats() {
    assert_eq!(AudioFormat::all_extensions(), vec!["mp3", "m4a", "m4b"]);
}
