use std::sync::Arc;

use m4b_merge::discovery::{AudioFile, AudioFormat, FileMetadata};
use m4b_merge::duration::Duration;
use m4b_merge::ffmpeg::{AudioMetadata, FFmpeg, FFmpegError};
use m4b_merge::merge::{
    choose_target_bitrate, concat_list_content, concat_merge_args, concat_merge_outcome, known_bitrates_of,
    fits_in_time, most_common_bitrate, read_progress_line,
    parse_ffmpeg_time, single_copy_outcome, single_file_args, MergeError, MergeJob,
    MergeJobBuilder, MergeMode, Merger, merge_step, MergeAction, MergeEvent, MergePhase, MergeState,
};

fn audio(path: &str) -> AudioFile {
    let format = AudioFormat::from_path(path).expect("audio extension");
    AudioFile { path: path.to_string(), format, metadata: None }
}

fn with_bitrate(path: &str, bitrate: u32) -> AudioFile {
    let mut f = audio(path);
    f.metadata = Some(FileMetadata {
        duration: Duration::zero(),
        bitrate,
        sample_rate: 44100,
        channels: 2,
        codec: "aac".to_string(),
    });
    f
}

#[test]
fn test_merge_mode_from_files() {
    let m4a_files = vec![audio("/t/file1.m4a"), audio("/t/file2.m4a")];
    assert_eq!(MergeMode::from_files(&m4a_files), MergeMode::Copy);
    let m4b_files = vec![audio("/t/file1.m4b"), audio("/t/file2.m4b")];
    assert_eq!(MergeMode::from_files(&m4b_files), MergeMode::Copy);
    let mixed_files = vec![audio("/t/file1.m4a"), audio("/t/file2.m4b")];
    assert_eq!(MergeMode::from_files(&mixed_files), MergeMode::Copy);
    let mp3_files = vec![audio("/t/file1.mp3"), audio("/t/file2.mp3")];
    assert_eq!(MergeMode::from_files(&mp3_files), MergeMode::Transcode);
    let mixed_mp3_m4a = vec![audio("/t/file1.mp3"), audio("/t/file2.m4a")];
    assert_eq!(MergeMode::from_files(&mixed_mp3_m4a), MergeMode::Transcode);
}

#[test]
fn test_merge_mode_codec_args() {
    let copy_args = MergeMode::Copy.codec_args(None);
    assert_eq!(copy_args, vec!["-c", "copy"]);
    let transcode_args = MergeMode::Transcode.codec_args(None);
    assert_eq!(transcode_args, vec!["-c:a", "aac", "-b:a", "128k"]);
    let transcode_args_192 = MergeMode::Transcode.codec_args(Some(192));
    assert_eq!(transcode_args_192, vec!["-c:a", "aac", "-b:a", "192k"]);
}

#[test]
fn test_round_to_standard_bitrate() {
    assert_eq!(Merger::round_to_standard_bitrate(60), 64);
    assert_eq!(Merger::round_to_standard_bitrate(65), 64);
    assert_eq!(Merger::round_to_standard_bitrate(110), 96);
    assert_eq!(Merger::round_to_standard_bitrate(140), 128);
    assert_eq!(Merger::round_to_standard_bitrate(170), 192);
    assert_eq!(Merger::round_to_standard_bitrate(220), 192);
    assert_eq!(Merger::round_to_standard_bitrate(300), 320);
}

#[test]
fn test_parse_ffmpeg_time() {
    let time = parse_ffmpeg_time("00:00:00.00").unwrap();
    assert_eq!(time, Duration::new(0, 0));
    let time = parse_ffmpeg_time("00:01:30.50").unwrap();
    assert_eq!(time.as_secs(), 90);
    assert!(time.subsec_nanos() > 0);
    let time = parse_ffmpeg_time("01:30:45.25").unwrap();
    assert_eq!(time.as_secs(), 5445);
}

#[test]
fn test_merge_job_validation_empty_files() {
    let job = MergeJob {
        input_files: vec![],
        output_path: "/tmp/output.m4b".to_string(),
        mode: MergeMode::Copy,
        target_bitrate: None,
        num_threads: None,
    };
    assert!(matches!(job.validate(), Err(MergeError::NoInputFiles)));
}

#[test]
fn test_merge_job_builder() {
    let job = MergeJobBuilder::new()
        .input_files(vec![audio("/t/test.mp3")])
        .output("/t/output.m4b")
        .mode(MergeMode::Transcode)
        .bitrate(192)
        .threads(4)
        .build()
        .unwrap();
    assert_eq!(job.mode, MergeMode::Transcode);
    assert_eq!(job.target_bitrate, Some(192));
    assert_eq!(job.num_threads, Some(4));
}

#[test]
fn test_merger_can_copy_merge() {
    let ffmpeg = Arc::new(FFmpeg::with_paths("ffmpeg".to_string(), "ffprobe".to_string()));
    let merger = Merger::new(ffmpeg);
    let m4_files = vec![audio("/t/file1.m4a"), audio("/t/file2.m4b")];
    assert!(merger.can_copy_merge(&m4_files));
    let mixed_files = vec![audio("/t/file1.mp3"), audio("/t/file2.m4a")];
    assert!(!merger.can_copy_merge(&mixed_files));
}

#[test]
fn test_merge_job_new() {
    let files = vec![audio("/t/file1.m4a"), audio("/t/file2.m4a")];
    let job = MergeJob::new(files, "/t/output.m4b".to_string());
    assert_eq!(job.mode, MergeMode::Copy);
    assert_eq!(job.output_path, "/t/output.m4b");
    assert_eq!(job.input_files.len(), 2);
}

#[test]
fn merge_test_error_display() {
    let err = MergeError::NoInputFiles;
    assert_eq!(err.to_string(), "No input files provided");
    let err = MergeError::NoOutputPath;
    assert_eq!(err.to_string(), "Output path not specified");
}

#[test]
fn incompatible_formats_are_listed_like_debug() {
    let err = MergeError::IncompatibleFormats(vec![AudioFormat::MP3, AudioFormat::MP3]);
    assert_eq!(
        err.to_string(),
        "Incompatible formats for copy mode: expected M4A/M4B, found [MP3, MP3]"
    );
}

#[test]
fn builder_without_output_fails_and_defaults_mode() {
    assert!(matches!(MergeJobBuilder::new().build(), Err(MergeError::NoOutputPath)));
    let job = MergeJobBuilder::default()
        .input_files(vec![audio("/t/a.mp3")])
        .output("/t/o.m4b")
        .build()
        .unwrap();
    assert_eq!(job.mode, MergeMode::Transcode);
    assert_eq!(job.target_bitrate, None);
    assert_eq!(job.num_threads, None);
}

#[test]
fn validation_reports_missing_files_and_copy_incompatibility() {
    let job = MergeJob::new(vec![audio("/t/a.mp3"), audio("/t/b.m4a")], "/t/o.m4b".to_string())
        .with_mode(MergeMode::Copy);
    match job.validate_given(&[true, false]) {
        Err(MergeError::FFmpeg(FFmpegError::FileNotFound(p))) => assert_eq!(p, "/t/b.m4a"),
        other => panic!("unexpected: {other:?}"),
    }
    match job.validate_given(&[true, true]) {
        Err(MergeError::IncompatibleFormats(v)) => assert_eq!(v, vec![AudioFormat::MP3]),
        other => panic!("unexpected: {other:?}"),
    }
    let transcode = job.with_mode(MergeMode::Transcode);
    assert!(transcode.validate_given(&[true, true]).is_ok());
}

#[test]
fn bitrate_from_metadata_takes_most_common_known_bitrate() {
    let files = vec![
        with_bitrate("/t/a.mp3", 320_000),
        with_bitrate("/t/b.mp3", 64_000),
        audio("/t/c.mp3"),
        with_bitrate("/t/d.mp3", 64_000),
        with_bitrate("/t/e.mp3", 320_000),
        with_bitrate("/t/f.mp3", 62_000),
        with_bitrate("/t/g.mp3", 64_000),
    ];
    assert_eq!(Merger::bitrate_from_metadata(&files).unwrap(), Some(64));
    let three = vec![with_bitrate("/t/a.mp3", 64_000), with_bitrate("/t/b.mp3", 64_000), with_bitrate("/t/c.mp3", 320_000)];
    assert_eq!(Merger::bitrate_from_metadata(&three).unwrap(), Some(64));
    let tie = vec![with_bitrate("/t/a.mp3", 190_000), with_bitrate("/t/b.mp3", 60_000)];
    assert_eq!(Merger::bitrate_from_metadata(&tie).unwrap(), Some(192));
    assert_eq!(Merger::bitrate_from_metadata(&[with_bitrate("/t/x.mp3", u32::MAX)]).unwrap(), Some(320));
    assert_eq!(Merger::bitrate_from_metadata(&[audio("/t/c.mp3")]).unwrap(), None);
    assert!(matches!(Merger::bitrate_from_metadata(&[]), Err(MergeError::BitrateDetectionFailed)));
}

#[test]
fn most_common_bitrate_prefers_first_of_equals() {
    assert_eq!(most_common_bitrate(&vec![]), None);
    assert_eq!(most_common_bitrate(&vec![96, 128, 128, 96]), Some(96));
    assert_eq!(most_common_bitrate(&vec![96, 128, 128]), Some(128));
    let files = vec![with_bitrate("/t/a.mp3", 96), audio("/t/b.mp3"), with_bitrate("/t/c.mp3", 0)];
    assert_eq!(known_bitrates_of(&files), vec![96]);
}

#[test]
fn bitrate_from_probe_uses_kilobits() {
    let m = AudioMetadata {
        duration: None,
        bitrate: Some(190_500),
        sample_rate: None,
        channels: None,
        codec: None,
        format_name: None,
        format_long_name: None,
        tags: None,
    };
    assert_eq!(Merger::bitrate_from_probe(Ok(m)).unwrap(), 192);
    let none = AudioMetadata::default();
    assert!(matches!(Merger::bitrate_from_probe(Ok(none)), Err(MergeError::BitrateDetectionFailed)));
    assert!(matches!(
        Merger::bitrate_from_probe(Err(FFmpegError::DiscoveryFailed)),
        Err(MergeError::FFmpeg(_))
    ));
}

#[test]
fn target_bitrate_prefers_job_then_detection_then_default() {
    assert_eq!(choose_target_bitrate(MergeMode::Copy, Some(64), Some(96)), None);
    assert_eq!(choose_target_bitrate(MergeMode::Transcode, Some(64), Some(96)), Some(64));
    assert_eq!(choose_target_bitrate(MergeMode::Transcode, None, Some(96)), Some(96));
    assert_eq!(choose_target_bitrate(MergeMode::Transcode, None, None), Some(128));
}

#[test]
fn ffmpeg_arguments_for_concat_and_single_file() {
    let job = MergeJob::new(vec![audio("/t/a.mp3"), audio("/t/b.mp3")], "/o/out.m4b".to_string())
        .with_threads(2);
    let args = concat_merge_args(&job, "/tmp/list.txt", Some(96));
    assert_eq!(
        args,
        vec![
            "-threads", "2", "-f", "concat", "-safe", "0", "-i", "/tmp/list.txt", "-c:a", "aac",
            "-b:a", "96k", "-y", "/o/out.m4b"
        ]
    );
    assert_eq!(
        single_file_args("/t/a.m4a", "/o/out.m4b", None),
        vec!["-i", "/t/a.m4a", "-c", "copy", "-y", "/o/out.m4b"]
    );
}

#[test]
fn concat_list_escapes_quotes() {
    let content = concat_list_content(&["/a/it's.mp3".to_string(), "/b/x.mp3".to_string()]);
    assert_eq!(content, "file '/a/it'\\''s.mp3'\nfile '/b/x.mp3'\n");
}

#[test]
fn merge_outcomes() {
    match concat_merge_outcome(false, None, false, "/o.m4b") {
        Err(MergeError::OperationFailed(m)) => assert_eq!(m, "FFmpeg exited with code -1"),
        other => panic!("unexpected: {other:?}"),
    }
    match concat_merge_outcome(true, Some(0), false, "/o.m4b") {
        Err(MergeError::OperationFailed(m)) => assert_eq!(m, "Output file was not created"),
        other => panic!("unexpected: {other:?}"),
    }
    assert_eq!(concat_merge_outcome(true, Some(0), true, "/o.m4b").unwrap(), "/o.m4b");
    match single_copy_outcome(false, b"bad input", "/o.m4b") {
        Err(MergeError::OperationFailed(m)) => assert_eq!(m, "FFmpeg failed: bad input"),
        other => panic!("unexpected: {other:?}"),
    }
}

#[test]
fn time_parse_errors_name_the_field() {
    match parse_ffmpeg_time("12:30") {
        Err(MergeError::ProgressParseError(m)) => assert_eq!(m, "Invalid time format: 12:30"),
        other => panic!("unexpected: {other:?}"),
    }
    match parse_ffmpeg_time("aa:00:00.0") {
        Err(MergeError::ProgressParseError(m)) => assert_eq!(m, "Invalid hours: aa"),
        other => panic!("unexpected: {other:?}"),
    }
    match parse_ffmpeg_time("00:00:x") {
        Err(MergeError::ProgressParseError(m)) => assert_eq!(m, "Invalid seconds: x"),
        other => panic!("unexpected: {other:?}"),
    }
    assert_eq!(parse_ffmpeg_time("00:00:01.123456789").unwrap(), Duration::new(1, 123_456_789));
}

#[test]
fn progress_lines_give_time_bitrate_and_speed() {
    let line = "size=    1024kB time=00:01:30.50 bitrate= 128.0kbits/s speed=2.5x";
    let p = read_progress_line(line).unwrap();
    assert_eq!(p.time, "00:01:30.50");
    assert_eq!(p.bitrate.as_deref(), Some("128.0"));
    assert_eq!(p.speed.as_deref(), Some("2.5"));
    assert_eq!(parse_ffmpeg_time(&p.time).unwrap(), Duration::from_millis(90_500));
    let no_bitrate = read_progress_line("frame=1 time=01:00:00.00 size=N/A speed=1x").unwrap();
    assert_eq!(no_bitrate.time, "01:00:00.00");
    assert_eq!(no_bitrate.bitrate, None);
    assert_eq!(no_bitrate.speed.as_deref(), Some("1"));
    assert!(read_progress_line("Input #0, mp3, from 'a.mp3':").is_none());
}

#[test]
fn times_fit_unless_seconds_overflow() {
    assert!(fits_in_time("01:30:45.25"));
    assert!(fits_in_time("not a time"));
    assert!(fits_in_time("0000000000000000000000:00:00.00"));
    assert!(!fits_in_time("5124095576030432:00:00.00"));
    assert!(!fits_in_time("0:0:18446744073709551616.5"));
}

#[test]
fn builder_keeps_last_call_of_each_setter() {
    let job = MergeJobBuilder::new()
        .output("/out/a.m4b")
        .bitrate(96)
        .threads(2)
        .output("/out/b.m4b")
        .bitrate(192)
        .build()
        .unwrap();
    assert_eq!(job.output_path, "/out/b.m4b");
    assert_eq!(job.target_bitrate, Some(192));
    assert_eq!(job.num_threads, Some(2));
    assert!(job.input_files.is_empty());
    assert!(matches!(MergeJobBuilder::new().bitrate(64).threads(1).build(), Err(MergeError::NoOutputPath)));
}

#[test]
fn merge_steps_for_several_files_in_copy_mode() {
    let job = MergeJob::new(vec![audio("/in/a.m4b"), audio("/in/b.m4b")], "/out/book/x.m4b".to_string());
    let (state, action) = merge_step(&job, MergeState::new(), MergeEvent::Begin);
    assert!(matches!(action, MergeAction::CheckFiles));
    let (state, action) = merge_step(&job, state, MergeEvent::FilesChecked(vec![true, true]));
    assert!(matches!(action, MergeAction::WriteList));
    assert_eq!(state.target_bitrate, None);
    let (state, action) = merge_step(&job, state, MergeEvent::ListWritten(Ok("/tmp/list.txt".to_string())));
    assert!(matches!(&action, MergeAction::PrepareDir(Some(d)) if d == "/out/book"));
    let (state, action) = merge_step(&job, state, MergeEvent::DirPrepared(Ok(())));
    match &action {
        MergeAction::RunConcat(args) => assert_eq!(args, &concat_merge_args(&job, "/tmp/list.txt", None)),
        _ => panic!("expected a concat run"),
    }
    let (state, action) = merge_step(&job, state, MergeEvent::ConcatRan(Ok((true, Some(0), true))));
    assert_eq!(state.phase, MergePhase::Done);
    assert!(matches!(action, MergeAction::Finish(Ok(ref p)) if p == "/out/book/x.m4b"));
}

#[test]
fn merge_steps_detect_bitrate_and_copy_a_single_file() {
    let job = MergeJob::new(vec![audio("/in/a.mp3")], "/out/x.m4b".to_string());
    assert_eq!(job.mode, MergeMode::Transcode);
    let (state, _) = merge_step(&job, MergeState::new(), MergeEvent::Begin);
    let (state, action) = merge_step(&job, state, MergeEvent::FilesChecked(vec![true]));
    assert!(matches!(action, MergeAction::DetectBitrate));
    let (state, _) = merge_step(&job, state, MergeEvent::BitrateDetected(None));
    assert_eq!(state.target_bitrate, Some(128));
    let (state, _) = merge_step(&job, state, MergeEvent::ListWritten(Ok("/tmp/l".to_string())));
    let (state, action) = merge_step(&job, state, MergeEvent::DirPrepared(Ok(())));
    match &action {
        MergeAction::RunSingle(args) => assert_eq!(args, &single_file_args("/in/a.mp3", "/out/x.m4b", Some(128))),
        _ => panic!("expected a single copy"),
    }
    let (_, action) = merge_step(&job, state, MergeEvent::SingleRan(Ok((false, b"boom".to_vec()))));
    assert!(matches!(action, MergeAction::Finish(Err(MergeError::OperationFailed(ref m))) if m == "FFmpeg failed: boom"));
}

#[test]
fn merge_steps_stop_at_a_missing_file() {
    let job = MergeJob::new(vec![audio("/in/a.m4b"), audio("/in/b.m4b")], "/out/x.m4b".to_string());
    let (state, _) = merge_step(&job, MergeState::new(), MergeEvent::Begin);
    let (state, action) = merge_step(&job, state, MergeEvent::FilesChecked(vec![true, false]));
    assert_eq!(state.phase, MergePhase::Done);
    assert!(matches!(action, MergeAction::Finish(Err(MergeError::FFmpeg(FFmpegError::FileNotFound(ref p)))) if p == "/in/b.m4b"));
}
