use m4b_merge::duration::Duration;
use m4b_merge::ffmpeg::{
    assemble_metadata, check_outcome, concat_file_list_given, duration_or_missing, exit_error, has_codec_in,
    located_path, parse_audio_codecs, stdout_text, AudioMetadata, FFmpeg, FFmpegError,
    FFmpegVersion, ProbeFormat, ProbeStream,
};

const CODECS: &str = " DEA.L. aac                  AAC (Advanced Audio Coding)\n D.V.L. h264                 H.264 / AVC\n DEA.LS mp3                  MP3 (MPEG audio layer 3)\n";

#[test]
fn test_has_codec_aac() {
    let codecs = parse_audio_codecs(CODECS);
    let has_aac = has_codec_in(&codecs, "aac");
    assert!(has_aac, "AAC codec should be present");
}

#[test]
fn test_ffmpeg_version_parse() {
    let version_output = r#"ffmpeg version N-71064-gd5e603ddc0-static https://johnvansickle.com/ffmpeg/  Copyright (c) 2000-2024 the FFmpeg developers
built with gcc 8 (Debian 8.3.0-6)
configuration: --enable-gpl
libavutil      59. 27.100 / 59. 27.100
libavcodec     61.  9.100 / 61.  9.100"#;
    let version = FFmpegVersion::parse(version_output).unwrap();
    assert_eq!(version.version, "N-71064-gd5e603ddc0-static");
    assert!(!version.libraries.is_empty());
}

#[test]
fn ffmpeg_test_error_display() {
    let err = FFmpegError::DiscoveryFailed;
    assert_eq!(err.to_string(), "FFmpeg binary not found in PATH or common locations");
    let err = FFmpegError::FileNotFound("/test".to_string());
    assert!(err.to_string().contains("/test"));
}

#[test]
fn test_prepare_concat_file_list_empty() {
    let ffmpeg = FFmpeg::with_paths("ffmpeg".to_string(), "ffprobe".to_string());
    let files: Vec<String> = vec![];
    let result = ffmpeg.create_concat_file_list(&files);
    assert!(matches!(result, Err(FFmpegError::ParseError(_))));
}

#[test]
fn test_prepare_concat_file_list_nonexistent() {
    let ffmpeg = FFmpeg::with_paths("ffmpeg".to_string(), "ffprobe".to_string());
    let files = vec!["/nonexistent/file.mp3".to_string()];
    let result = ffmpeg.create_concat_file_list(&files);
    assert!(matches!(result, Err(FFmpegError::FileNotFound(_))));
}

#[test]
fn test_create_concat_file_list() {
    let ffmpeg = FFmpeg::with_paths("ffmpeg".to_string(), "ffprobe".to_string());
    let temp_file1 = tempfile::NamedTempFile::new().unwrap();
    let temp_file2 = tempfile::NamedTempFile::new().unwrap();
    let p1 = temp_file1.path().to_string_lossy().to_string();
    let p2 = temp_file2.path().to_string_lossy().to_string();
    let result = ffmpeg.create_concat_file_list(&[p1.clone(), p2.clone()]);
    assert!(result.is_ok());
    let content = result.unwrap();
    assert!(content.contains("file '"));
    assert!(content.contains(&p1));
    assert!(content.contains(&p2));
}

#[test]
fn version_parse_reads_all_parts() {
    let out = "ffmpeg version 6.1 Copyright (c) 2000-2023\nbuilt with gcc 12\nconfiguration: --enable-gpl --enable-libmp3lame\nlibavutil      58. 29.100 / 58. 29.100\n";
    let v = FFmpegVersion::parse(out).unwrap();
    assert_eq!(v.version, "6.1");
    assert_eq!(v.built_with, "built with gcc 12");
    assert_eq!(v.configuration, vec!["--enable-gpl", "--enable-libmp3lame"]);
    assert_eq!(v.libraries.len(), 1);
    assert_eq!(v.libraries[0].name, "libavutil");
    assert_eq!(v.libraries[0].current_version, "58. 29.100");
    assert_eq!(v.libraries[0].compiled_version, "58. 29.100");
    assert!(matches!(FFmpegVersion::parse(""), Err(FFmpegError::ParseError(_))));
}

#[test]
fn codec_listing_keeps_audio_codecs_only() {
    let codecs = parse_audio_codecs(CODECS);
    assert_eq!(codecs, vec!["aac", "mp3"]);
    assert!(!has_codec_in(&codecs, "h264"));
}

#[test]
fn probe_results_make_metadata() {
    let format = ProbeFormat {
        duration: Some(Duration::from_secs(2)),
        bit_rate: Some("128000".to_string()),
        format_name: Some("mp3".to_string()),
        format_long_name: None,
        tags: None,
    };
    let streams = vec![
        ProbeStream {
            codec_type: "video".to_string(),
            codec_name: Some("png".to_string()),
            sample_rate: None,
            channels: None,
            duration: None,
            bit_rate: None,
        },
        ProbeStream {
            codec_type: "audio".to_string(),
            codec_name: Some("mp3".to_string()),
            sample_rate: Some("44100".to_string()),
            channels: Some(2),
            duration: Some(Duration::from_secs(3)),
            bit_rate: Some("1".to_string()),
        },
    ];
    let m = assemble_metadata(Some(format), Some(streams));
    assert_eq!(m.bitrate, Some(128000));
    assert_eq!(m.sample_rate, Some(44100));
    assert_eq!(m.channels, Some(2));
    assert_eq!(m.codec.as_deref(), Some("mp3"));
    assert_eq!(m.duration, Some(Duration::from_secs(2)));
    assert_eq!(m.format_name.as_deref(), Some("mp3"));
}

#[test]
fn missing_duration_is_no_audio_stream() {
    let m = AudioMetadata::default();
    assert!(matches!(duration_or_missing(&m, "/x.mp3"), Err(FFmpegError::NoAudioStream(_))));
}

#[test]
fn run_outcomes() {
    match exit_error(None, b"boom") {
        FFmpegError::NonZeroExit { code, stderr } => {
            assert_eq!(code, -1);
            assert_eq!(stderr, "boom");
        }
        other => panic!("unexpected: {other:?}"),
    }
    assert!(check_outcome(true, Some(0), b"").is_ok());
    assert_eq!(stdout_text(true, Some(0), b"hello".to_vec(), b"").unwrap(), "hello");
    assert!(matches!(
        stdout_text(true, Some(0), vec![0xff, 0xfe], b""),
        Err(FFmpegError::InvalidUtf8(_))
    ));
    assert_eq!(located_path(true, b"/usr/bin/ffmpeg\n").as_deref(), Some("/usr/bin/ffmpeg"));
    assert_eq!(located_path(false, b"/usr/bin/ffmpeg\n"), None);
}

#[test]
fn binaries_are_chosen_from_path_then_common_locations() {
    let found = FFmpeg::choose_binaries(
        Some(("/p/ffmpeg".to_string(), "/p/ffprobe".to_string())),
        vec![],
        &[],
    )
    .unwrap();
    assert_eq!(found.ffmpeg_path(), "/p/ffmpeg");
    let cands = m4b_merge::ffmpeg::common_candidates();
    assert_eq!(cands[0].0, "/usr/bin/ffmpeg");
    assert_eq!(cands[1].1, "/usr/local/bin/ffprobe");
    let chosen = FFmpeg::choose_binaries(None, cands, &[false, true, false, false, false]).unwrap();
    assert_eq!(chosen.ffprobe_path(), "/usr/local/bin/ffprobe");
    assert!(matches!(
        FFmpeg::choose_binaries(None, vec![], &[]),
        Err(FFmpegError::DiscoveryFailed)
    ));
}

#[test]
fn new_given_reports_ffmpeg_first() {
    assert!(matches!(FFmpeg::new_given("/a/ffmpeg", "/a/ffprobe", false, false), Err(FFmpegError::BinaryNotFound(p)) if p == "/a/ffmpeg"));
    assert!(matches!(FFmpeg::new_given("/a/ffmpeg", "/a/ffprobe", false, true), Err(FFmpegError::BinaryNotFound(p)) if p == "/a/ffmpeg"));
    assert!(matches!(FFmpeg::new_given("/a/ffmpeg", "/a/ffprobe", true, false), Err(FFmpegError::BinaryNotFound(p)) if p == "/a/ffprobe"));
    let f = FFmpeg::new_given("/a/ffmpeg", "/a/ffprobe", true, true).unwrap();
    assert_eq!(f.ffmpeg_path(), "/a/ffmpeg");
    assert_eq!(f.ffprobe_path(), "/a/ffprobe");
    assert!(f.cached_version().is_none());
}

#[test]
fn concat_list_given_reports_first_missing_file() {
    let files = vec!["/tmp/a.mp3".to_string(), "/tmp/it's.mp3".to_string(), "/tmp/c.mp3".to_string()];
    assert_eq!(
        concat_file_list_given(&files, &[true, true, true]).unwrap(),
        "file '/tmp/a.mp3'\nfile '/tmp/it'\\''s.mp3'\nfile '/tmp/c.mp3'\n"
    );
    assert!(matches!(concat_file_list_given(&files, &[true, false, false]), Err(FFmpegError::FileNotFound(p)) if p == "/tmp/it's.mp3"));
    assert!(matches!(concat_file_list_given(&[], &[]), Err(FFmpegError::ParseError(_))));
}
