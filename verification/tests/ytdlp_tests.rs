use ytmp3::cli::{choose_output_dir, Cli, Format};
use ytmp3::error::{describe, exit_code, AppError};
use ytmp3::ytdlp::{
    classify_exit, common_args, download_args, exit_outcome, filename_line_of, map_spawn_err,
    probe_args, probe_result, required_url, spawn_error, ExitOutcome,
};

fn cli(url: Option<&str>, format: Format, bitrate: u32) -> Cli {
    Cli {
        url: url.map(|u| u.to_string()),
        output_dir: None,
        bitrate,
        format,
        quiet: false,
        ui: false,
        ui_host: "127.0.0.1".to_string(),
        ui_port: 8787,
    }
}

#[test]
fn common_args_trims_trailing_slashes() {
    let c = cli(Some("u"), Format::M4a, 128);
    let args = common_args(&c, "/home/me/Music///");
    assert_eq!(
        args,
        vec![
            "--no-playlist",
            "--restrict-filenames",
            "--extract-audio",
            "--audio-format",
            "m4a",
            "-o",
            "/home/me/Music/%(title)s.%(ext)s",
        ]
    );
}

#[test]
fn common_args_root_dir() {
    let c = cli(Some("u"), Format::Mp3, 128);
    let args = common_args(&c, "/");
    assert_eq!(args[4], "mp3");
    assert_eq!(args[6], "/%(title)s.%(ext)s");
}

#[test]
fn required_url_present_and_missing() {
    let c = cli(Some("https://youtu.be/x"), Format::Mp3, 128);
    assert_eq!(required_url(&c).unwrap(), "https://youtu.be/x");
    let c = cli(None, Format::Mp3, 128);
    match required_url(&c) {
        Err(AppError::Other(m)) => assert_eq!(m, "missing URL; pass a URL or use --ui"),
        other => panic!("unexpected {:?}", other),
    }
}

#[test]
fn probe_args_list() {
    let c = cli(Some("https://x.com/a/status/1"), Format::Opus, 96);
    let args = probe_args(&c, "out").unwrap();
    assert_eq!(
        args,
        vec![
            "--no-playlist",
            "--restrict-filenames",
            "--extract-audio",
            "--audio-format",
            "opus",
            "-o",
            "out/%(title)s.%(ext)s",
            "--simulate",
            "--print",
            "filename",
            "https://x.com/a/status/1",
        ]
    );
    assert!(probe_args(&cli(None, Format::Opus, 96), "out").is_err());
}

#[test]
fn download_args_list() {
    let c = cli(Some("https://youtu.be/dQw4w9WgXcQ"), Format::Mp3, 320);
    let args = download_args(&c, "/tmp/").unwrap();
    assert_eq!(
        args,
        vec![
            "--no-playlist",
            "--restrict-filenames",
            "--extract-audio",
            "--audio-format",
            "mp3",
            "-o",
            "/tmp/%(title)s.%(ext)s",
            "--newline",
            "--audio-quality",
            "320K",
            "--progress-template",
            "download:PROGRESS %(progress._percent_str)s %(progress._speed_str)s %(progress._eta_str)s",
            "https://youtu.be/dQw4w9WgXcQ",
        ]
    );
    let c = cli(Some("u"), Format::Mp3, 0);
    assert_eq!(download_args(&c, "d").unwrap()[9], "0K");
    assert!(matches!(download_args(&cli(None, Format::Mp3, 1), "d"), Err(AppError::Other(_))));
}

#[test]
fn filename_is_last_meaningful_line() {
    let out = "WARNING: something\n/tmp/My_Song.webm\r\n   \nWARNING: late\n";
    assert_eq!(filename_line_of(out).as_deref(), Some("/tmp/My_Song.webm"));
    assert_eq!(filename_line_of("  a  \n  b  ").as_deref(), Some("b"));
    assert_eq!(filename_line_of(""), None);
    assert_eq!(filename_line_of("\n\n  \nWARNING: x"), None);
    assert_eq!(filename_line_of("WARNING:x\n WARNING: y \n"), None);
    assert_eq!(filename_line_of("warning: lower\n").as_deref(), Some("warning: lower"));
}

#[test]
fn classify_exit_detects_missing_ffmpeg() {
    let e = classify_exit(1, b"ERROR: ffprobe and FFmpeg not found. Please install");
    assert!(matches!(e, AppError::FfmpegMissing));
    let e = classify_exit(1, b"ERROR: Postprocessing: ffmpeg not installed");
    assert!(matches!(e, AppError::FfmpegMissing));
    let e = classify_exit(2, b"could not find FFMPEG");
    assert!(matches!(e, AppError::FfmpegMissing));
}

#[test]
fn classify_exit_keeps_code_and_trimmed_text() {
    let e = classify_exit(2, b"  \nERROR: Unsupported URL: x\n\n");
    match e {
        AppError::YtDlp { code, stderr } => {
            assert_eq!(code, 2);
            assert_eq!(stderr, "ERROR: Unsupported URL: x");
        }
        other => panic!("unexpected {:?}", other),
    }
    // mentions ffmpeg but not as missing
    match classify_exit(7, b"ffmpeg version 6 crashed") {
        AppError::YtDlp { code, stderr } => {
            assert_eq!(code, 7);
            assert_eq!(stderr, "ffmpeg version 6 crashed");
        }
        other => panic!("unexpected {:?}", other),
    }
}

#[test]
fn classify_exit_replaces_invalid_utf8() {
    match classify_exit(1, b"bad \xff byte") {
        AppError::YtDlp { stderr, .. } => assert_eq!(stderr, "bad \u{FFFD} byte"),
        other => panic!("unexpected {:?}", other),
    }
}

#[test]
fn probe_result_success_sets_extension() {
    let r = probe_result(Some(0), b"WARNING: x\n/music/Song_Name.webm\n", b"", Format::Mp3);
    assert_eq!(r.unwrap(), "/music/Song_Name.mp3");
    let r = probe_result(Some(0), b"/music/Track\n", b"", Format::Opus);
    assert_eq!(r.unwrap(), "/music/Track.opus");
}

#[test]
fn probe_result_without_filename() {
    match probe_result(Some(0), b"WARNING: only warnings\n\n", b"", Format::Mp3) {
        Err(AppError::YtDlp { code, stderr }) => {
            assert_eq!(code, 0);
            assert_eq!(stderr, "yt-dlp produced no filename in dry-run");
        }
        other => panic!("unexpected {:?}", other),
    }
}

#[test]
fn probe_result_failure_classifies() {
    match probe_result(Some(1), b"/x.webm\n", b" ERROR: boom ", Format::Mp3) {
        Err(AppError::YtDlp { code, stderr }) => {
            assert_eq!(code, 1);
            assert_eq!(stderr, "ERROR: boom");
        }
        other => panic!("unexpected {:?}", other),
    }
    match probe_result(None, b"", b"killed", Format::Mp3) {
        Err(AppError::YtDlp { code, .. }) => assert_eq!(code, -1),
        other => panic!("unexpected {:?}", other),
    }
}

#[test]
fn spawn_errors() {
    let nf = std::io::Error::new(std::io::ErrorKind::NotFound, "no such file");
    assert!(matches!(map_spawn_err(nf), AppError::YtDlpMissing));
    let pd = std::io::Error::new(std::io::ErrorKind::PermissionDenied, "denied");
    assert!(matches!(map_spawn_err(pd), AppError::Spawn(_)));
    let e = std::io::Error::new(std::io::ErrorKind::Other, "x");
    assert!(matches!(spawn_error(true, e), AppError::YtDlpMissing));
    let e = std::io::Error::new(std::io::ErrorKind::Other, "x");
    assert!(matches!(spawn_error(false, e), AppError::Spawn(_)));
}

#[test]
fn exit_outcomes() {
    assert_eq!(exit_outcome(false, Some(0)), ExitOutcome::Completed);
    assert_eq!(exit_outcome(false, Some(3)), ExitOutcome::Failed(3));
    assert_eq!(exit_outcome(false, None), ExitOutcome::Cancelled);
    // a cancel request wins over any exit code
    assert_eq!(exit_outcome(true, Some(0)), ExitOutcome::Cancelled);
    assert_eq!(exit_outcome(true, Some(1)), ExitOutcome::Cancelled);
}

#[test]
fn format_names_roundtrip() {
    for f in [Format::Mp3, Format::M4a, Format::Opus] {
        assert_eq!(Format::from_name(f.as_str(), false), Some(f));
        assert_eq!(Format::from_name(f.as_str(), true), Some(f));
    }
    assert_eq!(Format::from_name("OPUS", true), Some(Format::Opus));
    assert_eq!(Format::from_name("OPUS", false), None);
    assert_eq!(Format::from_name("flac", true), None);
    assert_eq!(Format::from_name("", true), None);
}

#[test]
fn exit_codes() {
    assert_eq!(exit_code(&AppError::YtDlpMissing), 2);
    assert_eq!(exit_code(&AppError::FfmpegMissing), 3);
    assert_eq!(exit_code(&AppError::Cancelled), 130);
    assert_eq!(exit_code(&AppError::Other("x".into())), 1);
    assert_eq!(exit_code(&AppError::YtDlp { code: 4, stderr: String::new() }), 1);
}

#[test]
fn output_dir_priority() {
    let s = |x: &str| Some(x.to_string());
    assert_eq!(choose_output_dir(s("/flag"), s("/env"), s("/wsl"), s("/home/Downloads")), s("/flag"));
    assert_eq!(choose_output_dir(None, s("/env"), s("/wsl"), s("/home/Downloads")), s("/env"));
    assert_eq!(choose_output_dir(None, s(""), s("/wsl"), s("/home/Downloads")), s("/wsl"));
    assert_eq!(choose_output_dir(None, None, None, s("/home/Downloads")), s("/home/Downloads"));
    assert_eq!(choose_output_dir(None, None, None, None), None);
}

#[test]
fn describe_texts() {
    assert_eq!(describe(&AppError::YtDlpMissing), "yt-dlp not found on PATH");
    assert_eq!(describe(&AppError::FfmpegMissing), "ffmpeg not found on PATH");
    assert_eq!(describe(&AppError::Cancelled), "cancelled");
    assert_eq!(describe(&AppError::Other("x y".into())), "x y");
    assert_eq!(
        describe(&AppError::YtDlp { code: -3, stderr: "boom".into() }),
        "yt-dlp failed (exit -3): boom"
    );
    assert_eq!(
        describe(&AppError::YtDlp { code: i32::MIN, stderr: String::new() }),
        "yt-dlp failed (exit -2147483648): "
    );
    assert_eq!(describe(&AppError::YtDlp { code: 1, stderr: "e".into() }), "yt-dlp failed (exit 1): e");
    let t = describe(&AppError::Io(std::io::Error::new(std::io::ErrorKind::Other, "disk full")));
    assert_eq!(t, "I/O error: disk full");
    let t = describe(&AppError::Spawn(std::io::Error::new(std::io::ErrorKind::Other, "nope")));
    assert_eq!(t, "failed to start yt-dlp: nope");
}

#[test]
fn probe_result_extension_for_each_format() {
    for (f, ext) in [(Format::Mp3, "mp3"), (Format::M4a, "m4a"), (Format::Opus, "opus")] {
        let r = probe_result(Some(0), b"/d/a.b.webm\n", b"", f).unwrap();
        assert_eq!(r, format!("/d/a.b.{}", ext));
    }
}
