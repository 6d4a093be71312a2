use ytmp3::cli::Format;
use ytmp3::http::{
    content_length, handle_request, http_response, is_header_end, request_path, route, Route,
    HTML_TYPE, JSON_TYPE,
};
use ytmp3::jobs::{job_id_from_path, progress_message, JobState, JobTable};
use ytmp3::ui::{
    download_response, escape_html, escape_json, form_value, page, progress_panel,
    progress_script, ErrorStatus,
};

#[test]
fn escape_html_entities() {
    assert_eq!(escape_html("a < b & \"c\" > d"), "a &lt; b &amp; &quot;c&quot; &gt; d");
    assert_eq!(escape_html("&lt;"), "&amp;lt;");
    assert_eq!(escape_html("plain 'text' é"), "plain 'text' é");
    assert_eq!(escape_html(""), "");
}

#[test]
fn escape_html_distinct_inputs_stay_distinct() {
    assert_ne!(escape_html("<"), escape_html("&lt;"));
    for s in ["<a href=\"x\">", "1 > 0 & 2 < 3"] {
        let e = escape_html(s);
        assert!(!e.contains('<') && !e.contains('>') && !e.contains('"'));
    }
}

#[test]
fn escape_json_escapes() {
    assert_eq!(escape_json("a\"b\\c\nd\re"), "a\\\"b\\\\c\\nd\\re");
    assert_eq!(escape_json("tab\tkept"), "tab\tkept");
    let e = escape_json("line1\nline2\r\n");
    assert!(!e.contains('\n') && !e.contains('\r'));
    assert_ne!(escape_json("\\n"), escape_json("\n"));
}

#[test]
fn form_value_first_match_or_empty() {
    let form = vec![
        ("url".to_string(), "first".to_string()),
        ("url".to_string(), "second".to_string()),
        ("format".to_string(), "m4a".to_string()),
    ];
    assert_eq!(form_value(&form, "url"), "first");
    assert_eq!(form_value(&form, "format"), "m4a");
    assert_eq!(form_value(&form, "bitrate"), "");
    assert_eq!(form_value(&[], "url"), "");
}

#[test]
fn page_without_status_or_job() {
    let p = page(None, None);
    assert!(p.starts_with("<!doctype html>\n<html lang=\"en\">"));
    assert!(p.ends_with("</main>\n  \n</body>\n</html>"));
    assert!(p.contains("<form method=\"post\" action=\"/download\">"));
    assert!(p.contains("    :root {\n      color-scheme: light dark;"));
    assert!(!p.contains("class=\"status error\""));
    assert!(!p.contains("<script>"));
}

#[test]
fn page_with_error_status_escapes() {
    let p = page(Some(ErrorStatus("Bad <url> & \"x\"".to_string())), None);
    assert!(p.contains(
        "</form>\n    <p class=\"status error\">Bad &lt;url&gt; &amp; &quot;x&quot;</p>\n    \n  </main>"
    ));
}

#[test]
fn page_with_job() {
    let p = page(None, Some(42));
    assert!(p.contains("<section class=\"progress\" data-job-id=\"42\">"));
    assert!(p.contains("const jobId = 42;"));
    assert!(p.contains(&progress_panel(42)));
    assert!(p.ends_with(&format!("{}\n</body>\n</html>", progress_script(42))));
}

#[test]
fn progress_panel_and_script() {
    let panel = progress_panel(7);
    assert!(panel.starts_with("<section class=\"progress\" data-job-id=\"7\">"));
    assert!(panel.contains("<span id=\"progress-percent\">0%</span>"));
    assert!(panel.ends_with("</section>"));
    let script = progress_script(18446744073709551615);
    assert!(script.starts_with("<script>\n    const jobId = 18446744073709551615;\n"));
    assert!(script.contains("fetch(`/progress?id=${jobId}`, { cache: \"no-store\" })"));
    assert!(script.ends_with("pollProgress();\n  </script>"));
}

#[test]
fn job_table_lifecycle() {
    let mut jobs = JobTable::new();
    let id = jobs.create("Preparing download...");
    assert_eq!(id, 1);
    assert_eq!(jobs.create("other"), 2);
    let path = format!("/progress?id={}", id);
    assert_eq!(
        jobs.progress_json(&path),
        "{\"done\":false,\"success\":false,\"pct\":0,\"message\":\"Preparing download...\",\"detail\":\"\"}"
    );
    jobs.update(id, "42.5", "1.2MiB/s - ETA 00:03");
    assert_eq!(
        jobs.progress_json(&path),
        "{\"done\":false,\"success\":false,\"pct\":42.5,\"message\":\"1.2MiB/s - ETA 00:03\",\"detail\":\"\"}"
    );
    jobs.finish(id, Ok("/music/a \"b\".mp3".to_string()));
    assert_eq!(
        jobs.progress_json(&path),
        "{\"done\":true,\"success\":true,\"pct\":100,\"message\":\"Done\",\"detail\":\"Saved: /music/a \\\"b\\\".mp3\"}"
    );
}

#[test]
fn job_table_failure_messages() {
    let mut jobs = JobTable::new();
    let a = jobs.create("Preparing download...");
    jobs.finish(a, Err("yt-dlp failed\nexit 1".to_string()));
    assert_eq!(
        jobs.progress_json("/progress?id=1"),
        "{\"done\":true,\"success\":false,\"pct\":0,\"message\":\"Failed\",\"detail\":\"yt-dlp failed\\nexit 1\"}"
    );
    let b = jobs.create("x");
    jobs.update(b, "12", "Finding filename...");
    jobs.finish(b, Err("boom".to_string()));
    assert_eq!(
        jobs.progress_json("/progress?id=2"),
        "{\"done\":true,\"success\":false,\"pct\":12,\"message\":\"Finding filename...\",\"detail\":\"boom\"}"
    );
    // finishing an unknown job records it
    jobs.finish(99, Err("late".to_string()));
    assert_eq!(
        jobs.progress_json("/progress?id=99"),
        "{\"done\":true,\"success\":false,\"pct\":0,\"message\":\"Finishing...\",\"detail\":\"late\"}"
    );
}

#[test]
fn job_table_update_unknown_is_ignored() {
    let mut jobs = JobTable::new();
    jobs.update(5, "50", "x");
    assert_eq!(
        jobs.progress_json("/progress?id=5"),
        "{\"done\":true,\"success\":false,\"pct\":0,\"message\":\"Job not found\",\"detail\":\"\"}"
    );
}

#[test]
fn progress_missing_id() {
    let jobs = JobTable::new();
    let missing = "{\"done\":true,\"success\":false,\"pct\":0,\"message\":\"Missing job id\",\"detail\":\"\"}";
    assert_eq!(jobs.progress_json("/progress"), missing);
    assert_eq!(jobs.progress_json("/progress?job=1"), missing);
    assert_eq!(jobs.progress_json("/progress?id=abc"), missing);
    assert_eq!(jobs.progress_json("/progress?id=-1"), missing);
}

#[test]
fn job_ids_from_paths() {
    assert_eq!(job_id_from_path("/progress?id=12"), Some(12));
    assert_eq!(job_id_from_path("/progress?x=1&id=+7&id=9"), Some(7));
    assert_eq!(job_id_from_path("/progress?idx=1&id=3"), Some(3));
    assert_eq!(job_id_from_path("/progress?id=1&id=2"), Some(1));
    assert_eq!(job_id_from_path("/progress?id=x&id=2"), None);
    assert_eq!(job_id_from_path("/progress?id="), None);
    assert_eq!(job_id_from_path("/progress?id=18446744073709551615"), Some(u64::MAX));
    assert_eq!(job_id_from_path("/progress?id=18446744073709551616"), None);
    assert_eq!(job_id_from_path("/a?b?id=4"), None);
    assert_eq!(job_id_from_path("/progress"), None);
    for id in [0u64, 1, 42, 1000, u64::MAX] {
        assert_eq!(job_id_from_path(&format!("/progress?id={}", id)), Some(id));
    }
}

#[test]
fn pending_job_state() {
    let j = JobState::pending("Preparing download...");
    assert_eq!(j.pct, "0");
    assert_eq!(j.message, "Preparing download...");
    assert!(!j.done && !j.success);
    assert_eq!(j.detail, "");
}

#[test]
fn progress_messages() {
    assert_eq!(progress_message("2.3MiB/s", "00:12"), "2.3MiB/s - ETA 00:12");
}

#[test]
fn download_response_without_url() {
    let mut jobs = JobTable::new();
    let r = download_response(b"url=++&bitrate=128", &mut jobs);
    assert!(r.job.is_none());
    assert_eq!(r.page, page(Some(ErrorStatus("Paste a URL first.".to_string())), None));
    assert!(r.page.contains("<p class=\"status error\">Paste a URL first.</p>"));
    // no job was created
    assert_eq!(jobs.create("x"), 1);
}

#[test]
fn download_response_with_url() {
    let mut jobs = JobTable::new();
    let body = b"url=+https%3A%2F%2Fyoutu.be%2Fabc+&bitrate=999&format=OPUS&output_dir=+%2Ftmp%2Fout+";
    let r = download_response(body, &mut jobs);
    let (id, cli) = r.job.expect("a job");
    assert_eq!(id, 1);
    assert_eq!(cli.url.as_deref(), Some("https://youtu.be/abc"));
    assert_eq!(cli.output_dir.as_deref(), Some("/tmp/out"));
    assert_eq!(cli.bitrate, 320);
    assert_eq!(cli.format, Format::Opus);
    assert!(cli.quiet && !cli.ui);
    assert_eq!(cli.ui_host, "127.0.0.1");
    assert_eq!(cli.ui_port, 8787);
    assert_eq!(r.page, page(None, Some(1)));
    assert_eq!(
        jobs.progress_json("/progress?id=1"),
        "{\"done\":false,\"success\":false,\"pct\":0,\"message\":\"Preparing download...\",\"detail\":\"\"}"
    );
}

#[test]
fn download_response_defaults() {
    let mut jobs = JobTable::new();
    let r = download_response(b"url=x&bitrate=abc&format=wav&output_dir=", &mut jobs);
    let (_, cli) = r.job.unwrap();
    assert_eq!(cli.bitrate, 128);
    assert_eq!(cli.format, Format::Mp3);
    assert_eq!(cli.output_dir, None);
    let r = download_response(b"url=x&bitrate=5", &mut jobs);
    assert_eq!(r.job.unwrap().1.bitrate, 32);
    let r = download_response(b"url=x&bitrate=99999999999", &mut jobs);
    assert_eq!(r.job.unwrap().1.bitrate, 128);
    let r = download_response(b"url=x&bitrate=%2B200", &mut jobs);
    assert_eq!(r.job.unwrap().1.bitrate, 200);
    let r = download_response(b"url=x&bitrate=%20200", &mut jobs);
    assert_eq!(r.job.unwrap().1.bitrate, 128);
}

#[test]
fn routes() {
    assert_eq!(route("POST /download HTTP/1.1\r\n"), Route::Download);
    assert_eq!(route("POST /downloads HTTP/1.1\r\n"), Route::Page);
    assert_eq!(route("GET /progress?id=1 HTTP/1.1\r\n"), Route::Progress);
    assert_eq!(route("GET / HTTP/1.1\r\n"), Route::Page);
    assert_eq!(route(""), Route::Page);
}

#[test]
fn request_paths() {
    assert_eq!(request_path("GET /progress?id=3 HTTP/1.1\r\n"), "/progress?id=3");
    assert_eq!(request_path("  GET\t /x  "), "/x");
    assert_eq!(request_path("GET"), "/");
    assert_eq!(request_path(""), "/");
}

#[test]
fn header_lines() {
    assert_eq!(content_length("Content-Length: 42\r\n"), Some(42));
    assert_eq!(content_length("Content-Length:7"), Some(7));
    assert_eq!(content_length("Content-Length: abc\r\n"), Some(0));
    assert_eq!(content_length("content-length: 42\r\n"), None);
    assert_eq!(content_length("Host: x\r\n"), None);
    assert!(is_header_end("\r\n"));
    assert!(is_header_end(""));
    assert!(!is_header_end("\n"));
    assert!(!is_header_end("Host: x\r\n"));
}

#[test]
fn http_response_framing() {
    assert_eq!(
        http_response("text/plain", "héllo"),
        "HTTP/1.1 200 OK\r\nContent-Type: text/plain\r\nContent-Length: 6\r\nConnection: close\r\n\r\nhéllo"
    );
    let r = http_response(JSON_TYPE, "");
    assert!(r.ends_with("Content-Length: 0\r\nConnection: close\r\n\r\n"));
    // the Content-Length line reads back as the body's length
    let body = page(None, None);
    let r = http_response(HTML_TYPE, &body);
    let line = r.lines().find(|l| l.starts_with("Content-Length:")).unwrap();
    assert_eq!(content_length(line), Some(body.len()));
}

#[test]
fn handle_request_routes() {
    let mut jobs = JobTable::new();
    let r = handle_request("GET / HTTP/1.1\r\n", b"", &mut jobs);
    assert_eq!(r.content_type, HTML_TYPE);
    assert_eq!(r.body, page(None, None));
    assert!(r.job.is_none());

    let r = handle_request("POST /download HTTP/1.1\r\n", b"url=https%3A%2F%2Fa.b", &mut jobs);
    assert_eq!(r.content_type, HTML_TYPE);
    let (id, cli) = r.job.unwrap();
    assert_eq!(cli.url.as_deref(), Some("https://a.b"));
    assert_eq!(r.body, page(None, Some(id)));

    let r = handle_request(&format!("GET /progress?id={} HTTP/1.1\r\n", id), b"", &mut jobs);
    assert_eq!(r.content_type, JSON_TYPE);
    assert_eq!(
        r.body,
        "{\"done\":false,\"success\":false,\"pct\":0,\"message\":\"Preparing download...\",\"detail\":\"\"}"
    );
    assert!(r.job.is_none());
}
