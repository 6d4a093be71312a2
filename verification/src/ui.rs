//! The local web page: its HTML, the form it posts, the job table behind the
//! progress endpoint, and the framing of HTTP requests and replies.

use crate::cli::{format_from_name, format_name, Cli, Format};
use crate::jobs::{
    job_json, law_progress_reads_back, pending_view, preparing_message, progress_path,
    progress_reply, JobTable, JobView,
};
use crate::text::{
    owned,
    chars_of, decimal, flat, lemma_flat_avoids, lemma_flat_injective, lemma_flat_push,
    lowercase, parse_unsigned, parse_unsigned_spec, prefix_free, push_char, push_decimal, push_str, trim,
    trim_str,
};
use vstd::prelude::*;
use vstd::utf8::encode_utf8;

verus! {

// ---------------------------------------------------------------------------
// Escaping
// ---------------------------------------------------------------------------

/// The HTML replacement of one character: `&`, `<`, `>` and `"` become
/// entities, every other character stays.
pub open spec fn html_escape_char(c: char) -> Seq<char> {
    if c == '&' {
        "&amp;"@
    } else if c == '<' {
        "&lt;"@
    } else if c == '>' {
        "&gt;"@
    } else if c == '"' {
        "&quot;"@
    } else {
        seq![c]
    }
}

/// `s` with each character replaced by its HTML replacement (the same as
/// replacing `&`, then `<`, `>` and `"`, one after the other).
pub open spec fn html_escaped(s: Seq<char>) -> Seq<char> {
    flat(s, |c: char| html_escape_char(c))
}

/// The JSON replacement of one character: backslash, double quote, line
/// feed and carriage return get a backslash escape; every other character
/// stays.
pub open spec fn json_escape_char(c: char) -> Seq<char> {
    if c == '\\' {
        "\\\\"@
    } else if c == '"' {
        "\\\""@
    } else if c == '\n' {
        "\\n"@
    } else if c == '\r' {
        "\\r"@
    } else {
        seq![c]
    }
}

/// `s` with each character replaced by its JSON replacement.
pub open spec fn json_escaped(s: Seq<char>) -> Seq<char> {
    flat(s, |c: char| json_escape_char(c))
}

/// Text made safe to stand between HTML tags or in a quoted attribute.
pub fn escape_html(value: &str) -> (r: String)
    ensures
        r@ == html_escaped(value@),
{
    let v = chars_of(value);
    let mut r = String::new();
    let mut i: usize = 0;
    while i < v.len()
        invariant
            i <= v.len(),
            r@ == html_escaped(v@.take(i as int)),
        decreases v.len() - i,
    {
        let c = v[i];
        if c == '&' {
            push_str(&mut r, "&amp;");
        } else if c == '<' {
            push_str(&mut r, "&lt;");
        } else if c == '>' {
            push_str(&mut r, "&gt;");
        } else if c == '"' {
            push_str(&mut r, "&quot;");
        } else {
            push_char(&mut r, c);
        }
        proof {
            lemma_flat_push(v@.take(i as int), c, |c: char| html_escape_char(c));
            assert(v@.take(i + 1) =~= v@.take(i as int).push(c));
        }
        i = i + 1;
    }
    assert(v@.take(v.len() as int) =~= v@);
    r
}

/// Text made safe to stand inside a JSON string literal.
pub fn escape_json(value: &str) -> (r: String)
    ensures
        r@ == json_escaped(value@),
{
    let v = chars_of(value);
    let mut r = String::new();
    let mut i: usize = 0;
    while i < v.len()
        invariant
            i <= v.len(),
            r@ == json_escaped(v@.take(i as int)),
        decreases v.len() - i,
    {
        let c = v[i];
        if c == '\\' {
            push_str(&mut r, "\\\\");
        } else if c == '"' {
            push_str(&mut r, "\\\"");
        } else if c == '\n' {
            push_str(&mut r, "\\n");
        } else if c == '\r' {
            push_str(&mut r, "\\r");
        } else {
            push_char(&mut r, c);
        }
        proof {
            lemma_flat_push(v@.take(i as int), c, |c: char| json_escape_char(c));
            assert(v@.take(i + 1) =~= v@.take(i as int).push(c));
        }
        i = i + 1;
    }
    assert(v@.take(v.len() as int) =~= v@);
    r
}

proof fn lemma_html_code()
    ensures
        prefix_free(|c: char| html_escape_char(c)),
        forall|c: char, i: int|
            0 <= i < html_escape_char(c).len() ==> {
                let x = #[trigger] html_escape_char(c)[i];
                x != '<' && x != '>' && x != '"'
            },
{
    reveal_strlit("&amp;");
    reveal_strlit("&lt;");
    reveal_strlit("&gt;");
    reveal_strlit("&quot;");
    let f = |c: char| html_escape_char(c);
    assert forall|c1: char, c2: char|
        #![trigger f(c1), f(c2)]
        f(c1).len() <= f(c2).len() && f(c2).subrange(0, f(c1).len() as int) == f(c1) implies c1
        == c2 by {
        let x = f(c1);
        let y = f(c2);
        assert(x[0] == y.subrange(0, x.len() as int)[0]);
        if x.len() > 1 {
            assert(x[1] == y.subrange(0, x.len() as int)[1]);
        }
    }
}

proof fn lemma_json_code()
    ensures
        prefix_free(|c: char| json_escape_char(c)),
        forall|c: char, i: int|
            0 <= i < json_escape_char(c).len() ==> {
                let x = #[trigger] json_escape_char(c)[i];
                x != '\n' && x != '\r'
            },
{
    reveal_strlit("\\\\");
    reveal_strlit("\\\"");
    reveal_strlit("\\n");
    reveal_strlit("\\r");
    let f = |c: char| json_escape_char(c);
    assert forall|c1: char, c2: char|
        #![trigger f(c1), f(c2)]
        f(c1).len() <= f(c2).len() && f(c2).subrange(0, f(c1).len() as int) == f(c1) implies c1
        == c2 by {
        let x = f(c1);
        let y = f(c2);
        assert(x[0] == y.subrange(0, x.len() as int)[0]);
        if x.len() > 1 {
            assert(x[1] == y.subrange(0, x.len() as int)[1]);
        }
    }
}

/// Escaped HTML text holds no `<`, `>` or `"`, so it cannot open a tag or
/// close an attribute.
pub proof fn law_html_escape_has_no_markup(s: Seq<char>)
    ensures
        forall|i: int|
            0 <= i < html_escaped(s).len() ==> {
                let x = #[trigger] html_escaped(s)[i];
                x != '<' && x != '>' && x != '"'
            },
{
    lemma_html_code();
    let bad = |x: char| x == '<' || x == '>' || x == '"';
    lemma_flat_avoids(s, |c: char| html_escape_char(c), bad);
}

/// Different texts stay different once escaped for HTML.
pub proof fn law_html_escape_injective(a: Seq<char>, b: Seq<char>)
    requires
        html_escaped(a) == html_escaped(b),
    ensures
        a == b,
{
    lemma_html_code();
    lemma_flat_injective(a, b, |c: char| html_escape_char(c));
}

/// Escaped JSON text holds no raw line feed or carriage return.
pub proof fn law_json_escape_single_line(s: Seq<char>)
    ensures
        forall|i: int|
            0 <= i < json_escaped(s).len() ==> {
                let x = #[trigger] json_escaped(s)[i];
                x != '\n' && x != '\r'
            },
{
    lemma_json_code();
    let bad = |x: char| x == '\n' || x == '\r';
    lemma_flat_avoids(s, |c: char| json_escape_char(c), bad);
}

/// Different texts stay different once escaped for JSON.
pub proof fn law_json_escape_injective(a: Seq<char>, b: Seq<char>)
    requires
        json_escaped(a) == json_escaped(b),
    ensures
        a == b,
{
    lemma_json_code();
    lemma_flat_injective(a, b, |c: char| json_escape_char(c));
}

// ---------------------------------------------------------------------------
// The page
// ---------------------------------------------------------------------------

/// The page up to the place of the status line.
pub const PAGE_HEAD: &'static str = r#"<!doctype html>
<html lang="en">
<head>
  <meta charset="utf-8">
  <meta name="viewport" content="width=device-width, initial-scale=1">
  <title>ytmp3</title>
  <style>
    :root {
      color-scheme: light dark;
      font-family: Inter, ui-sans-serif, system-ui, -apple-system, BlinkMacSystemFont, "Segoe UI", sans-serif;
      background: #f6f4ef;
      color: #191917;
    }
    body {
      margin: 0;
      min-height: 100vh;
      display: grid;
      place-items: center;
      padding: 24px;
    }
    main {
      width: min(100%, 440px);
    }
    h1 {
      margin: 0 0 8px;
      font-size: 32px;
      letter-spacing: 0;
    }
    p {
      margin: 0 0 24px;
      color: #5f5a50;
      line-height: 1.5;
    }
    form {
      display: grid;
      gap: 14px;
      padding: 18px;
      border: 1px solid #ded8cb;
      border-radius: 8px;
      background: #fffdf8;
      box-shadow: 0 16px 40px rgb(25 25 23 / 0.08);
    }
    label {
      display: grid;
      gap: 6px;
      font-size: 13px;
      font-weight: 650;
    }
    input, select {
      min-height: 42px;
      border: 1px solid #cfc7b8;
      border-radius: 6px;
      padding: 0 12px;
      font: inherit;
      background: #ffffff;
      color: #191917;
    }
    .row {
      display: grid;
      grid-template-columns: 1fr 1fr;
      gap: 12px;
    }
    button {
      min-height: 44px;
      border: 0;
      border-radius: 6px;
      font: inherit;
      font-weight: 750;
      background: #2364aa;
      color: #ffffff;
      cursor: pointer;
    }
    button:hover {
      background: #174f8b;
    }
    .status, .progress {
      margin: 14px 0 0;
      padding: 12px;
      border-radius: 6px;
      font-weight: 650;
    }
    .success {
      background: #e6f6ea;
      color: #176b33;
    }
    .error {
      background: #fdebea;
      color: #9e2f24;
    }
    .progress {
      border: 1px solid #ded8cb;
      background: #fffdf8;
    }
    .progress-top {
      display: flex;
      align-items: baseline;
      justify-content: space-between;
      gap: 12px;
      margin-bottom: 10px;
      font-size: 13px;
    }
    .progress-track {
      height: 10px;
      overflow: hidden;
      border-radius: 999px;
      background: #e5dfd3;
    }
    .progress-fill {
      width: 0%;
      height: 100%;
      border-radius: inherit;
      background: #2364aa;
      transition: width 160ms ease;
    }
    .progress-detail {
      margin: 10px 0 0;
      font-size: 13px;
      color: #5f5a50;
      overflow-wrap: anywhere;
    }
    @media (prefers-color-scheme: dark) {
      :root {
        background: #171715;
        color: #f6f4ef;
      }
      p, .progress-detail {
        color: #bdb6aa;
      }
      form, .progress {
        background: #22211f;
        border-color: #3a3731;
        box-shadow: none;
      }
      input, select {
        background: #171715;
        border-color: #4a463f;
        color: #f6f4ef;
      }
      .progress-track {
        background: #3a3731;
      }
    }
    @media (max-width: 520px) {
      .row {
        grid-template-columns: 1fr;
      }
    }
  </style>
</head>
<body>
  <main>
    <h1>ytmp3</h1>
    <p>Download audio from a video link.</p>
    <form method="post" action="/download">
      <label>
        URL
        <input name="url" type="url" placeholder="https://youtu.be/..." required autofocus>
      </label>
      <label>
        Output folder
        <input name="output_dir" type="text" placeholder="Default: Downloads">
      </label>
      <div class="row">
        <label>
          Format
          <select name="format">
            <option value="mp3">MP3</option>
            <option value="m4a">M4A</option>
            <option value="opus">Opus</option>
          </select>
        </label>
        <label>
          Bitrate
          <input name="bitrate" type="number" min="32" max="320" value="128">
        </label>
      </div>
      <button type="submit">Download</button>
    </form>
    "#;

/// The panel's text before the job id.
pub const PANEL_OPEN: &'static str = r#"<section class="progress" data-job-id=""#;

/// The panel's text after the job id.
pub const PANEL_CLOSE: &'static str = r#"">
      <div class="progress-top">
        <span id="progress-message">Preparing download...</span>
        <span id="progress-percent">0%</span>
      </div>
      <div class="progress-track" aria-hidden="true">
        <div id="progress-fill" class="progress-fill"></div>
      </div>
      <p id="progress-detail" class="progress-detail"></p>
    </section>"#;

/// The script's text before the job id.
pub const SCRIPT_OPEN: &'static str = r#"<script>
    const jobId = "#;

/// The script's text after the job id.
pub const SCRIPT_CLOSE: &'static str = r#";
    const fill = document.getElementById("progress-fill");
    const percent = document.getElementById("progress-percent");
    const message = document.getElementById("progress-message");
    const detail = document.getElementById("progress-detail");

    async function pollProgress() {
      try {
        const response = await fetch(`/progress?id=${jobId}`, { cache: "no-store" });
        const data = await response.json();
        const pct = Math.max(0, Math.min(100, Number(data.pct) || 0));
        fill.style.width = `${pct}%`;
        percent.textContent = `${Math.round(pct)}%`;
        message.textContent = data.message || "Working...";
        detail.textContent = data.detail || "";
        if (!data.done) {
          setTimeout(pollProgress, 600);
        } else if (!data.success) {
          message.textContent = "Failed";
        }
      } catch (error) {
        message.textContent = "Waiting for progress...";
        setTimeout(pollProgress, 1000);
      }
    }

    pollProgress();
  </script>"#;

/// An error line shown above the form.
pub struct ErrorStatus(pub String);

/// The error line's HTML, with its message escaped.
pub open spec fn status_html(status: Option<Seq<char>>) -> Seq<char> {
    match status {
        Some(m) => "<p class=\"status error\">"@ + html_escaped(m) + "</p>"@,
        None => Seq::<char>::empty(),
    }
}

/// The progress panel of job `job_id`.
pub open spec fn panel_html(job_id: u64) -> Seq<char> {
    PANEL_OPEN@ + decimal(job_id as nat) + PANEL_CLOSE@
}

/// The script that polls the progress of job `job_id`.
pub open spec fn script_html(job_id: u64) -> Seq<char> {
    SCRIPT_OPEN@ + decimal(job_id as nat) + SCRIPT_CLOSE@
}

/// The whole page: the form, then the error line when there is one, then the
/// progress panel and its script when a job was started.
pub open spec fn page_html(status: Option<Seq<char>>, job_id: Option<u64>) -> Seq<char> {
    PAGE_HEAD@ + status_html(status) + "\n    "@ + match job_id {
        Some(id) => panel_html(id),
        None => Seq::<char>::empty(),
    } + "\n  </main>\n  "@ + match job_id {
        Some(id) => script_html(id),
        None => Seq::<char>::empty(),
    } + "\n</body>\n</html>"@
}

/// The text of an optional error line.
pub open spec fn status_text(status: Option<ErrorStatus>) -> Option<Seq<char>> {
    match status {
        Some(ErrorStatus(m)) => Some(m@),
        None => None,
    }
}

/// The progress panel of a job.
pub fn progress_panel(job_id: u64) -> (r: String)
    ensures
        r@ == panel_html(job_id),
{
    let mut r = String::new();
    push_str(&mut r, PANEL_OPEN);
    push_decimal(&mut r, job_id);
    push_str(&mut r, PANEL_CLOSE);
    r
}

/// The script that polls a job's progress.
pub fn progress_script(job_id: u64) -> (r: String)
    ensures
        r@ == script_html(job_id),
{
    let mut r = String::new();
    push_str(&mut r, SCRIPT_OPEN);
    push_decimal(&mut r, job_id);
    push_str(&mut r, SCRIPT_CLOSE);
    r
}

/// The page, with an optional error line and an optional job whose progress
/// it shows.
pub fn page(status: Option<ErrorStatus>, job_id: Option<u64>) -> (r: String)
    ensures
        r@ == page_html(status_text(status), job_id),
{
    let mut r = String::new();
    push_str(&mut r, PAGE_HEAD);
    match status {
        Some(ErrorStatus(message)) => {
            push_str(&mut r, "<p class=\"status error\">");
            let e = escape_html(message.as_str());
            push_str(&mut r, e.as_str());
            push_str(&mut r, "</p>");
        },
        None => {},
    }
    push_str(&mut r, "\n    ");
    match job_id {
        Some(id) => {
            let p = progress_panel(id);
            push_str(&mut r, p.as_str());
        },
        None => {},
    }
    push_str(&mut r, "\n  </main>\n  ");
    match job_id {
        Some(id) => {
            let s = progress_script(id);
            push_str(&mut r, s.as_str());
        },
        None => {},
    }
    push_str(&mut r, "\n</body>\n</html>");
    r
}

// ---------------------------------------------------------------------------
// The form
// ---------------------------------------------------------------------------

/// What `url::form_urlencoded::parse` reads from a form body: its name and
/// value pairs, in order, decoded.
pub uninterp spec fn form_pairs(body: Seq<u8>) -> Seq<(Seq<char>, Seq<char>)>;

/// The texts of a list of string pairs.
pub open spec fn pair_texts(v: Seq<(String, String)>) -> Seq<(Seq<char>, Seq<char>)> {
    v.map_values(|p: (String, String)| (p.0@, p.1@))
}

/// A byte that the form serializer keeps as it is: `*`, `-`, `.`, `_`, ASCII
/// digits and letters.
pub open spec fn form_byte_kept(b: u8) -> bool {
    b == 42 || b == 45 || b == 46 || (48 <= b <= 57) || (65 <= b <= 90) || b == 95 || (97 <= b
        <= 122)
}

/// An upper-case hexadecimal digit.
pub open spec fn hex_upper(n: u8) -> u8 {
    if n < 10 {
        (48 + n) as u8
    } else {
        (55 + n) as u8
    }
}

/// How the form serializer writes one byte: kept, `+` for a space, `%XX`
/// otherwise.
pub open spec fn form_byte(b: u8) -> Seq<u8> {
    if form_byte_kept(b) {
        seq![b]
    } else if b == 32 {
        seq![43u8]
    } else {
        seq![37u8, hex_upper(b / 16), hex_upper(b % 16)]
    }
}

/// How the form serializer writes a byte string.
pub open spec fn form_bytes(bs: Seq<u8>) -> Seq<u8>
    decreases bs.len(),
{
    if bs.len() == 0 {
        Seq::<u8>::empty()
    } else {
        form_byte(bs[0]) + form_bytes(bs.drop_first())
    }
}

/// How the form serializer writes one name and value: both encoded as UTF-8
/// and then byte by byte, joined by `=`.
pub open spec fn form_pair_bytes(p: (Seq<char>, Seq<char>)) -> Seq<u8> {
    form_bytes(encode_utf8(p.0)) + seq![61u8] + form_bytes(encode_utf8(p.1))
}

/// The body that `url::form_urlencoded::Serializer::append_pair` writes for a
/// list of names and values, in order, joined by `&`.
pub open spec fn form_encode(pairs: Seq<(Seq<char>, Seq<char>)>) -> Seq<u8>
    decreases pairs.len(),
{
    if pairs.len() == 0 {
        Seq::<u8>::empty()
    } else if pairs.len() == 1 {
        form_pair_bytes(pairs[0])
    } else {
        form_encode(pairs.drop_last()) + seq![38u8] + form_pair_bytes(pairs.last())
    }
}

/// `url::form_urlencoded::parse(body).into_owned()`, collected. Its result
/// is named `form_pairs`. As the parser's source shows, an empty body gives
/// no pairs, and a body written by the crate's own serializer reads back as
/// the names and values it was written from: the encoded parts hold no raw
/// `&` or `=`, a `+` only stands for a space, and percent-decoding restores
/// the UTF-8 bytes. How other bodies are split and decoded is not stated.
#[verifier::external_body]
fn parse_form(body: &[u8]) -> (r: Vec<(String, String)>)
    ensures
        pair_texts(r@) == form_pairs(body@),
        body@.len() == 0 ==> r@.len() == 0,
        forall|ps: Seq<(Seq<char>, Seq<char>)>|
            #[trigger] form_encode(ps) == body@ ==> pair_texts(r@) == ps,
{
    url::form_urlencoded::parse(body).into_owned().collect()
}

/// The value of the first pair named `key`, or nothing.
pub open spec fn form_lookup(pairs: Seq<(Seq<char>, Seq<char>)>, key: Seq<char>) -> Seq<char>
    decreases pairs.len(),
{
    if pairs.len() == 0 {
        Seq::<char>::empty()
    } else if pairs[0].0 == key {
        pairs[0].1
    } else {
        form_lookup(pairs.drop_first(), key)
    }
}

/// The value of the first field named `key`, or the empty string.
pub fn form_value<'a>(form: &'a [(String, String)], key: &str) -> (r: &'a str)
    ensures
        r@ == form_lookup(pair_texts(form@), key@),
{
    let k = owned(key);
    let ghost all = pair_texts(form@);
    let mut i: usize = 0;
    assert(all.subrange(0, all.len() as int) =~= all);
    while i < form.len()
        invariant
            i <= form.len(),
            k@ == key@,
            all == pair_texts(form@),
            form_lookup(all, key@) == form_lookup(all.subrange(i as int, all.len() as int), key@),
        decreases form.len() - i,
    {
        let ghost rest = all.subrange(i as int, all.len() as int);
        assert(rest[0] == (form@[i as int].0@, form@[i as int].1@));
        if form[i].0 == k {
            return form[i].1.as_str();
        }
        assert(rest.drop_first() =~= all.subrange(i + 1, all.len() as int));
        i = i + 1;
    }
    proof {
        reveal_strlit("");
        assert(all.subrange(i as int, all.len() as int) =~= Seq::<(Seq<char>, Seq<char>)>::empty());
    }
    ""
}

/// The URL field, trimmed.
pub open spec fn form_url(pairs: Seq<(Seq<char>, Seq<char>)>) -> Seq<char> {
    trim(form_lookup(pairs, "url"@))
}

/// The bitrate field read as a `u32` (128 when it is not one), then kept
/// within 32 to 320.
pub open spec fn form_bitrate(pairs: Seq<(Seq<char>, Seq<char>)>) -> u32 {
    let b = match parse_unsigned_spec(form_lookup(pairs, "bitrate"@), u32::MAX as nat) {
        Some(n) => n,
        None => 128,
    };
    (if b < 32 {
        32
    } else if b > 320 {
        320
    } else {
        b
    }) as u32
}

/// The format field, up to ASCII case (MP3 when it names none).
pub open spec fn form_format(pairs: Seq<(Seq<char>, Seq<char>)>) -> Format {
    match format_from_name(form_lookup(pairs, "format"@), true) {
        Some(f) => f,
        None => Format::Mp3,
    }
}

/// The output folder field, trimmed; none when blank.
pub open spec fn form_output_dir(pairs: Seq<(Seq<char>, Seq<char>)>) -> Option<Seq<char>> {
    let d = trim(form_lookup(pairs, "output_dir"@));
    if d.len() == 0 {
        None
    } else {
        Some(d)
    }
}

/// `cli` is the download that the form asks for.
pub open spec fn is_form_cli(cli: Cli, pairs: Seq<(Seq<char>, Seq<char>)>) -> bool {
    &&& cli.url matches Some(u) && u@ == form_url(pairs)
    &&& match form_output_dir(pairs) {
        Some(d) => cli.output_dir matches Some(o) && o@ == d,
        None => cli.output_dir is None,
    }
    &&& cli.bitrate == form_bitrate(pairs)
    &&& cli.format == form_format(pairs)
    &&& cli.quiet
    &&& !cli.ui
    &&& cli.ui_host@ == "127.0.0.1"@
    &&& cli.ui_port == 8787
}

/// The message shown when the form has no URL.
pub open spec fn no_url_message() -> Seq<char> {
    "Paste a URL first."@
}

/// The page that answers a form, and the download it starts.
pub struct DownloadReply {
    /// The page to send back.
    pub page: String,
    /// The id of the job created and the download to run for it.
    pub job: Option<(u64, Cli)>,
}

/// What answering the form `pairs` does: without a URL, the page with an
/// error line and no change to the jobs; with one, a new pending job under
/// the next id, the download the form asks for, and the page that shows that
/// job's progress.
pub open spec fn download_effect(
    pairs: Seq<(Seq<char>, Seq<char>)>,
    old_jobs: Map<u64, JobView>,
    old_next: u64,
    new_jobs: Map<u64, JobView>,
    new_next: u64,
    page: Seq<char>,
    job: Option<(u64, Cli)>,
) -> bool {
    if form_url(pairs).len() == 0 {
        &&& page == page_html(Some(no_url_message()), None)
        &&& job is None
        &&& new_jobs == old_jobs
        &&& new_next == old_next
    } else {
        &&& job matches Some((id, cli)) && id == old_next && is_form_cli(cli, pairs)
            && page == page_html(None, Some(id)) && new_jobs == old_jobs.insert(
            id,
            pending_view(preparing_message()),
        )
        &&& new_next == (if old_next == u64::MAX {
            0
        } else {
            (old_next + 1) as u64
        })
    }
}

/// Answers the download form: reads its fields and, when it names a URL,
/// records a pending job for the download.
pub fn download_response(body: &[u8], jobs: &mut JobTable) -> (r: DownloadReply)
    ensures
        download_effect(
            form_pairs(body@),
            old(jobs)@,
            old(jobs).next_job_id(),
            final(jobs)@,
            final(jobs).next_job_id(),
            r.page@,
            r.job,
        ),
        // A body written from a list of names and values is answered as
        // those names and values ask, values holding `&` or `=` included.
        forall|ps: Seq<(Seq<char>, Seq<char>)>|
            #[trigger] form_encode(ps) == body@ ==> download_effect(
                ps,
                old(jobs)@,
                old(jobs).next_job_id(),
                final(jobs)@,
                final(jobs).next_job_id(),
                r.page@,
                r.job,
            ),
{
    let form = parse_form(body);
    let ghost pairs = pair_texts(form@);
    let url = trim_str(form_value(form.as_slice(), "url"));
    if url.as_str().is_empty() {
        return DownloadReply {
            page: page(Some(ErrorStatus(owned("Paste a URL first."))), None),
            job: None,
        };
    }
    let raw_bitrate = chars_of(form_value(form.as_slice(), "bitrate"));
    let parsed = parse_unsigned(&raw_bitrate, 0, raw_bitrate.len(), u32::MAX as u64);
    assert(raw_bitrate@.subrange(0, raw_bitrate@.len() as int) =~= raw_bitrate@);
    let b: u64 = match parsed {
        Some(n) => n,
        None => 128,
    };
    let bitrate: u32 = if b < 32 {
        32
    } else if b > 320 {
        320
    } else {
        b as u32
    };
    let format = match Format::from_name(form_value(form.as_slice(), "format"), true) {
        Some(f) => f,
        None => Format::Mp3,
    };
    let dir = trim_str(form_value(form.as_slice(), "output_dir"));
    let output_dir = if dir.as_str().is_empty() {
        None
    } else {
        Some(dir)
    };
    let cli = Cli {
        url: Some(url),
        output_dir,
        bitrate,
        format,
        quiet: true,
        ui: false,
        ui_host: owned("127.0.0.1"),
        ui_port: 8787,
    };
    let job_id = jobs.create("Preparing download...");
    DownloadReply { page: page(None, Some(job_id)), job: Some((job_id, cli)) }
}

/// The bitrate a form asks for is always within 32 to 320 kbit/s.
pub proof fn law_form_bitrate_in_range(pairs: Seq<(Seq<char>, Seq<char>)>)
    ensures
        32 <= form_bitrate(pairs) <= 320,
{
}

/// After a form with a URL is answered, the progress path of the new job
/// reports it as pending with the first message.
pub proof fn law_new_job_reports_preparing(
    pairs: Seq<(Seq<char>, Seq<char>)>,
    old_jobs: Map<u64, JobView>,
    old_next: u64,
    new_jobs: Map<u64, JobView>,
    new_next: u64,
    page: Seq<char>,
    job: Option<(u64, Cli)>,
)
    requires
        download_effect(pairs, old_jobs, old_next, new_jobs, new_next, page, job),
        form_url(pairs).len() > 0,
    ensures
        job matches Some((id, _)) && progress_reply(new_jobs, progress_path(id)) == job_json(
            pending_view(preparing_message()),
        ),
{
    if let Some((id, _)) = job {
        law_progress_reads_back(old_jobs, id, pending_view(preparing_message()));
    }
}

/// A format field that names a format, in any ASCII case, asks for that
/// format.
pub proof fn law_form_format_honours_choice(pairs: Seq<(Seq<char>, Seq<char>)>, f: Format)
    requires
        lowercase(form_lookup(pairs, "format"@)) == format_name(f),
    ensures
        form_format(pairs) == f,
{
    reveal_strlit("mp3");
    reveal_strlit("m4a");
    reveal_strlit("opus");
    assert(lowercase("mp3"@) =~= "mp3"@);
    assert(lowercase("m4a"@) =~= "m4a"@);
    assert(lowercase("opus"@) =~= "opus"@);
    assert("mp3"@ != "m4a"@ && "mp3"@ != "opus"@ && "m4a"@ != "opus"@) by {
        assert("mp3"@[1] != "m4a"@[1]);
    }
}

/// A form with a URL whose format field names a format, in any ASCII case,
/// starts a download in that format.
pub proof fn law_download_uses_chosen_format(
    pairs: Seq<(Seq<char>, Seq<char>)>,
    old_jobs: Map<u64, JobView>,
    old_next: u64,
    new_jobs: Map<u64, JobView>,
    new_next: u64,
    page: Seq<char>,
    job: Option<(u64, Cli)>,
    f: Format,
)
    requires
        download_effect(pairs, old_jobs, old_next, new_jobs, new_next, page, job),
        form_url(pairs).len() > 0,
        lowercase(form_lookup(pairs, "format"@)) == format_name(f),
    ensures
        job matches Some((_, cli)) && cli.format == f,
{
    law_form_format_honours_choice(pairs, f);
}

/// A form written from names and values in which the URL field holds `u`
/// starts a download of `u`, trimmed, whole: a `&` or `=` inside the value
/// does not cut it.
pub proof fn law_form_url_comes_back_whole(
    ps: Seq<(Seq<char>, Seq<char>)>,
    u: Seq<char>,
    old_jobs: Map<u64, JobView>,
    old_next: u64,
    new_jobs: Map<u64, JobView>,
    new_next: u64,
    page: Seq<char>,
    job: Option<(u64, Cli)>,
)
    requires
        download_effect(ps, old_jobs, old_next, new_jobs, new_next, page, job),
        form_lookup(ps, "url"@) == u,
        trim(u).len() > 0,
    ensures
        job matches Some((_, cli)) && cli.url matches Some(x) && x@ == trim(u),
{
}

} // verus!
