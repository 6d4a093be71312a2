//! The argument lists handed to the downloader and the reading of what it
//! gives back.

use crate::cli::{format_name, Cli, Format};
use crate::error::AppError;
use crate::text::{
    owned,
    chars_of, contains, contains_exec, decimal, lowercase, lowercase_chars, push_decimal,
    push_str, starts_with, starts_with_exec, string_of, trim, trim_bounds, trim_end_char,
    trim_end_char_len,
};
use vstd::prelude::*;
use vstd::utf8::{decode_utf8, valid_utf8};

verus! {

// ---------------------------------------------------------------------------
// Outside results
// ---------------------------------------------------------------------------

/// What `String::from_utf8_lossy` makes of a byte string.
pub uninterp spec fn utf8_lossy(bytes: Seq<u8>) -> Seq<char>;

/// `String::from_utf8_lossy`, turned into an owned `String`. Its result is
/// named `utf8_lossy`; on valid UTF-8 it is the decoded text, as the function's
/// documentation says. What replaces invalid sequences is not stated.
#[verifier::external_body]
fn decode_lossy(bytes: &[u8]) -> (r: String)
    ensures
        r@ == utf8_lossy(bytes@),
        valid_utf8(bytes@) ==> r@ == decode_utf8(bytes@),
{
    String::from_utf8_lossy(bytes).into_owned()
}

/// What `PathBuf::set_extension` makes of the path `path` with the
/// extension `ext`. It is a function of its arguments on a given operating
/// system; the separators differ between Windows (`/` and `\`) and Unix
/// (`/`), and so may the result.
pub uninterp spec fn path_with_extension(path: Seq<char>, ext: Seq<char>) -> Seq<char>;

/// An extension that `PathBuf::set_extension` accepts: it panics when the
/// extension holds a path separator (`/`, and `\` on Windows).
pub open spec fn no_separator(ext: Seq<char>) -> bool {
    forall|i: int| 0 <= i < ext.len() ==> ext[i] != '/' && ext[i] != '\\'
}

/// The last component of a `/`-separated path: what follows its last `/`.
pub open spec fn last_component(p: Seq<char>) -> Seq<char>
    decreases p.len(),
{
    if p.len() == 0 {
        p
    } else if p.last() == '/' {
        Seq::<char>::empty()
    } else {
        last_component(p.drop_last()).push(p.last())
    }
}

/// A path that reads the same on Unix and on Windows: no `\`, no `:` (so
/// no drive prefix), and no leading `//` (so no network share).
pub open spec fn plain_path(p: Seq<char>) -> bool {
    &&& forall|i: int| 0 <= i < p.len() ==> p[i] != '\\' && p[i] != ':'
    &&& !(p.len() >= 2 && p[0] == '/' && p[1] == '/')
}

/// Text without `.`, `/` or `\`.
pub open spec fn no_dot_or_separator(e: Seq<char>) -> bool {
    forall|i: int| 0 <= i < e.len() ==> e[i] != '.' && e[i] != '/' && e[i] != '\\'
}

/// `PathBuf::set_extension` on the path `path`, read back as text. Its result
/// is named `path_with_extension`. The extension must hold no path separator,
/// on which the function panics. As the documentation of `set_extension`,
/// `extension` and `file_name` describes, for a plain path whose file name
/// has a non-empty part before its last `.`, a non-empty extension replaces
/// what follows that `.`; for a plain path whose file name holds no `.`, the
/// extension is added after a `.`. Other paths are not stated.
#[verifier::external_body]
fn set_extension(path: &str, ext: &str) -> (r: String)
    requires
        no_separator(ext@),
    ensures
        r@ == path_with_extension(path@, ext@),
        forall|stem: Seq<char>, e: Seq<char>|
            #![trigger stem + "."@ + e]
            plain_path(path@) && path@ == stem + "."@ + e && e.len() > 0 && no_dot_or_separator(e)
                && last_component(stem).len() > 0 && ext@.len() > 0 ==> r@ == stem + "."@ + ext@,
        plain_path(path@) && last_component(path@).len() > 0 && no_dot_or_separator(
            last_component(path@),
        ) && ext@.len() > 0 ==> r@ == path@ + "."@ + ext@,
{
    let mut p = std::path::PathBuf::from(path);
    p.set_extension(ext);
    p.to_string_lossy().into_owned()
}

/// Whether an I/O error is of kind `NotFound`, as `io::Error::kind` reports
/// it. The error has no view, so the name takes the error itself.
pub uninterp spec fn io_error_not_found(e: std::io::Error) -> bool;

/// `io::Error::kind` compared with `ErrorKind::NotFound`. Its result is
/// named `io_error_not_found`; what makes an error of that kind is not
/// stated.
#[verifier::external_body]
fn is_not_found(e: &std::io::Error) -> (r: bool)
    ensures
        r == io_error_not_found(*e),
{
    e.kind() == std::io::ErrorKind::NotFound
}

// ---------------------------------------------------------------------------
// Argument lists
// ---------------------------------------------------------------------------

/// The texts of a list of strings.
pub open spec fn texts(v: Seq<String>) -> Seq<Seq<char>> {
    v.map_values(|s: String| s@)
}

/// The output template: the directory without its trailing slashes, then
/// the file-name pattern.
pub open spec fn output_template(out_dir: Seq<char>) -> Seq<char> {
    trim_end_char(out_dir, '/') + "/%(title)s.%(ext)s"@
}

/// The arguments that every call of the downloader starts with.
pub open spec fn common_args_spec(format: Format, out_dir: Seq<char>) -> Seq<Seq<char>> {
    seq![
        "--no-playlist"@,
        "--restrict-filenames"@,
        "--extract-audio"@,
        "--audio-format"@,
        format_name(format),
        "-o"@,
        output_template(out_dir),
    ]
}

/// The arguments of the dry run that reports the file name.
pub open spec fn probe_args_spec(format: Format, out_dir: Seq<char>, url: Seq<char>) -> Seq<
    Seq<char>,
> {
    common_args_spec(format, out_dir) + seq!["--simulate"@, "--print"@, "filename"@, url]
}

/// The `--audio-quality` value: the bitrate in decimal, then `K`.
pub open spec fn quality_arg(bitrate: u32) -> Seq<char> {
    decimal(bitrate as nat) + "K"@
}

/// The template of the progress lines that the downloader prints.
pub open spec fn progress_template() -> Seq<char> {
    "download:PROGRESS %(progress._percent_str)s %(progress._speed_str)s %(progress._eta_str)s"@
}

/// The arguments of the download itself.
pub open spec fn download_args_spec(format: Format, bitrate: u32, out_dir: Seq<char>, url: Seq<
    char,
>) -> Seq<Seq<char>> {
    common_args_spec(format, out_dir) + seq![
        "--newline"@,
        "--audio-quality"@,
        quality_arg(bitrate),
        "--progress-template"@,
        progress_template(),
        url,
    ]
}

/// The message of the error for a missing URL.
pub open spec fn missing_url_message() -> Seq<char> {
    "missing URL; pass a URL or use --ui"@
}

/// `e` is the error for a missing URL.
pub open spec fn is_missing_url(e: AppError) -> bool {
    e matches AppError::Other(m) && m@ == missing_url_message()
}

/// The arguments that every call of the downloader starts with: no
/// playlists, safe file names, audio only in `cli.format`, and the output
/// template under `out_dir`.
pub fn common_args(cli: &Cli, out_dir: &str) -> (r: Vec<String>)
    ensures
        texts(r@) == common_args_spec(cli.format, out_dir@),
{
    let dir = chars_of(out_dir);
    let n = trim_end_char_len(&dir, '/');
    let mut template = string_of(&dir, 0, n);
    push_str(&mut template, "/%(title)s.%(ext)s");
    assert(dir@.subrange(0, n as int) =~= dir@.take(n as int));
    let mut r: Vec<String> = Vec::new();
    r.push(owned("--no-playlist"));
    r.push(owned("--restrict-filenames"));
    r.push(owned("--extract-audio"));
    r.push(owned("--audio-format"));
    r.push(owned(cli.format.as_str()));
    r.push(owned("-o"));
    r.push(template);
    assert(texts(r@) =~= common_args_spec(cli.format, out_dir@));
    r
}

/// The URL of the download, or the error for its absence.
pub fn required_url(cli: &Cli) -> (r: Result<&str, AppError>)
    ensures
        match r {
            Ok(u) => cli.url is Some && u@ == cli.url.unwrap()@,
            Err(e) => cli.url is None && is_missing_url(e),
        },
{
    match &cli.url {
        Some(u) => Ok(u.as_str()),
        None => Err(AppError::Other(owned("missing URL; pass a URL or use --ui"))),
    }
}

/// The arguments of the dry run that prints the file name a download would
/// get; an error when there is no URL.
pub fn probe_args(cli: &Cli, out_dir: &str) -> (r: Result<Vec<String>, AppError>)
    ensures
        match r {
            Ok(a) => cli.url is Some && texts(a@) == probe_args_spec(
                cli.format,
                out_dir@,
                cli.url.unwrap()@,
            ),
            Err(e) => cli.url is None && is_missing_url(e),
        },
{
    let url = required_url(cli)?;
    let mut args = common_args(cli, out_dir);
    let ghost common = args@;
    args.push(owned("--simulate"));
    args.push(owned("--print"));
    args.push(owned("filename"));
    args.push(owned(url));
    assert(texts(args@) =~= texts(common) + seq!["--simulate"@, "--print"@, "filename"@, url@]);
    Ok(args)
}

/// The arguments of the download, with progress lines on standard output;
/// an error when there is no URL.
pub fn download_args(cli: &Cli, out_dir: &str) -> (r: Result<Vec<String>, AppError>)
    ensures
        match r {
            Ok(a) => cli.url is Some && texts(a@) == download_args_spec(
                cli.format,
                cli.bitrate,
                out_dir@,
                cli.url.unwrap()@,
            ),
            Err(e) => cli.url is None && is_missing_url(e),
        },
{
    let url = required_url(cli)?;
    let mut args = common_args(cli, out_dir);
    let ghost common = args@;
    let mut quality = String::new();
    push_decimal(&mut quality, cli.bitrate as u64);
    push_str(&mut quality, "K");
    args.push(owned("--newline"));
    args.push(owned("--audio-quality"));
    args.push(quality);
    args.push(owned("--progress-template"));
    args.push(
        owned(
            "download:PROGRESS %(progress._percent_str)s %(progress._speed_str)s %(progress._eta_str)s",
        ),
    );
    args.push(owned(url));
    assert(texts(args@) =~= texts(common) + seq![
        "--newline"@,
        "--audio-quality"@,
        quality_arg(cli.bitrate),
        "--progress-template"@,
        progress_template(),
        url@,
    ]);
    Ok(args)
}

// ---------------------------------------------------------------------------
// Reading the downloader's output
// ---------------------------------------------------------------------------

/// The pieces of `s` between line feeds (the last piece may be empty).
pub open spec fn split_lines(s: Seq<char>) -> Seq<Seq<char>>
    decreases s.len(),
{
    if s.len() == 0 {
        seq![Seq::<char>::empty()]
    } else {
        let p = split_lines(s.drop_last());
        if s.last() == '\n' {
            p.push(Seq::<char>::empty())
        } else {
            p.update(p.len() - 1, p.last().push(s.last()))
        }
    }
}

/// A trimmed line that can be the file name: neither empty nor a warning.
pub open spec fn is_filename_line(t: Seq<char>) -> bool {
    t.len() > 0 && !starts_with(t, "WARNING:"@)
}

/// The last of `lines` that, once trimmed, can be the file name, trimmed.
pub open spec fn last_filename_line(lines: Seq<Seq<char>>) -> Option<Seq<char>>
    decreases lines.len(),
{
    if lines.len() == 0 {
        None
    } else if is_filename_line(trim(lines.last())) {
        Some(trim(lines.last()))
    } else {
        last_filename_line(lines.drop_last())
    }
}

/// The file name in the dry run's output: its last line that is neither
/// blank nor a warning, trimmed. (`str::lines` differs from the pieces
/// between line feeds only by a carriage return before a line feed, which
/// trimming removes, and by a last empty piece, which is blank.)
pub open spec fn filename_line(out: Seq<char>) -> Option<Seq<char>> {
    last_filename_line(split_lines(out))
}

proof fn lemma_split_lines_len(s: Seq<char>)
    ensures
        split_lines(s).len() >= 1,
    decreases s.len(),
{
    if s.len() > 0 {
        lemma_split_lines_len(s.drop_last());
    }
}

spec fn bounds_give(best: Option<(usize, usize)>, v: Seq<char>, want: Option<Seq<char>>) -> bool {
    match best {
        Some((a, b)) => a <= b <= v.len() && want == Some(v.subrange(a as int, b as int)),
        None => want is None,
    }
}

/// The file name in the dry run's output, if it holds one.
pub fn filename_line_of(out: &str) -> (r: Option<String>)
    ensures
        match r {
            Some(x) => filename_line(out@) == Some(x@),
            None => filename_line(out@) is None,
        },
{
    let v = chars_of(out);
    let warn = chars_of("WARNING:");
    let mut best: Option<(usize, usize)> = None;
    let mut ls: usize = 0;
    let mut i: usize = 0;
    proof {
        lemma_split_lines_len(v@.take(0));
        assert(v@.take(0) =~= Seq::<char>::empty());
        assert(v@.subrange(0, 0) =~= Seq::<char>::empty());
        assert(split_lines(v@.take(0)).drop_last() =~= Seq::<Seq<char>>::empty());
    }
    while i < v.len()
        invariant
            ls <= i <= v.len(),
            warn@ == "WARNING:"@,
            split_lines(v@.take(i as int)).len() >= 1,
            split_lines(v@.take(i as int)).last() == v@.subrange(ls as int, i as int),
            bounds_give(best, v@, last_filename_line(split_lines(v@.take(i as int)).drop_last())),
        decreases v.len() - i,
    {
        let ghost l = split_lines(v@.take(i as int));
        assert(v@.take(i + 1).drop_last() =~= v@.take(i as int));
        assert(v@.take(i + 1).last() == v@[i as int]);
        if v[i] == '\n' {
            let (a, b) = trim_bounds(&v, ls, i);
            assert(split_lines(v@.take(i + 1)).drop_last() =~= l);
            if a < b && !starts_with_exec(&v, a, b, &warn) {
                best = Some((a, b));
            }
            ls = i + 1;
            assert(split_lines(v@.take(i + 1)).last() =~= v@.subrange(ls as int, i + 1));
        } else {
            assert(split_lines(v@.take(i + 1)).drop_last() =~= l.drop_last());
            assert(split_lines(v@.take(i + 1)).last() =~= v@.subrange(ls as int, i + 1));
        }
        i = i + 1;
    }
    assert(v@.take(v.len() as int) =~= v@);
    let ghost l = split_lines(v@);
    assert(l =~= l.drop_last().push(l.last()));
    let (a, b) = trim_bounds(&v, ls, v.len());
    if a < b && !starts_with_exec(&v, a, b, &warn) {
        return Some(string_of(&v, a, b));
    }
    match best {
        Some((a, b)) => Some(string_of(&v, a, b)),
        None => None,
    }
}

/// The trimmed message mentions the audio converter as missing.
pub open spec fn reports_ffmpeg_missing(msg: Seq<char>) -> bool {
    let l = lowercase(msg);
    contains(l, "ffmpeg"@) && (contains(l, "not installed"@) || contains(l, "not found"@)
        || contains(l, "could not find"@) || contains(l, "ffprobe"@))
}

/// `e` is the error for a failed run with exit code `code` and error text
/// `msg`: a missing converter when the text says so, otherwise the code with
/// the trimmed text.
pub open spec fn is_exit_error(e: AppError, code: i32, msg: Seq<char>) -> bool {
    if reports_ffmpeg_missing(msg) {
        e is FfmpegMissing
    } else {
        e matches AppError::YtDlp { code: c, stderr: m } && c == code && m@ == trim(msg)
    }
}

/// An error text that never mentions ffmpeg is never read as a missing
/// converter: the failure keeps its exit code and its trimmed text.
pub proof fn law_exit_error_without_ffmpeg(e: AppError, code: i32, msg: Seq<char>)
    requires
        is_exit_error(e, code, msg),
        !contains(lowercase(msg), "ffmpeg"@),
    ensures
        e matches AppError::YtDlp { code: c, stderr: m } && c == code && m@ == trim(msg),
{
}

/// A text that names ffmpeg together with "not found" is read as a missing
/// converter, whatever the exit code.
pub proof fn law_exit_error_ffmpeg_not_found(e: AppError, code: i32, msg: Seq<char>)
    requires
        is_exit_error(e, code, msg),
        contains(lowercase(msg), "ffmpeg"@),
        contains(lowercase(msg), "not found"@),
    ensures
        e is FfmpegMissing,
{
}

/// The error for a failed run of the downloader, from its exit code and the
/// bytes of its error output.
pub fn classify_exit(code: i32, stderr: &[u8]) -> (r: AppError)
    ensures
        is_exit_error(r, code, utf8_lossy(stderr@)),
        valid_utf8(stderr@) ==> utf8_lossy(stderr@) == decode_utf8(stderr@),
        // A text that never mentions ffmpeg keeps the code and the trimmed text.
        !contains(lowercase(utf8_lossy(stderr@)), "ffmpeg"@) ==> (r matches AppError::YtDlp {
            code: c,
            stderr: m,
        } && c == code && m@ == trim(utf8_lossy(stderr@))),
        // A missing converter is reported only for a text that names ffmpeg
        // together with one of the phrases of a missing program.
        r is FfmpegMissing ==> {
            let l = lowercase(utf8_lossy(stderr@));
            &&& contains(l, "ffmpeg"@)
            &&& contains(l, "not installed"@) || contains(l, "not found"@) || contains(
                l,
                "could not find"@,
            ) || contains(l, "ffprobe"@)
        },
{
    let msg = decode_lossy(stderr);
    let v = chars_of(msg.as_str());
    let lower = lowercase_chars(&v);
    let has_ffmpeg = contains_exec(&lower, &chars_of("ffmpeg"));
    if has_ffmpeg && (contains_exec(&lower, &chars_of("not installed")) || contains_exec(
        &lower,
        &chars_of("not found"),
    ) || contains_exec(&lower, &chars_of("could not find")) || contains_exec(
        &lower,
        &chars_of("ffprobe"),
    )) {
        return AppError::FfmpegMissing;
    }
    let (a, b) = trim_bounds(&v, 0, v.len());
    assert(v@.subrange(0, v@.len() as int) =~= v@);
    AppError::YtDlp { code, stderr: string_of(&v, a, b) }
}

/// A format's name holds no path separator.
proof fn lemma_format_name_no_separator(f: Format)
    ensures
        no_separator(format_name(f)),
        format_name(f).len() > 0,
{
    reveal_strlit("mp3");
    reveal_strlit("m4a");
    reveal_strlit("opus");
}

/// The message of the error for a dry run that printed no file name.
pub open spec fn no_filename_message() -> Seq<char> {
    "yt-dlp produced no filename in dry-run"@
}

/// The exit code, or `-1` for a run that ended without one.
pub open spec fn code_or_minus_one(code: Option<i32>) -> i32 {
    match code {
        Some(c) => c,
        None => -1i32,
    }
}

/// The path of the file a download will write, from the dry run's exit code
/// and output: the file name it printed, with the extension of `format`.
pub fn probe_result(code: Option<i32>, stdout: &[u8], stderr: &[u8], format: Format) -> (r: Result<
    String,
    AppError,
>)
    ensures
        code != Some(0i32) ==> (r matches Err(e) && is_exit_error(
            e,
            code_or_minus_one(code),
            utf8_lossy(stderr@),
        )),
        code == Some(0i32) ==> match filename_line(utf8_lossy(stdout@)) {
            Some(line) => r matches Ok(p) && p@ == path_with_extension(line, format_name(format)),
            None => r matches Err(e) && e matches AppError::YtDlp { code: c, stderr: m } && c == 0
                && m@ == no_filename_message(),
        },
        code != Some(0i32) ==> (valid_utf8(stderr@) ==> utf8_lossy(stderr@) == decode_utf8(
            stderr@,
        )),
        code == Some(0i32) ==> (valid_utf8(stdout@) ==> utf8_lossy(stdout@) == decode_utf8(
            stdout@,
        )),
        // The file name's last extension is replaced by the format's.
        code == Some(0i32) ==> (filename_line(utf8_lossy(stdout@)) matches Some(line) ==> (
        forall|stem: Seq<char>, e: Seq<char>|
            #![trigger stem + "."@ + e]
            plain_path(line) && line == stem + "."@ + e && e.len() > 0 && no_dot_or_separator(e)
                && last_component(stem).len() > 0 ==> (r matches Ok(p) && p@ == stem + "."@
                + format_name(format)))),
        // A file name without extension gets the format's.
        code == Some(0i32) ==> (filename_line(utf8_lossy(stdout@)) matches Some(line) ==> (
        plain_path(line) && last_component(line).len() > 0 && no_dot_or_separator(
            last_component(line),
        ) ==> (r matches Ok(p) && p@ == line + "."@ + format_name(format)))),
{
    match code {
        Some(0) => {},
        Some(c) => return Err(classify_exit(c, stderr)),
        None => return Err(classify_exit(-1, stderr)),
    }
    let out = decode_lossy(stdout);
    match filename_line_of(out.as_str()) {
        Some(line) => {
            let ext = format.as_str();
            proof {
                lemma_format_name_no_separator(format);
            }
            Ok(set_extension(line.as_str(), ext))
        },
        None => Err(AppError::YtDlp { code: 0, stderr: owned("yt-dlp produced no filename in dry-run") }),
    }
}

// ---------------------------------------------------------------------------
// Starting and ending the downloader
// ---------------------------------------------------------------------------

/// The error for a downloader that could not be started: the program is
/// missing when the error is of kind `NotFound`, else the error itself.
pub fn spawn_error(not_found: bool, e: std::io::Error) -> (r: AppError)
    ensures
        if not_found {
            r is YtDlpMissing
        } else {
            r == AppError::Spawn(e)
        },
{
    if not_found {
        AppError::YtDlpMissing
    } else {
        AppError::Spawn(e)
    }
}

/// The error for a downloader that could not be started: the program is
/// missing when the error is of kind `NotFound`, else the error itself.
pub fn map_spawn_err(e: std::io::Error) -> (r: AppError)
    ensures
        if io_error_not_found(e) {
            r is YtDlpMissing
        } else {
            r == AppError::Spawn(e)
        },
{
    let nf = is_not_found(&e);
    spawn_error(nf, e)
}

/// How a download run ended.
#[derive(Clone, Copy, Debug, PartialEq, Eq, Structural)]
pub enum ExitOutcome {
    /// Exit code 0.
    Completed,
    /// Stopped on request, or ended by a signal.
    Cancelled,
    /// A non-zero exit code.
    Failed(i32),
}

/// How a download run ended, from the cancel flag and the exit code (none
/// when a signal ended it). A cancel request decides, whatever the code.
pub fn exit_outcome(cancelled: bool, code: Option<i32>) -> (r: ExitOutcome)
    ensures
        cancelled ==> r == ExitOutcome::Cancelled,
        !cancelled && code is None ==> r == ExitOutcome::Cancelled,
        !cancelled && code == Some(0i32) ==> r == ExitOutcome::Completed,
        !cancelled ==> (code matches Some(c) ==> (c != 0 ==> r == ExitOutcome::Failed(c))),
{
    if cancelled {
        return ExitOutcome::Cancelled;
    }
    match code {
        Some(0) => ExitOutcome::Completed,
        Some(c) => ExitOutcome::Failed(c),
        None => ExitOutcome::Cancelled,
    }
}

} // verus!
