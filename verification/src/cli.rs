//! The options of one download: what the command line or the web form gives.

use crate::text::{chars_equal, chars_of, lowercase, lowercase_chars};
use vstd::prelude::*;

verus! {

/// The audio container that the downloader converts to.
#[derive(Clone, Copy, Debug, PartialEq, Eq, Structural)]
pub enum Format {
    Mp3,
    M4a,
    Opus,
}

/// The name of a format, as the downloader's `--audio-format` takes it and as
/// the command line accepts it.
pub open spec fn format_name(f: Format) -> Seq<char> {
    match f {
        Format::Mp3 => "mp3"@,
        Format::M4a => "m4a"@,
        Format::Opus => "opus"@,
    }
}

/// `input` names `name`: exactly, or up to ASCII case when `ignore_case`.
pub open spec fn name_matches(input: Seq<char>, name: Seq<char>, ignore_case: bool) -> bool {
    if ignore_case {
        lowercase(input) == lowercase(name)
    } else {
        input == name
    }
}

/// The first format, in declaration order, whose name `input` matches.
pub open spec fn format_from_name(input: Seq<char>, ignore_case: bool) -> Option<Format> {
    if name_matches(input, format_name(Format::Mp3), ignore_case) {
        Some(Format::Mp3)
    } else if name_matches(input, format_name(Format::M4a), ignore_case) {
        Some(Format::M4a)
    } else if name_matches(input, format_name(Format::Opus), ignore_case) {
        Some(Format::Opus)
    } else {
        None
    }
}

fn matches_name(input: &Vec<char>, name: &str, ignore_case: bool) -> (r: bool)
    ensures
        r == name_matches(input@, name@, ignore_case),
{
    let n = chars_of(name);
    if ignore_case {
        let a = lowercase_chars(input);
        let b = lowercase_chars(&n);
        chars_equal(&a, &b)
    } else {
        chars_equal(input, &n)
    }
}

impl Format {
    /// The format's name.
    pub fn as_str(&self) -> (r: &'static str)
        ensures
            r@ == format_name(*self),
    {
        match self {
            Format::Mp3 => "mp3",
            Format::M4a => "m4a",
            Format::Opus => "opus",
        }
    }

    /// The format that `input` names, if any (names compared up to ASCII
    /// case when `ignore_case`).
    pub fn from_name(input: &str, ignore_case: bool) -> (r: Option<Format>)
        ensures
            r == format_from_name(input@, ignore_case),
    {
        let v = chars_of(input);
        if matches_name(&v, Format::Mp3.as_str(), ignore_case) {
            Some(Format::Mp3)
        } else if matches_name(&v, Format::M4a.as_str(), ignore_case) {
            Some(Format::M4a)
        } else if matches_name(&v, Format::Opus.as_str(), ignore_case) {
            Some(Format::Opus)
        } else {
            None
        }
    }
}

/// A format is found again from its own name, with or without case folding.
pub proof fn law_format_name_roundtrip(f: Format, ignore_case: bool)
    ensures
        format_from_name(format_name(f), ignore_case) == Some(f),
{
    reveal_strlit("mp3");
    reveal_strlit("m4a");
    reveal_strlit("opus");
    assert(lowercase("mp3"@) =~= "mp3"@);
    assert(lowercase("m4a"@) =~= "m4a"@);
    assert(lowercase("opus"@) =~= "opus"@);
    assert("mp3"@ != "m4a"@ && "mp3"@ != "opus"@ && "m4a"@ != "opus"@) by {
        assert("mp3"@[1] != "m4a"@[1]);
    }
}

/// Everything one download needs to know.
#[derive(Debug)]
pub struct Cli {
    /// The page whose audio is wanted.
    pub url: Option<String>,
    /// Where the file goes, when given.
    pub output_dir: Option<String>,
    /// Audio bitrate in kbit/s.
    pub bitrate: u32,
    /// The container to convert to.
    pub format: Format,
    /// No progress bar.
    pub quiet: bool,
    /// Run the local web page instead of one download.
    pub ui: bool,
    /// Host the web page listens on.
    pub ui_host: String,
    /// Port the web page listens on.
    pub ui_port: u16,
}

/// The folder a download is saved to, by priority: the `--output-dir`
/// flag, then a non-empty `$YTMP3_DIR`, then the Windows Downloads folder
/// under WSL, then `~/Downloads`; none when all are missing.
pub open spec fn output_dir_choice(
    flag: Option<Seq<char>>,
    env_dir: Option<Seq<char>>,
    wsl_downloads: Option<Seq<char>>,
    home_downloads: Option<Seq<char>>,
) -> Option<Seq<char>> {
    if flag is Some {
        flag
    } else if env_dir is Some && env_dir.unwrap().len() > 0 {
        env_dir
    } else if wsl_downloads is Some {
        wsl_downloads
    } else {
        home_downloads
    }
}

/// The texts of an optional string.
pub open spec fn opt_text(o: Option<String>) -> Option<Seq<char>> {
    match o {
        Some(s) => Some(s@),
        None => None,
    }
}

/// The folder a download is saved to, from the candidates in priority order.
pub fn choose_output_dir(
    flag: Option<String>,
    env_dir: Option<String>,
    wsl_downloads: Option<String>,
    home_downloads: Option<String>,
) -> (r: Option<String>)
    ensures
        opt_text(r) == output_dir_choice(
            opt_text(flag),
            opt_text(env_dir),
            opt_text(wsl_downloads),
            opt_text(home_downloads),
        ),
{
    if flag.is_some() {
        return flag;
    }
    match env_dir {
        Some(e) => {
            if !e.as_str().is_empty() {
                return Some(e);
            }
        },
        None => {},
    }
    if wsl_downloads.is_some() {
        return wsl_downloads;
    }
    home_downloads
}

/// The `--output-dir` flag always wins.
pub proof fn law_output_dir_flag_wins(
    flag: Seq<char>,
    env_dir: Option<Seq<char>>,
    wsl_downloads: Option<Seq<char>>,
    home_downloads: Option<Seq<char>>,
)
    ensures
        output_dir_choice(Some(flag), env_dir, wsl_downloads, home_downloads) == Some(flag),
{
}

/// Without the flag, a non-empty `$YTMP3_DIR` wins.
pub proof fn law_output_dir_env_wins(
    env_dir: Seq<char>,
    wsl_downloads: Option<Seq<char>>,
    home_downloads: Option<Seq<char>>,
)
    requires
        env_dir.len() > 0,
    ensures
        output_dir_choice(None, Some(env_dir), wsl_downloads, home_downloads) == Some(env_dir),
{
}

/// Without the flag and without a usable `$YTMP3_DIR` (unset or empty, which
/// count alike), the WSL Downloads folder wins when there is one.
pub proof fn law_output_dir_wsl_wins(
    env_dir: Option<Seq<char>>,
    wsl: Seq<char>,
    home_downloads: Option<Seq<char>>,
)
    requires
        env_dir is None || env_dir.unwrap().len() == 0,
    ensures
        output_dir_choice(None, env_dir, Some(wsl), home_downloads) == Some(wsl),
{
}

/// With nothing else, `~/Downloads` is chosen (none when it is missing too).
pub proof fn law_output_dir_home_last(env_dir: Option<Seq<char>>, home_downloads: Option<Seq<char>>)
    requires
        env_dir is None || env_dir.unwrap().len() == 0,
    ensures
        output_dir_choice(None, env_dir, None, home_downloads) == home_downloads,
{
}

} // verus!
