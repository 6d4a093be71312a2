//! What can go wrong in a download.

use crate::text::{decimal, owned, push_char, push_decimal, push_str, starts_with};
use vstd::prelude::*;

verus! {

/// `std::io::Error`, carried through unchanged.
#[verifier::external_type_specification]
#[verifier::external_body]
pub struct ExIoError(std::io::Error);

/// The failures of one download.
#[derive(Debug)]
pub enum AppError {
    /// The downloader program is not on the search path.
    YtDlpMissing,
    /// The downloader reported that the audio converter is missing.
    FfmpegMissing,
    /// The downloader failed with this exit code and this (trimmed) error text.
    YtDlp { code: i32, stderr: String },
    /// The downloader could not be started.
    Spawn(std::io::Error),
    /// Reading or writing failed.
    Io(std::io::Error),
    /// The download was stopped.
    Cancelled,
    /// Any other failure, with its message.
    Other(String),
}

/// The process exit code for a failure: 2 when the downloader is missing, 3
/// when the converter is missing, 130 when cancelled, 1 otherwise.
pub open spec fn exit_code_of(e: AppError) -> u8 {
    match e {
        AppError::YtDlpMissing => 2,
        AppError::FfmpegMissing => 3,
        AppError::Cancelled => 130,
        _ => 1,
    }
}

/// The process exit code for a failure.
pub fn exit_code(e: &AppError) -> (r: u8)
    ensures
        r == exit_code_of(*e),
{
    match e {
        AppError::YtDlpMissing => 2,
        AppError::FfmpegMissing => 3,
        AppError::Cancelled => 130,
        _ => 1,
    }
}

/// `Display` of an I/O error, through `format!`. Nothing is stated of the
/// text: it comes from the operating system.
#[verifier::external_body]
fn io_error_text(e: &std::io::Error) -> String {
    format!("{e}")
}

/// An integer in decimal, with a minus sign when negative.
pub open spec fn signed_decimal(i: int) -> Seq<char> {
    if i < 0 {
        "-"@ + decimal((-i) as nat)
    } else {
        decimal(i as nat)
    }
}

/// The text shown for a failure: fixed for the missing programs and for a
/// cancel, the exit code and error text for a failed run, the message for any
/// other failure, and a fixed opening followed by the system's text for an
/// I/O error.
pub open spec fn describes(e: AppError, text: Seq<char>) -> bool {
    match e {
        AppError::YtDlpMissing => text == "yt-dlp not found on PATH"@,
        AppError::FfmpegMissing => text == "ffmpeg not found on PATH"@,
        AppError::YtDlp { code, stderr } => text == "yt-dlp failed (exit "@ + signed_decimal(
            code as int,
        ) + "): "@ + stderr@,
        AppError::Spawn(_) => starts_with(text, "failed to start yt-dlp: "@),
        AppError::Io(_) => starts_with(text, "I/O error: "@),
        AppError::Cancelled => text == "cancelled"@,
        AppError::Other(m) => text == m@,
    }
}

/// The text shown for a failure.
pub fn describe(e: &AppError) -> (r: String)
    ensures
        describes(*e, r@),
{
    match e {
        AppError::YtDlpMissing => owned("yt-dlp not found on PATH"),
        AppError::FfmpegMissing => owned("ffmpeg not found on PATH"),
        AppError::YtDlp { code, stderr } => {
            let mut num = String::new();
            if *code < 0 {
                push_char(&mut num, '-');
                let m: i64 = -(*code as i64);
                push_decimal(&mut num, m as u64);
                proof {
                    reveal_strlit("-");
                    assert(num@ =~= "-"@ + decimal((-(*code as int)) as nat));
                }
            } else {
                push_decimal(&mut num, *code as u64);
                assert(num@ =~= decimal(*code as nat));
            }
            assert(num@ == signed_decimal(*code as int));
            let mut r = owned("yt-dlp failed (exit ");
            push_str(&mut r, num.as_str());
            push_str(&mut r, "): ");
            push_str(&mut r, stderr.as_str());
            r
        },
        AppError::Spawn(err) => {
            let mut r = owned("failed to start yt-dlp: ");
            let ghost p = r@;
            push_str(&mut r, io_error_text(err).as_str());
            assert(r@.subrange(0, p.len() as int) =~= p);
            r
        },
        AppError::Io(err) => {
            let mut r = owned("I/O error: ");
            let ghost p = r@;
            push_str(&mut r, io_error_text(err).as_str());
            assert(r@.subrange(0, p.len() as int) =~= p);
            r
        },
        AppError::Cancelled => owned("cancelled"),
        AppError::Other(m) => m.clone(),
    }
}

} // verus!
