//! Reading a request line and its headers, choosing the answer, and framing
//! the reply.

use crate::cli::Cli;
use crate::jobs::{progress_reply, JobTable};
use crate::text::{
    chars_of, decimal, is_digit, is_whitespace, is_ws, lemma_decimal, trim_end,
    trim_start, unsigned_digits, parse_unsigned, parse_unsigned_spec, push_decimal,
    push_str, starts_with, starts_with_exec, string_of, trim, trim_bounds,
};
use crate::ui::{download_effect, download_response, form_pairs, page, page_html};
use vstd::prelude::*;
use vstd::utf8::encode_utf8;

verus! {

// ---------------------------------------------------------------------------
// The request
// ---------------------------------------------------------------------------

/// Which answer a request gets.
#[derive(Clone, Copy, Debug, PartialEq, Eq, Structural)]
pub enum Route {
    /// The download form was posted.
    Download,
    /// A job's progress was asked for.
    Progress,
    /// Anything else: the page itself.
    Page,
}

/// The answer chosen by the request line.
pub open spec fn route_of(line: Seq<char>) -> Route {
    if starts_with(line, "POST /download "@) {
        Route::Download
    } else if starts_with(line, "GET /progress"@) {
        Route::Progress
    } else {
        Route::Page
    }
}

/// The answer chosen by the request line.
pub fn route(request_line: &str) -> (r: Route)
    ensures
        r == route_of(request_line@),
{
    let v = chars_of(request_line);
    assert(v@.subrange(0, v@.len() as int) =~= v@);
    if starts_with_exec(&v, 0, v.len(), &chars_of("POST /download ")) {
        Route::Download
    } else if starts_with_exec(&v, 0, v.len(), &chars_of("GET /progress")) {
        Route::Progress
    } else {
        Route::Page
    }
}

/// The whitespace-separated words of `s` (`str::split_whitespace`).
pub open spec fn words(s: Seq<char>) -> Seq<Seq<char>>
    decreases s.len(),
{
    if s.len() == 0 {
        Seq::<Seq<char>>::empty()
    } else {
        let w = words(s.drop_last());
        let c = s.last();
        if is_ws(c) {
            w
        } else if s.len() == 1 || is_ws(s[s.len() - 2]) {
            w.push(seq![c])
        } else {
            w.update(w.len() - 1, w.last().push(c))
        }
    }
}

/// The path of a request: the second word of its request line, or `/`.
pub open spec fn path_of_request(line: Seq<char>) -> Seq<char> {
    let w = words(line);
    if w.len() >= 2 {
        w[1]
    } else {
        "/"@
    }
}

/// The path of a request, from its request line.
pub fn request_path(request_line: &str) -> (r: String)
    ensures
        r@ == path_of_request(request_line@),
{
    let v = chars_of(request_line);
    let mut count: usize = 0;
    let mut s2: usize = 0;
    let mut e2: usize = 0;
    let mut i: usize = 0;
    while i < v.len()
        invariant
            i <= v.len(),
            count <= i,
            count == words(v@.take(i as int)).len(),
            count >= 2 ==> s2 <= e2 <= i && words(v@.take(i as int))[1] == v@.subrange(
                s2 as int,
                e2 as int,
            ),
            count == 2 && i > 0 && !is_ws(v@[i - 1]) ==> e2 == i,
            i > 0 && !is_ws(v@[i - 1]) ==> count >= 1,
        decreases v.len() - i,
    {
        let ghost w = words(v@.take(i as int));
        let c = v[i];
        assert(v@.take(i + 1).drop_last() =~= v@.take(i as int));
        assert(v@.take(i + 1).last() == c);
        if is_whitespace(c) {
        } else if i == 0 {
            count = count + 1;
        } else if is_whitespace(v[i - 1]) {
            assert(v@.take(i + 1)[i - 1] == v@[i - 1]);
            count = count + 1;
            if count == 2 {
                s2 = i;
                e2 = i + 1;
                assert(words(v@.take(i + 1))[1] =~= v@.subrange(s2 as int, e2 as int));
            }
        } else {
            assert(v@.take(i + 1)[i - 1] == v@[i - 1]);
            if count == 2 {
                assert(words(v@.take(i + 1))[1] =~= v@.subrange(s2 as int, i + 1));
                e2 = i + 1;
            }
        }
        i = i + 1;
    }
    assert(v@.take(v.len() as int) =~= v@);
    if count >= 2 {
        string_of(&v, s2, e2)
    } else {
        "/".to_owned()
    }
}

/// The value of a `Content-Length` header line (0 when it is not a `usize`),
/// or nothing for another line.
pub open spec fn content_length_spec(line: Seq<char>) -> Option<nat> {
    let pre = "Content-Length:"@;
    if starts_with(line, pre) {
        Some(
            match parse_unsigned_spec(trim(line.subrange(pre.len() as int, line.len() as int)), usize::MAX as nat) {
                Some(n) => n,
                None => 0,
            },
        )
    } else {
        None
    }
}

/// The value of a `Content-Length` header line, or nothing for another line.
pub fn content_length(line: &str) -> (r: Option<usize>)
    ensures
        match r {
            Some(n) => content_length_spec(line@) == Some(n as nat),
            None => content_length_spec(line@) is None,
        },
{
    let v = chars_of(line);
    let pre = chars_of("Content-Length:");
    assert(v@.subrange(0, v@.len() as int) =~= v@);
    if !starts_with_exec(&v, 0, v.len(), &pre) {
        return None;
    }
    let (a, b) = trim_bounds(&v, pre.len(), v.len());
    match parse_unsigned(&v, a, b, usize::MAX as u64) {
        Some(n) => Some(n as usize),
        None => Some(0),
    }
}

/// The blank line that ends the headers, or the end of the stream.
pub fn is_header_end(line: &str) -> (r: bool)
    ensures
        r == (line@ == "\r\n"@ || line@.len() == 0),
{
    let v = chars_of(line);
    proof {
        reveal_strlit("\r\n");
    }
    if v.len() == 0 {
        return true;
    }
    let r = v.len() == 2 && v[0] == '\r' && v[1] == '\n';
    assert(r ==> v@ =~= "\r\n"@);
    r
}

// ---------------------------------------------------------------------------
// The reply
// ---------------------------------------------------------------------------

/// The content type of the page.
pub const HTML_TYPE: &'static str = "text/html; charset=utf-8";

/// The content type of the progress answer.
pub const JSON_TYPE: &'static str = "application/json; charset=utf-8";

/// A complete `200 OK` reply with the given content type and body, its
/// `Content-Length` the body's length in bytes.
pub open spec fn http_reply(content_type: Seq<char>, body_bytes: nat, body: Seq<char>) -> Seq<char> {
    "HTTP/1.1 200 OK\r\nContent-Type: "@ + content_type + "\r\nContent-Length: "@ + decimal(body_bytes)
        + "\r\nConnection: close\r\n\r\n"@ + body
}

/// The reply that carries `body`; its length is the number of bytes of the
/// body's UTF-8 encoding (as a `usize`, as `str::len` gives it).
pub fn http_response(content_type: &str, body: &str) -> (r: String)
    ensures
        r@ == http_reply(content_type@, (encode_utf8(body@).len() as usize) as nat, body@),
{
    let mut r = String::new();
    push_str(&mut r, "HTTP/1.1 200 OK\r\nContent-Type: ");
    push_str(&mut r, content_type);
    push_str(&mut r, "\r\nContent-Length: ");
    let n = body.len();
    push_decimal(&mut r, n as u64);
    push_str(&mut r, "\r\nConnection: close\r\n\r\n");
    push_str(&mut r, body);
    r
}

/// The answer to one request.
pub struct Reply {
    /// The content type of the body.
    pub content_type: &'static str,
    /// The body.
    pub body: String,
    /// A download to start, with the id of its job.
    pub job: Option<(u64, Cli)>,
}

/// Answers one request, from its request line and body: the download form
/// starts a job, the progress path reports a job, anything else gets the
/// page.
pub fn handle_request(request_line: &str, body: &[u8], jobs: &mut JobTable) -> (r: Reply)
    ensures
        route_of(request_line@) == Route::Download ==> r.content_type@ == HTML_TYPE@
            && download_effect(
            form_pairs(body@),
            old(jobs)@,
            old(jobs).next_job_id(),
            final(jobs)@,
            final(jobs).next_job_id(),
            r.body@,
            r.job,
        ),
        route_of(request_line@) == Route::Progress ==> r.content_type@ == JSON_TYPE@ && r.body@
            == progress_reply(old(jobs)@, path_of_request(request_line@)) && r.job is None
            && final(jobs)@ == old(jobs)@ && final(jobs).next_job_id() == old(jobs).next_job_id(),
        route_of(request_line@) == Route::Page ==> r.content_type@ == HTML_TYPE@ && r.body@
            == page_html(None, None) && r.job is None && final(jobs)@ == old(jobs)@
            && final(jobs).next_job_id() == old(jobs).next_job_id(),
{
    match route(request_line) {
        Route::Download => {
            let d = download_response(body, jobs);
            Reply { content_type: HTML_TYPE, body: d.page, job: d.job }
        },
        Route::Progress => {
            let path = request_path(request_line);
            Reply { content_type: JSON_TYPE, body: jobs.progress_json(path.as_str()), job: None }
        },
        Route::Page => Reply { content_type: HTML_TYPE, body: page(None, None), job: None },
    }
}

/// The `Content-Length` line that a reply carries reads back as the length
/// it was written with.
pub proof fn law_content_length_reads_back(n: nat)
    requires
        n <= usize::MAX,
    ensures
        content_length_spec("Content-Length: "@ + decimal(n) + "\r\n"@) == Some(n),
{
    reveal_strlit("Content-Length: ");
    reveal_strlit("Content-Length:");
    reveal_strlit("\r\n");
    lemma_decimal(n);
    let d = decimal(n);
    let pre = "Content-Length:"@;
    let line = "Content-Length: "@ + d + "\r\n"@;
    let rest = " "@ + d + "\r\n"@;
    reveal_strlit(" ");
    assert(line.subrange(0, 15) =~= pre);
    assert(line.subrange(15, line.len() as int) =~= rest);
    let body = d + "\r\n"@;
    assert(rest.drop_first() =~= body);
    assert(is_ws(rest[0]));
    assert(trim_start(rest) == trim_start(body));
    assert(body[0] == d[0]);
    assert(is_digit(d[0]));
    assert(trim_start(body) == body);
    reveal_strlit("\r");
    assert(body.drop_last() =~= d + "\r"@);
    assert((d + "\r"@).drop_last() =~= d);
    assert(is_ws(body.last()));
    assert(is_ws((d + "\r"@).last()));
    assert(trim_end(body) == trim_end(d + "\r"@));
    assert(trim_end(d + "\r"@) == trim_end(d));
    assert(is_digit(d.last()));
    assert(trim_end(d) == d);
    assert(trim(rest) == d);
    assert(unsigned_digits(d) == d);
}

} // verus!
