//! The table of download jobs behind the progress endpoint, and the JSON that
//! the endpoint answers with.

use crate::text::{
    owned,
    bool_text, chars_of, decimal, find_char, index_of, is_digit, lemma_decimal,
    lemma_index_of_absent, lemma_index_of_append, parse_unsigned, parse_unsigned_spec,
    push_str, starts_with, starts_with_exec, unsigned_digits,
};
use crate::ui::{escape_json, json_escaped};
use std::collections::HashMap;
use vstd::prelude::*;

verus! {

broadcast use vstd::std_specs::hash::group_hash_axioms;

/// What the progress endpoint knows of one job.
pub struct JobView {
    /// The percentage done, as the endpoint writes it.
    pub pct: Seq<char>,
    /// A short line on what happens now.
    pub message: Seq<char>,
    /// The job has ended.
    pub done: bool,
    /// The job has ended well.
    pub success: bool,
    /// Where the file went, or what went wrong.
    pub detail: Seq<char>,
}

/// The state of one download job.
pub struct JobState {
    /// The percentage done, as the endpoint writes it (the decimal
    /// rendering of a number from 0 to 100).
    pub pct: String,
    /// A short line on what happens now.
    pub message: String,
    /// The job has ended.
    pub done: bool,
    /// The job has ended well.
    pub success: bool,
    /// Where the file went, or what went wrong.
    pub detail: String,
}

impl View for JobState {
    type V = JobView;

    open spec fn view(&self) -> JobView {
        JobView {
            pct: self.pct@,
            message: self.message@,
            done: self.done,
            success: self.success,
            detail: self.detail@,
        }
    }
}

/// A job that has not started to move: at zero percent, with `message`.
pub open spec fn pending_view(message: Seq<char>) -> JobView {
    JobView {
        pct: "0"@,
        message: message,
        done: false,
        success: false,
        detail: Seq::<char>::empty(),
    }
}

/// The message of a job that has just been created.
pub open spec fn preparing_message() -> Seq<char> {
    "Preparing download..."@
}

/// A job after its end: on success at 100 percent, "Done", with the saved
/// path; on failure with the error's text, its percentage kept, and its
/// message turned into "Failed" when it was empty or still the first one.
pub open spec fn finished_view(base: JobView, outcome: Result<Seq<char>, Seq<char>>) -> JobView {
    match outcome {
        Ok(path) => JobView {
            pct: "100"@,
            message: "Done"@,
            done: true,
            success: true,
            detail: "Saved: "@ + path,
        },
        Err(text) => JobView {
            pct: base.pct,
            message: if base.message.len() == 0 || base.message == preparing_message() {
                "Failed"@
            } else {
                base.message
            },
            done: true,
            success: false,
            detail: text,
        },
    }
}

/// The texts of a job's outcome.
pub open spec fn outcome_view(outcome: Result<String, String>) -> Result<Seq<char>, Seq<char>> {
    match outcome {
        Ok(p) => Ok(p@),
        Err(t) => Err(t@),
    }
}

impl JobState {
    /// A job at zero percent with `message`, not done.
    pub fn pending(message: &str) -> (r: JobState)
        ensures
            r@ == pending_view(message@),
    {
        JobState {
            pct: owned("0"),
            message: owned(message),
            done: false,
            success: false,
            detail: String::new(),
        }
    }
}

/// The jobs of the web page, by id, and the id the next job gets.
pub struct JobTable {
    jobs: HashMap<u64, JobState>,
    next_id: u64,
}

impl View for JobTable {
    type V = Map<u64, JobView>;

    closed spec fn view(&self) -> Map<u64, JobView> {
        self.jobs@.map_values(|j: JobState| j@)
    }
}

impl JobTable {
    /// The id the next job gets.
    pub closed spec fn next_job_id(&self) -> u64 {
        self.next_id
    }

    /// No jobs; the first gets id 1.
    pub fn new() -> (r: JobTable)
        ensures
            r@ == Map::<u64, JobView>::empty(),
            r.next_job_id() == 1,
    {
        let r = JobTable { jobs: HashMap::new(), next_id: 1 };
        assert(r@ =~= Map::<u64, JobView>::empty());
        r
    }

    /// Adds a pending job with `message` under the next id, which it returns;
    /// ids count up by one, wrapping around.
    pub fn create(&mut self, message: &str) -> (id: u64)
        ensures
            id == old(self).next_job_id(),
            final(self).next_job_id() == (if id == u64::MAX {
                0
            } else {
                (id + 1) as u64
            }),
            final(self)@ == old(self)@.insert(id, pending_view(message@)),
    {
        let id = self.next_id;
        self.next_id = if id == u64::MAX {
            0
        } else {
            id + 1
        };
        let job = JobState::pending(message);
        self.jobs.insert(id, job);
        assert(self@ =~= old(self)@.insert(id, pending_view(message@)));
        id
    }

    /// Sets the percentage text and the message of job `id`, when there is one.
    pub fn update(&mut self, id: u64, pct: &str, message: &str)
        ensures
            final(self).next_job_id() == old(self).next_job_id(),
            old(self)@.contains_key(id) ==> final(self)@ == old(self)@.insert(
                id,
                JobView {
                    pct: pct@,
                    message: message@,
                    done: old(self)@[id].done,
                    success: old(self)@[id].success,
                    detail: old(self)@[id].detail,
                },
            ),
            !old(self)@.contains_key(id) ==> final(self)@ == old(self)@,
    {
        match self.jobs.remove(&id) {
            Some(job) => {
                let job = JobState {
                    pct: owned(pct),
                    message: owned(message),
                    done: job.done,
                    success: job.success,
                    detail: job.detail,
                };
                self.jobs.insert(id, job);
                assert(self@ =~= old(self)@.insert(
                    id,
                    JobView {
                        pct: pct@,
                        message: message@,
                        done: old(self)@[id].done,
                        success: old(self)@[id].success,
                        detail: old(self)@[id].detail,
                    },
                ));
            },
            None => {
                assert(self@ =~= old(self)@);
            },
        }
    }

    /// Records the end of job `id` (a pending "Finishing..." job when the
    /// table has none under that id): the saved path, or the error's text.
    pub fn finish(&mut self, id: u64, outcome: Result<String, String>)
        ensures
            final(self).next_job_id() == old(self).next_job_id(),
            final(self)@ == old(self)@.insert(
                id,
                finished_view(
                    if old(self)@.contains_key(id) {
                        old(self)@[id]
                    } else {
                        pending_view("Finishing..."@)
                    },
                    outcome_view(outcome),
                ),
            ),
    {
        let base = match self.jobs.remove(&id) {
            Some(job) => job,
            None => JobState::pending("Finishing..."),
        };
        let job = match outcome {
            Ok(path) => {
                let mut detail = owned("Saved: ");
                push_str(&mut detail, path.as_str());
                JobState {
                    pct: owned("100"),
                    message: owned("Done"),
                    done: true,
                    success: true,
                    detail,
                }
            },
            Err(text) => {
                let first = owned("Preparing download...");
                let message = if base.message.as_str().is_empty() || base.message == first {
                    owned("Failed")
                } else {
                    base.message
                };
                JobState { pct: base.pct, message, done: true, success: false, detail: text }
            },
        };
        self.jobs.insert(id, job);
        assert(self@ =~= old(self)@.insert(
            id,
            finished_view(
                if old(self)@.contains_key(id) {
                    old(self)@[id]
                } else {
                    pending_view("Finishing..."@)
                },
                outcome_view(outcome),
            ),
        ));
    }
}

// ---------------------------------------------------------------------------
// The progress endpoint
// ---------------------------------------------------------------------------

/// The query of a request path: what follows its first `?`.
pub open spec fn query_of(path: Seq<char>) -> Option<Seq<char>> {
    let k = index_of(path, '?');
    if k < path.len() {
        Some(path.subrange(k + 1 as int, path.len() as int))
    } else {
        None
    }
}

/// The value of the first `&`-separated part of a query that starts with
/// `id=`.
pub open spec fn id_param(q: Seq<char>) -> Option<Seq<char>>
    decreases q.len(),
{
    let k = index_of(q, '&');
    let part = q.subrange(0, k as int);
    if k <= q.len() && starts_with(part, "id="@) {
        Some(part.subrange(3, k as int))
    } else if k < q.len() {
        id_param(q.subrange(k + 1 as int, q.len() as int))
    } else {
        None
    }
}

/// The job id that a request path asks for: the `id` parameter of its
/// query, read as a `u64`.
pub open spec fn job_id_spec(path: Seq<char>) -> Option<nat> {
    match query_of(path) {
        Some(q) => match id_param(q) {
            Some(raw) => parse_unsigned_spec(raw, u64::MAX as nat),
            None => None,
        },
        None => None,
    }
}

/// The path that the page's script polls for job `id`.
pub open spec fn progress_path(id: u64) -> Seq<char> {
    "/progress?id="@ + decimal(id as nat)
}

/// The answer for a request without a readable job id.
pub const MISSING_ID_JSON: &'static str =
    r#"{"done":true,"success":false,"pct":0,"message":"Missing job id","detail":""}"#;

/// The answer for a job id that the table does not hold.
pub const NOT_FOUND_JSON: &'static str =
    r#"{"done":true,"success":false,"pct":0,"message":"Job not found","detail":""}"#;

/// The JSON object that reports one job.
pub open spec fn job_json(j: JobView) -> Seq<char> {
    "{\"done\":"@ + bool_text(j.done) + ",\"success\":"@ + bool_text(j.success) + ",\"pct\":"@
        + j.pct + ",\"message\":\""@ + json_escaped(j.message) + "\",\"detail\":\""@
        + json_escaped(j.detail) + "\"}"@
}

/// The progress endpoint's answer for a request path.
pub open spec fn progress_reply(jobs: Map<u64, JobView>, path: Seq<char>) -> Seq<char> {
    match job_id_spec(path) {
        Some(id) => if jobs.contains_key(id as u64) {
            job_json(jobs[id as u64])
        } else {
            NOT_FOUND_JSON@
        },
        None => MISSING_ID_JSON@,
    }
}

/// The job id that a request path asks for.
pub fn job_id_from_path(path: &str) -> (r: Option<u64>)
    ensures
        match r {
            Some(n) => job_id_spec(path@) == Some(n as nat),
            None => job_id_spec(path@) is None,
        },
{
    let v = chars_of(path);
    let n = v.len();
    let k = find_char(&v, 0, n, '?');
    assert(v@.subrange(0, n as int) =~= v@);
    if k == n {
        return None;
    }
    let ghost q = v@.subrange(k + 1, n as int);
    let idp = chars_of("id=");
    proof {
        reveal_strlit("id=");
    }
    let mut start = k + 1;
    assert(v@.subrange(start as int, n as int) =~= q);
    loop
        invariant
            k + 1 <= start <= n == v.len(),
            v@ == path@,
            q == v@.subrange(k + 1, n as int),
            query_of(v@) == Some(q),
            id_param(q) == id_param(v@.subrange(start as int, n as int)),
            idp@ == "id="@,
            idp@.len() == 3,
        decreases n - start,
    {
        let ghost w = v@.subrange(start as int, n as int);
        let e = find_char(&v, start, n, '&');
        assert(w.subrange(0, (e - start) as int) =~= v@.subrange(start as int, e as int));
        if starts_with_exec(&v, start, e, &idp) {
            assert(w.subrange(0, (e - start) as int).subrange(3, (e - start) as int) =~= v@.subrange(
                start + 3,
                e as int,
            ));
            assert(index_of(w, '&') == e - start);
            assert(id_param(w) == Some(v@.subrange(start + 3, e as int)));
            return parse_unsigned(&v, start + 3, e, u64::MAX);
        }
        if e == n {
            assert(index_of(w, '&') == w.len());
            assert(id_param(w) is None);
            return None;
        }
        assert(w.subrange((e - start) + 1, w.len() as int) =~= v@.subrange(e + 1, n as int));
        start = e + 1;
    }
}

/// The progress message for a download step: speed, then ETA.
pub fn progress_message(speed: &str, eta: &str) -> (r: String)
    ensures
        r@ == speed@ + " - ETA "@ + eta@,
{
    let mut r = owned(speed);
    push_str(&mut r, " - ETA ");
    push_str(&mut r, eta);
    r
}

fn push_bool(s: &mut String, b: bool)
    ensures
        final(s)@ == old(s)@ + bool_text(b),
{
    if b {
        push_str(s, "true");
    } else {
        push_str(s, "false");
    }
}

impl JobTable {
    /// The progress endpoint's answer for a request path: the job's state as
    /// JSON, or a finished failure when the id is missing or unknown.
    pub fn progress_json(&self, path: &str) -> (r: String)
        ensures
            r@ == progress_reply(self@, path@),
    {
        let id = match job_id_from_path(path) {
            Some(id) => id,
            None => return owned(MISSING_ID_JSON),
        };
        match self.jobs.get(&id) {
            Some(job) => {
                let mut r = owned("{\"done\":");
                push_bool(&mut r, job.done);
                push_str(&mut r, ",\"success\":");
                push_bool(&mut r, job.success);
                push_str(&mut r, ",\"pct\":");
                push_str(&mut r, job.pct.as_str());
                push_str(&mut r, ",\"message\":\"");
                let m = escape_json(job.message.as_str());
                push_str(&mut r, m.as_str());
                push_str(&mut r, "\",\"detail\":\"");
                let d = escape_json(job.detail.as_str());
                push_str(&mut r, d.as_str());
                push_str(&mut r, "\"}");
                assert(self@[id]== job@);
                r
            },
            None => owned(NOT_FOUND_JSON),
        }
    }
}

/// The path that the page's script polls for a job names that job.
pub proof fn law_progress_path_names_job(id: u64)
    ensures
        job_id_spec(progress_path(id)) == Some(id as nat),
{
    reveal_strlit("/progress?id=");
    reveal_strlit("/progress");
    reveal_strlit("?id=");
    reveal_strlit("id=");
    lemma_decimal(id as nat);
    let d = decimal(id as nat);
    let path = progress_path(id);
    let head = "/progress"@;
    let tail = "?id="@ + d;
    assert(path =~= head + tail);
    lemma_index_of_append(head, tail, '?');
    assert(tail[0] == '?');
    assert(index_of(tail, '?') == 0);
    let q = "id="@ + d;
    assert(path.subrange(10, path.len() as int) =~= q);
    assert forall|i: int| 0 <= i < q.len() implies q[i] != '&' by {
        if i >= 3 {
            assert(q[i] == d[i - 3]);
            assert(is_digit(d[i - 3]));
        }
    }
    lemma_index_of_absent(q, '&');
    assert(q.subrange(0, q.len() as int) =~= q);
    assert(q.subrange(0, 3) =~= "id="@);
    assert(q.subrange(3, q.len() as int) =~= d);
    assert(unsigned_digits(d) == d);
}

/// What the progress endpoint reports for a job is what the table last
/// recorded for it.
pub proof fn law_progress_reads_back(jobs: Map<u64, JobView>, id: u64, job: JobView)
    ensures
        progress_reply(jobs.insert(id, job), progress_path(id)) == job_json(job),
{
    law_progress_path_names_job(id);
}

/// A finished job is done, and it succeeded exactly when its outcome is a
/// saved path.
pub proof fn law_finished_job_is_done(base: JobView, outcome: Result<Seq<char>, Seq<char>>)
    ensures
        finished_view(base, outcome).done,
        finished_view(base, outcome).success <==> outcome is Ok,
{
}

} // verus!
