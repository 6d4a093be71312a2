//! The steps of one download, as a state machine: the caller carries out
//! each action (finding and creating the folder, the dry run, the look at
//! the disk, the download) and hands back what came of it.

use crate::error::AppError;
use crate::text::owned;
use vstd::prelude::*;

verus! {

/// Where a download stands.
pub enum JobPhase {
    /// Nothing has happened yet.
    Start,
    /// The output folder is being found.
    Resolving,
    /// The output folder is being created.
    Creating(String),
    /// The job is being reported as looking for its file name.
    Announcing(String),
    /// The dry run is running, for the output folder.
    Probing(String),
    /// The disk is being asked whether the file is already there.
    Checking { out_dir: String, target: String },
    /// The download is running, for the file.
    Downloading(String),
    /// The job has ended.
    Done,
}

/// What came of the last action.
pub enum JobEvent {
    /// The job is to start.
    Begin,
    /// The output folder, or why there is none.
    Resolved(Result<String, AppError>),
    /// Whether the folder could be created.
    Created(Result<(), AppError>),
    /// The job's message has been set.
    Announced,
    /// The path of the file to be written, or why there is none.
    Probed(Result<String, AppError>),
    /// Whether that file is already there.
    Exists(bool),
    /// Whether the download succeeded.
    Downloaded(Result<(), AppError>),
}

/// A file that the job leaves behind.
pub struct Saved {
    /// Its path.
    pub path: String,
    /// It was there before, so nothing was downloaded.
    pub already_existed: bool,
}

/// What the caller is to do next.
pub enum JobAction {
    /// Find the output folder.
    ResolveDir,
    /// Create this folder, with its parents.
    CreateDir(String),
    /// Report this message at zero percent.
    Announce(String),
    /// Run the dry run for this output folder.
    Probe(String),
    /// Look whether this file exists.
    CheckExists(String),
    /// Download into this output folder.
    Download(String),
    /// The job has ended, with this outcome.
    Finish(Result<Saved, AppError>),
    /// Nothing: the job has already ended, or the event does not belong to
    /// this step.
    Nothing,
}

/// The message of a job that looks for its file name.
pub open spec fn finding_message() -> Seq<char> {
    "Finding filename..."@
}

/// The event carries an error.
pub open spec fn is_error_event(event: JobEvent) -> bool {
    match event {
        JobEvent::Resolved(Err(_)) => true,
        JobEvent::Created(Err(_)) => true,
        JobEvent::Probed(Err(_)) => true,
        JobEvent::Downloaded(Err(_)) => true,
        _ => false,
    }
}

/// The error that an event carries.
pub open spec fn event_error(event: JobEvent) -> AppError
    recommends
        is_error_event(event),
{
    match event {
        JobEvent::Resolved(Err(e)) => e,
        JobEvent::Created(Err(e)) => e,
        JobEvent::Probed(Err(e)) => e,
        JobEvent::Downloaded(Err(e)) => e,
        _ => AppError::Cancelled,
    }
}

/// One step of a download: find the folder, create it, report the search
/// for the file name, run the dry run, look at the disk, and then either end
/// with the file that is already there or download and end with the new
/// file. An error ends the job with that error; after the end nothing more
/// happens; an event that does not belong to the step changes nothing.
pub open spec fn job_step_spec(phase: JobPhase, event: JobEvent, r: (JobPhase, JobAction)) -> bool {
    if phase is Done {
        r.0 is Done && r.1 is Nothing
    } else if is_error_event(event) {
        r.0 is Done && r.1 == JobAction::Finish(Err(event_error(event)))
    } else {
        match (phase, event) {
            (JobPhase::Start, JobEvent::Begin) => r.0 is Resolving && r.1 is ResolveDir,
            (JobPhase::Resolving, JobEvent::Resolved(Ok(d))) => r.0 == JobPhase::Creating(d)
                && r.1 == JobAction::CreateDir(d),
            (JobPhase::Creating(d), JobEvent::Created(Ok(_))) => {
                &&& r.0 == JobPhase::Announcing(d)
                &&& r.1 matches JobAction::Announce(m) && m@ == finding_message()
            },
            (JobPhase::Announcing(d), JobEvent::Announced) => r.0 == JobPhase::Probing(d) && r.1
                == JobAction::Probe(d),
            (JobPhase::Probing(d), JobEvent::Probed(Ok(t))) => r.0 == JobPhase::Checking {
                out_dir: d,
                target: t,
            } && r.1 == JobAction::CheckExists(t),
            (JobPhase::Checking { out_dir, target }, JobEvent::Exists(true)) => r.0 is Done && r.1
                == JobAction::Finish(Ok(Saved { path: target, already_existed: true })),
            (JobPhase::Checking { out_dir, target }, JobEvent::Exists(false)) => r.0
                == JobPhase::Downloading(target) && r.1 == JobAction::Download(out_dir),
            (JobPhase::Downloading(t), JobEvent::Downloaded(Ok(_))) => r.0 is Done && r.1
                == JobAction::Finish(Ok(Saved { path: t, already_existed: false })),
            (p, _) => r.0 == p && r.1 is Nothing,
        }
    }
}

/// The next phase of a download and the action to carry out, from its phase
/// and what came of the last action.
pub fn job_step(phase: JobPhase, event: JobEvent) -> (r: (JobPhase, JobAction))
    ensures
        job_step_spec(phase, event, r),
        // A file that is already there ends the job with it, without a download.
        phase matches JobPhase::Checking { out_dir, target } ==> (event == JobEvent::Exists(true)
            ==> r.1 == JobAction::Finish(Ok(Saved { path: target, already_existed: true }))),
        // An error ends the job with that error.
        !(phase is Done) && is_error_event(event) ==> r.0 is Done && r.1 == JobAction::Finish(
            Err(event_error(event)),
        ),
        // After the end nothing more happens.
        phase is Done ==> r.0 is Done && r.1 is Nothing,
{
    if let JobPhase::Done = phase {
        return (JobPhase::Done, JobAction::Nothing);
    }
    match event {
        JobEvent::Resolved(Err(e)) => return (JobPhase::Done, JobAction::Finish(Err(e))),
        JobEvent::Created(Err(e)) => return (JobPhase::Done, JobAction::Finish(Err(e))),
        JobEvent::Probed(Err(e)) => return (JobPhase::Done, JobAction::Finish(Err(e))),
        JobEvent::Downloaded(Err(e)) => return (JobPhase::Done, JobAction::Finish(Err(e))),
        event => match (phase, event) {
            (JobPhase::Start, JobEvent::Begin) => (JobPhase::Resolving, JobAction::ResolveDir),
            (JobPhase::Resolving, JobEvent::Resolved(Ok(d))) => {
                let d2 = d.clone();
                (JobPhase::Creating(d), JobAction::CreateDir(d2))
            },
            (JobPhase::Creating(d), JobEvent::Created(Ok(_))) => (
                JobPhase::Announcing(d),
                JobAction::Announce(owned("Finding filename...")),
            ),
            (JobPhase::Announcing(d), JobEvent::Announced) => {
                let d2 = d.clone();
                (JobPhase::Probing(d), JobAction::Probe(d2))
            },
            (JobPhase::Probing(d), JobEvent::Probed(Ok(t))) => {
                let t2 = t.clone();
                (JobPhase::Checking { out_dir: d, target: t }, JobAction::CheckExists(t2))
            },
            (JobPhase::Checking { out_dir, target }, JobEvent::Exists(exists)) => {
                if exists {
                    (
                        JobPhase::Done,
                        JobAction::Finish(Ok(Saved { path: target, already_existed: true })),
                    )
                } else {
                    (JobPhase::Downloading(target), JobAction::Download(out_dir))
                }
            },
            (JobPhase::Downloading(t), JobEvent::Downloaded(Ok(_))) => (
                JobPhase::Done,
                JobAction::Finish(Ok(Saved { path: t, already_existed: false })),
            ),
            (p, _) => (p, JobAction::Nothing),
        },
    }
}

} // verus!
