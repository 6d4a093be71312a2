use ytmp3::error::AppError;
use ytmp3::steps::{job_step, JobAction, JobEvent, JobPhase};

#[test]
fn job_steps_through_a_download() {
    let (p, a) = job_step(JobPhase::Start, JobEvent::Begin);
    assert!(matches!(a, JobAction::ResolveDir));
    let (p, a) = job_step(p, JobEvent::Resolved(Ok("/music".to_string())));
    assert!(matches!(&a, JobAction::CreateDir(d) if d == "/music"));
    let (p, a) = job_step(p, JobEvent::Created(Ok(())));
    assert!(matches!(&a, JobAction::Announce(m) if m == "Finding filename..."));
    let (p, a) = job_step(p, JobEvent::Announced);
    assert!(matches!(&a, JobAction::Probe(d) if d == "/music"));
    let (p, a) = job_step(p, JobEvent::Probed(Ok("/music/s.mp3".to_string())));
    assert!(matches!(&a, JobAction::CheckExists(t) if t == "/music/s.mp3"));
    let (p, a) = job_step(p, JobEvent::Exists(false));
    assert!(matches!(&a, JobAction::Download(d) if d == "/music"));
    let (p, a) = job_step(p, JobEvent::Downloaded(Ok(())));
    match a {
        JobAction::Finish(Ok(s)) => {
            assert_eq!(s.path, "/music/s.mp3");
            assert!(!s.already_existed);
        }
        _ => panic!("expected a finish"),
    }
    assert!(matches!(p, JobPhase::Done));
    let (p, a) = job_step(p, JobEvent::Begin);
    assert!(matches!(p, JobPhase::Done) && matches!(a, JobAction::Nothing));
}

#[test]
fn existing_file_is_not_downloaded_again() {
    let phase = JobPhase::Checking { out_dir: "/m".to_string(), target: "/m/a.mp3".to_string() };
    let (p, a) = job_step(phase, JobEvent::Exists(true));
    assert!(matches!(p, JobPhase::Done));
    match a {
        JobAction::Finish(Ok(s)) => {
            assert_eq!(s.path, "/m/a.mp3");
            assert!(s.already_existed);
        }
        _ => panic!("expected a finish"),
    }
}

#[test]
fn errors_end_the_job() {
    let (p, a) = job_step(JobPhase::Resolving, JobEvent::Resolved(Err(AppError::Other("no home".into()))));
    assert!(matches!(p, JobPhase::Done));
    assert!(matches!(a, JobAction::Finish(Err(AppError::Other(m))) if m == "no home"));
    let (_, a) = job_step(JobPhase::Probing("/d".into()), JobEvent::Probed(Err(AppError::YtDlpMissing)));
    assert!(matches!(a, JobAction::Finish(Err(AppError::YtDlpMissing))));
    let (_, a) = job_step(JobPhase::Downloading("/d/x".into()), JobEvent::Downloaded(Err(AppError::Cancelled)));
    assert!(matches!(a, JobAction::Finish(Err(AppError::Cancelled))));
}

#[test]
fn unrelated_event_changes_nothing() {
    let (p, a) = job_step(JobPhase::Creating("/d".into()), JobEvent::Announced);
    assert!(matches!(&p, JobPhase::Creating(d) if d == "/d"));
    assert!(matches!(a, JobAction::Nothing));
}
