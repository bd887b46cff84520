use ccg::error::{BackendError, BackendErrorKind};
use ccg::isolation::{branch_ref_of, current_branch_name, next, start, Action, Event, HeadState, Phase};

fn fault(kind: BackendErrorKind) -> BackendError<String> {
    BackendError { kind, message: "boom".to_string() }
}

fn named(r: &str) -> Event<String> {
    Event::Head(HeadState::Named(r.to_string()))
}

fn step(p: &Phase<String>, e: Event<String>) -> (Phase<String>, Action<String>) {
    next(p, &e)
}

#[test]
fn branch_name_comes_from_the_head() {
    assert_eq!(current_branch_name(&HeadState::Named("refs/heads/feature".to_string())).unwrap(), "feature");
    assert_eq!(current_branch_name(&HeadState::Named("HEAD".to_string())).unwrap(), "HEAD");
    assert_eq!(current_branch_name(&HeadState::Unborn).unwrap(), "main");
    assert!(current_branch_name(&HeadState::Nameless).is_err());
    let e = current_branch_name(&HeadState::Failed(fault(BackendErrorKind::Other))).unwrap_err();
    assert_eq!(e.message, "boom");
    assert_eq!(branch_ref_of("main"), "refs/heads/main");
}

#[test]
fn already_on_reserved_branch_runs_without_switching() {
    let (p, a) = start();
    assert!(matches!(a, Action::ReadHead));
    let (p, a) = step(&p, named("refs/heads/ccg"));
    assert!(matches!(a, Action::RunOperation));
    let (p, a) = step(&p, Event::Operation { failed: false });
    assert!(matches!(p, Phase::Done));
    assert!(matches!(a, Action::Complete { warn_restore: false }));
}

#[test]
fn work_branch_is_left_and_restored() {
    let (p, _) = start();
    let (p, a) = step(&p, named("refs/heads/main"));
    assert!(matches!(a, Action::FindReserved));
    let (p, a) = step(&p, Event::Found(Ok(())));
    assert!(matches!(&a, Action::PointHead(r) if r == "refs/heads/ccg"));
    let (p, a) = step(&p, Event::Completed(Ok(())));
    assert!(matches!(a, Action::RunOperation));
    let (p, a) = step(&p, Event::Operation { failed: false });
    assert!(matches!(&a, Action::PointHead(r) if r == "refs/heads/main"));
    let (_, a) = step(&p, Event::Completed(Ok(())));
    assert!(matches!(a, Action::Complete { warn_restore: false }));
}

#[test]
fn failed_restore_after_success_is_a_warning() {
    let p = Phase::Working { original: "main".to_string() };
    let (p2, _) = step(&p, Event::Operation { failed: false });
    let (_, a) = step(&p2, Event::Completed(Err(fault(BackendErrorKind::Other))));
    assert!(matches!(a, Action::Complete { warn_restore: true }));
    let (p3, _) = step(&p, Event::Operation { failed: true });
    let (_, a) = step(&p3, Event::Completed(Err(fault(BackendErrorKind::Other))));
    assert!(matches!(a, Action::Complete { warn_restore: false }));
}

#[test]
fn empty_repository_is_bootstrapped_once() {
    let (p, _) = start();
    let (p, _) = step(&p, Event::Head(HeadState::Unborn));
    let (p, a) = step(&p, Event::Found(Err(fault(BackendErrorKind::NotFound))));
    assert!(matches!(a, Action::FindReserved));
    let (p, a) = step(&p, Event::Found(Err(fault(BackendErrorKind::NotFound))));
    assert!(matches!(a, Action::CheckHeadCommit));
    let (p, a) = step(&p, Event::HasCommit(false));
    assert!(matches!(a, Action::CreateRootCommit));
    let (p, a) = step(&p, Event::Completed(Ok(())));
    assert!(matches!(a, Action::FindReserved));
    let (p, a) = step(&p, Event::Found(Err(fault(BackendErrorKind::NotFound))));
    assert!(matches!(a, Action::CreateReservedAtHead));
    let (p, a) = step(&p, Event::Completed(Ok(())));
    assert!(matches!(a, Action::ReadHead));
    let (p, _) = step(&p, named("refs/heads/main"));
    let (_, a) = step(&p, Event::Found(Err(fault(BackendErrorKind::NotFound))));
    assert!(matches!(&a, Action::Fail(e) if e.kind == BackendErrorKind::NotFound));
}

#[test]
fn repository_with_commits_gets_branch_at_head() {
    let (p, _) = start();
    let (p, _) = step(&p, named("refs/heads/main"));
    let (p, _) = step(&p, Event::Found(Err(fault(BackendErrorKind::NotFound))));
    let (p, _) = step(&p, Event::Found(Err(fault(BackendErrorKind::NotFound))));
    let (p, a) = step(&p, Event::HasCommit(true));
    assert!(matches!(a, Action::CreateReservedAtHead));
    let (p, a) = step(&p, Event::Completed(Ok(())));
    assert!(matches!(a, Action::ReadHead));
    assert!(matches!(p, Phase::Reading { retried: true }));
}

#[test]
fn other_failures_stop_the_protocol() {
    let (p, _) = start();
    let (p, a) = step(&p, Event::Head(HeadState::Failed(fault(BackendErrorKind::Other))));
    assert!(matches!(p, Phase::Done));
    assert!(matches!(&a, Action::Fail(e) if e.message == "boom"));
    let (_, a) = step(&p, Event::HasCommit(true));
    assert!(matches!(a, Action::Fail(_)));
}
