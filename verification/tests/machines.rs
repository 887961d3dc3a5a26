use maestro::command::Action;
use maestro::converge::{converge, ConvergePhase, ConvergeStep};
use maestro::exec::{Executor, Session};
use maestro::model::{
    ContainerSpec, Credential, ExecFailure, FailureCause, FailureReason, HostDescriptor,
};
use maestro::readiness::{ensure_ready, ReadinessPhase, ReadinessStep};

fn host() -> HostDescriptor {
    HostDescriptor {
        address: "10.0.0.1".to_string(),
        username: "ops".to_string(),
        auth: Credential::KeyFile("/keys/id".to_string()),
        ssh_port: None,
    }
}

fn web() -> ContainerSpec {
    ContainerSpec {
        image_name: "nginx".to_string(),
        container_name: "web".to_string(),
        instance_count: 3,
    }
}

fn failure(stderr: &str, cause: FailureCause) -> ExecFailure {
    ExecFailure { stdout: String::new(), stderr: stderr.to_string(), cause }
}

/// Answers from a script, one answer for each command, and keeps what was
/// asked.
struct Scripted {
    answers: Vec<Result<String, ExecFailure>>,
    asked: Vec<Vec<String>>,
}

impl Scripted {
    fn new(mut answers: Vec<Result<String, ExecFailure>>) -> Scripted {
        answers.reverse();
        Scripted { answers, asked: Vec::new() }
    }
}

impl Executor for Scripted {
    fn execute(
        &mut self,
        command: &Vec<String>,
        _target: &HostDescriptor,
    ) -> Result<String, ExecFailure> {
        self.asked.push(command.clone());
        self.answers.pop().expect("more commands than answers")
    }
}

fn ok(s: &str) -> Result<String, ExecFailure> {
    Ok(s.to_string())
}

#[test]
fn readiness_phases_ask_for_their_commands() {
    assert!(matches!(ReadinessPhase::Unknown.action(), Action::Probe));
    assert!(matches!(ReadinessPhase::Absent.action(), Action::Install));
    assert!(matches!(ReadinessPhase::Installed.action(), Action::Probe));
}

#[test]
fn readiness_steps() {
    let f = || failure("no", FailureCause::NonZeroExit);
    assert!(matches!(ReadinessPhase::Unknown.step(ok("Docker 25")), ReadinessStep::Ready));
    assert!(matches!(
        ReadinessPhase::Unknown.step(Err(f())),
        ReadinessStep::Next(ReadinessPhase::Absent)
    ));
    assert!(matches!(
        ReadinessPhase::Absent.step(ok("")),
        ReadinessStep::Next(ReadinessPhase::Installed)
    ));
    assert!(matches!(ReadinessPhase::Absent.step(Err(f())), ReadinessStep::Failed(_)));
    assert!(matches!(ReadinessPhase::Installed.step(ok("")), ReadinessStep::Ready));
    assert!(matches!(ReadinessPhase::Installed.step(Err(f())), ReadinessStep::Failed(_)));
}

#[test]
fn ready_host_is_probed_once() {
    let mut session = Session::new(Scripted::new(vec![ok("Docker version 25")]));
    assert!(ensure_ready(&mut session, &host()).is_ok());
    let exec = session.into_executor();
    assert_eq!(exec.asked, vec![Action::Probe.argv()]);
}

#[test]
fn absent_engine_is_installed_and_probed_again() {
    let mut session = Session::new(Scripted::new(vec![
        Err(failure("docker: not found", FailureCause::NonZeroExit)),
        ok("installed"),
        ok("Docker version 25"),
    ]));
    assert!(ensure_ready(&mut session, &host()).is_ok());
    let exec = session.into_executor();
    assert_eq!(
        exec.asked,
        vec![Action::Probe.argv(), Action::Install.argv(), Action::Probe.argv()]
    );
}

#[test]
fn failed_installation_is_final() {
    let mut session = Session::new(Scripted::new(vec![
        Err(failure("docker: not found", FailureCause::NonZeroExit)),
        Err(failure("curl: no route", FailureCause::NonZeroExit)),
    ]));
    let r = ensure_ready(&mut session, &host());
    let f = r.unwrap_err();
    assert_eq!(f.stderr, "curl: no route");
    assert_eq!(f.cause, FailureCause::NonZeroExit);
    assert_eq!(session.into_executor().asked.len(), 2);
}

#[test]
fn second_probe_decides_and_nothing_is_retried() {
    let mut session = Session::new(Scripted::new(vec![
        Err(failure("first", FailureCause::NonZeroExit)),
        ok("installed"),
        Err(failure("still absent", FailureCause::NonZeroExit)),
    ]));
    let f = ensure_ready(&mut session, &host()).unwrap_err();
    assert_eq!(f.stderr, "still absent");
    assert_eq!(session.into_executor().asked.len(), 3);
}

#[test]
fn converge_phases_ask_for_their_commands() {
    let s = web();
    assert_eq!(ConvergePhase::Pulling.action(&s, 1).argv(), Action::Pull { image: "nginx".into() }.argv());
    assert_eq!(ConvergePhase::Removing.action(&s, 1).argv(), Action::Remove { name: "web-1".into() }.argv());
    assert_eq!(
        ConvergePhase::Starting.action(&s, 1).argv(),
        Action::Run { name: "web-1".into(), image: "nginx".into() }.argv()
    );
    assert_eq!(ConvergePhase::Checking.action(&s, 1).argv(), Action::List { name: "web-1".into() }.argv());
}

#[test]
fn converge_steps() {
    let s = web();
    let f = || failure("no", FailureCause::NonZeroExit);
    assert!(matches!(ConvergePhase::Pulling.step(&s, 0, ok("")), ConvergeStep::Next(ConvergePhase::Removing)));
    assert!(matches!(
        ConvergePhase::Pulling.step(&s, 0, Err(f())),
        ConvergeStep::Failed(FailureReason::ExecFailure(_))
    ));
    assert!(matches!(ConvergePhase::Removing.step(&s, 0, ok("")), ConvergeStep::Next(ConvergePhase::Starting)));
    assert!(matches!(ConvergePhase::Removing.step(&s, 0, Err(f())), ConvergeStep::Next(ConvergePhase::Starting)));
    assert!(matches!(ConvergePhase::Starting.step(&s, 0, ok("")), ConvergeStep::Next(ConvergePhase::Checking)));
    assert!(matches!(
        ConvergePhase::Starting.step(&s, 0, Err(f())),
        ConvergeStep::Failed(FailureReason::ExecFailure(_))
    ));
    assert!(matches!(ConvergePhase::Checking.step(&s, 0, ok("web-0\n")), ConvergeStep::Converged));
    assert!(matches!(
        ConvergePhase::Checking.step(&s, 0, ok("web-1\n")),
        ConvergeStep::Failed(FailureReason::ContainerNotRunning(_))
    ));
    assert!(matches!(
        ConvergePhase::Checking.step(&s, 0, Err(f())),
        ConvergeStep::Failed(FailureReason::ExecFailure(_))
    ));
}

#[test]
fn converge_runs_four_commands_in_order() {
    let mut session = Session::new(Scripted::new(vec![ok(""), ok("web-2"), ok("abc123"), ok("web-2\n")]));
    assert!(converge(&mut session, &host(), &web(), 2).is_ok());
    let exec = session.into_executor();
    assert_eq!(
        exec.asked,
        vec![
            Action::Pull { image: "nginx".into() }.argv(),
            Action::Remove { name: "web-2".into() }.argv(),
            Action::Run { name: "web-2".into(), image: "nginx".into() }.argv(),
            Action::List { name: "web-2".into() }.argv(),
        ]
    );
}

#[test]
fn failed_pull_ends_the_unit() {
    let mut session = Session::new(Scripted::new(vec![Err(failure("manifest unknown", FailureCause::NonZeroExit))]));
    let r = converge(&mut session, &host(), &web(), 0).unwrap_err();
    match r {
        FailureReason::ExecFailure(f) => assert_eq!(f.stderr, "manifest unknown"),
        other => panic!("unexpected {:?}", other),
    }
    assert_eq!(session.into_executor().asked.len(), 1);
}

#[test]
fn failed_removal_is_passed_over() {
    let mut session = Session::new(Scripted::new(vec![
        ok(""),
        Err(failure("No such container", FailureCause::NonZeroExit)),
        ok("abc"),
        ok("web-0\n"),
    ]));
    assert!(converge(&mut session, &host(), &web(), 0).is_ok());
    assert_eq!(session.into_executor().asked.len(), 4);
}

#[test]
fn failed_start_ends_the_unit() {
    let mut session = Session::new(Scripted::new(vec![
        ok(""),
        ok(""),
        Err(failure("port is already allocated", FailureCause::NonZeroExit)),
    ]));
    let r = converge(&mut session, &host(), &web(), 0).unwrap_err();
    assert_eq!(r.cause(), Some(FailureCause::NonZeroExit));
    assert_eq!(session.into_executor().asked.len(), 3);
}

#[test]
fn failed_listing_ends_the_unit() {
    let mut session = Session::new(Scripted::new(vec![
        ok(""),
        ok(""),
        ok(""),
        Err(failure("broken pipe", FailureCause::Transport)),
    ]));
    let r = converge(&mut session, &host(), &web(), 0).unwrap_err();
    assert_eq!(r.cause(), Some(FailureCause::Transport));
}

#[test]
fn container_that_is_not_listed_is_not_running() {
    let mut session = Session::new(Scripted::new(vec![ok(""), ok(""), ok(""), ok("\n")]));
    let r = converge(&mut session, &host(), &web(), 0).unwrap_err();
    match r {
        FailureReason::ContainerNotRunning(listed) => assert_eq!(listed, ""),
        other => panic!("unexpected {:?}", other),
    }
    let mut session = Session::new(Scripted::new(vec![ok(""), ok(""), ok(""), ok("web-0\nweb-00\n")]));
    let r = converge(&mut session, &host(), &web(), 0).unwrap_err();
    assert_eq!(r.cause(), None);
    match r {
        FailureReason::ContainerNotRunning(listed) => assert_eq!(listed, "web-0\nweb-00"),
        other => panic!("unexpected {:?}", other),
    }
}
