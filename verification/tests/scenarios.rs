use maestro::command::Action;
use maestro::exec::{Executor, Session};
use maestro::fleet::deploy;
use maestro::model::{
    ContainerSpec, Credential, ExecFailure, FailureCause, FailureReason, HostDescriptor,
    ParallelismPolicy,
};

fn host(address: &str) -> HostDescriptor {
    HostDescriptor {
        address: address.to_string(),
        username: "ops".to_string(),
        auth: Credential::KeyFile("/keys/id".to_string()),
        ssh_port: None,
    }
}

fn spec(image: &str, name: &str, instances: u32) -> ContainerSpec {
    ContainerSpec {
        image_name: image.to_string(),
        container_name: name.to_string(),
        instance_count: instances,
    }
}

/// An engine on every host that does what it is told, and counts.
struct Obedient {
    probes: usize,
    installs: usize,
    docker_commands: usize,
    down: Vec<String>,
    seen: Vec<(String, Vec<String>)>,
}

impl Obedient {
    fn new() -> Obedient {
        Obedient { probes: 0, installs: 0, docker_commands: 0, down: Vec::new(), seen: Vec::new() }
    }
}

impl Executor for Obedient {
    fn execute(
        &mut self,
        command: &Vec<String>,
        target: &HostDescriptor,
    ) -> Result<String, ExecFailure> {
        self.seen.push((target.address.clone(), command.clone()));
        if command == &Action::Probe.argv() {
            self.probes += 1;
        } else if command == &Action::Install.argv() {
            self.installs += 1;
        } else {
            self.docker_commands += 1;
        }
        if self.down.contains(&target.address) {
            return Err(ExecFailure {
                stdout: String::new(),
                stderr: "connection refused".to_string(),
                cause: FailureCause::Transport,
            });
        }
        if command.len() > 1 && command[1] == "ps" {
            let name = command[3].trim_start_matches("name=").to_string();
            return Ok(format!("{}\n", name));
        }
        Ok(String::new())
    }
}

#[test]
fn all_units_succeed() {
    let hosts = vec![host("10.0.0.1"), host("10.0.0.2")];
    let specs = vec![spec("nginx", "web", 2)];
    let mut session = Session::new(Obedient::new());
    let report = deploy(&mut session, &hosts, &specs, ParallelismPolicy::Sequential);
    assert_eq!(report.total(), 4);
    assert_eq!(report.succeeded(), 4);
    assert!(report.failed().is_empty());
    let engine = session.into_executor();
    assert_eq!(engine.probes, 2);
    assert_eq!(engine.installs, 0);
    assert_eq!(engine.docker_commands, 16);
}

#[test]
fn one_host_down() {
    let hosts = vec![host("10.0.0.1"), host("10.0.0.2")];
    let specs = vec![spec("nginx", "web", 2)];
    let mut engine = Obedient::new();
    engine.down.push("10.0.0.2".to_string());
    let mut session = Session::new(engine);
    let report = deploy(&mut session, &hosts, &specs, ParallelismPolicy::Sequential);
    assert_eq!(report.total(), 4);
    assert_eq!(report.succeeded(), 2);
    assert_eq!(report.failed().len(), 2);
    for (unit, reason) in report.failed() {
        assert_eq!(unit.host.address, "10.0.0.2");
        assert_eq!(reason.cause(), Some(FailureCause::Transport));
        assert!(matches!(reason, FailureReason::ToolchainMissing(_)));
    }
    let engine = session.into_executor();
    assert_eq!(engine.installs, 1);
}

/// A container engine kept in memory: the images it can pull and the
/// containers that run on each host.
struct Engine {
    images: Vec<String>,
    installed: Vec<String>,
    installable: bool,
    running: Vec<(String, String)>,
    installs: usize,
    probes: usize,
}

impl Engine {
    fn new(images: &[&str]) -> Engine {
        Engine {
            images: images.iter().map(|s| s.to_string()).collect(),
            installed: Vec::new(),
            installable: true,
            running: Vec::new(),
            installs: 0,
            probes: 0,
        }
    }

    fn running_on(&self, address: &str) -> Vec<String> {
        self.running.iter().filter(|(a, _)| a == address).map(|(_, n)| n.clone()).collect()
    }
}

fn refused(stderr: &str) -> Result<String, ExecFailure> {
    Err(ExecFailure {
        stdout: String::new(),
        stderr: stderr.to_string(),
        cause: FailureCause::NonZeroExit,
    })
}

impl Executor for Engine {
    fn execute(
        &mut self,
        command: &Vec<String>,
        target: &HostDescriptor,
    ) -> Result<String, ExecFailure> {
        let here = target.address.clone();
        if command == &Action::Install.argv() {
            self.installs += 1;
            if !self.installable {
                return refused("no package source");
            }
            self.installed.push(here);
            return Ok(String::new());
        }
        if !self.installed.contains(&here) {
            if command == &Action::Probe.argv() {
                self.probes += 1;
            }
            return refused("docker: command not found");
        }
        match command[1].as_str() {
            "--version" => {
                self.probes += 1;
                Ok("Docker version 25.0".to_string())
            }
            "pull" => {
                if self.images.contains(&command[2]) {
                    Ok(String::new())
                } else {
                    refused("manifest unknown")
                }
            }
            "rm" => {
                let before = self.running.len();
                self.running.retain(|(a, n)| !(a == &here && n == &command[3]));
                if self.running.len() < before {
                    Ok(command[3].clone())
                } else {
                    refused("No such container")
                }
            }
            "run" => {
                if self.running.iter().any(|(a, n)| a == &here && n == &command[4]) {
                    refused("name is already in use")
                } else {
                    self.running.push((here, command[4].clone()));
                    Ok("1f2e3d".to_string())
                }
            }
            "ps" => {
                let filter = command[3].trim_start_matches("name=").to_string();
                let mut out = String::new();
                for (a, n) in &self.running {
                    if a == &here && n.contains(&filter) {
                        out.push_str(n);
                        out.push('\n');
                    }
                }
                Ok(out)
            }
            other => panic!("unexpected command {}", other),
        }
    }
}

#[test]
fn converging_twice_leaves_one_running_container() {
    let mut engine = Engine::new(&["nginx"]);
    engine.installed.push("10.0.0.1".to_string());
    let target = host("10.0.0.1");
    let web = spec("nginx", "web", 1);
    let mut session = Session::new(engine);
    assert!(maestro::converge::converge(&mut session, &target, &web, 0).is_ok());
    assert_eq!(session.executor().running_on("10.0.0.1"), vec!["web-0".to_string()]);
    assert!(maestro::converge::converge(&mut session, &target, &web, 0).is_ok());
    assert!(maestro::converge::converge(&mut session, &target, &web, 0).is_ok());
    assert_eq!(session.executor().running_on("10.0.0.1"), vec!["web-0".to_string()]);
}

#[test]
fn deploying_twice_gives_the_same_report() {
    let hosts = vec![host("10.0.0.1"), host("10.0.0.2")];
    let specs = vec![spec("nginx", "web", 3), spec("redis", "cache", 1)];
    let mut session = Session::new(Engine::new(&["nginx", "redis"]));
    let first = deploy(&mut session, &hosts, &specs, ParallelismPolicy::Sequential);
    let second = deploy(&mut session, &hosts, &specs, ParallelismPolicy::Sequential);
    assert_eq!((first.total(), first.succeeded()), (8, 8));
    assert_eq!((second.total(), second.succeeded()), (8, 8));
    let mut names = session.executor().running_on("10.0.0.2");
    names.sort();
    assert_eq!(names, vec!["cache-0", "web-0", "web-1", "web-2"]);
}

#[test]
fn a_failed_pull_stops_no_other_unit() {
    let hosts = vec![host("10.0.0.1"), host("10.0.0.2")];
    let specs = vec![spec("missing", "ghost", 2), spec("nginx", "web", 3)];
    let mut session = Session::new(Engine::new(&["nginx"]));
    let report = deploy(&mut session, &hosts, &specs, ParallelismPolicy::Sequential);
    assert_eq!(report.total(), 2 * (2 + 3));
    assert_eq!(report.succeeded(), 6);
    assert_eq!(report.failed().len(), 4);
    for (unit, reason) in report.failed() {
        assert_eq!(unit.spec.container_name, "ghost");
        match reason {
            FailureReason::ExecFailure(f) => assert_eq!(f.stderr, "manifest unknown"),
            other => panic!("unexpected {:?}", other),
        }
    }
    assert_eq!(session.executor().running_on("10.0.0.1").len(), 3);
}

#[test]
fn a_host_is_installed_on_at_most_once() {
    for policy in [ParallelismPolicy::Sequential, ParallelismPolicy::Parallel] {
        let hosts = vec![host("10.0.0.1"), host("10.0.0.2")];
        let specs = vec![spec("nginx", "web", 5), spec("redis", "cache", 2)];
        let mut session = Session::new(Engine::new(&["nginx", "redis"]));
        let report = deploy(&mut session, &hosts, &specs, policy);
        assert_eq!((report.total(), report.succeeded()), (14, 14));
        assert_eq!(session.executor().installs, 2);
        assert_eq!(session.executor().probes, 4);
    }
}

#[test]
fn a_host_that_cannot_be_installed_on_fails_all_its_units() {
    let hosts = vec![host("10.0.0.1")];
    let specs = vec![spec("nginx", "web", 3)];
    let mut engine = Engine::new(&["nginx"]);
    engine.installable = false;
    let mut session = Session::new(engine);
    let report = deploy(&mut session, &hosts, &specs, ParallelismPolicy::Sequential);
    assert_eq!((report.total(), report.succeeded()), (3, 0));
    for (_, reason) in report.failed() {
        match reason {
            FailureReason::ToolchainMissing(f) => assert_eq!(f.stderr, "no package source"),
            other => panic!("unexpected {:?}", other),
        }
    }
    assert_eq!(session.executor().installs, 1);
    assert_eq!(session.executor().probes, 1);
    assert!(session.executor().running.is_empty());
}

#[test]
fn hosts_of_one_address_share_their_readiness() {
    let hosts = vec![host("10.0.0.1"), host("10.0.0.1")];
    let specs = vec![spec("nginx", "web", 1)];
    let mut session = Session::new(Engine::new(&["nginx"]));
    let report = deploy(&mut session, &hosts, &specs, ParallelismPolicy::Sequential);
    assert_eq!(report.total(), 2);
    assert_eq!(session.executor().installs, 1);
}

#[test]
fn report_counts_add_up() {
    let hosts = vec![host("10.0.0.1"), host("10.0.0.2"), host("10.0.0.3")];
    let specs = vec![spec("nginx", "web", 2), spec("missing", "ghost", 1), spec("redis", "cache", 4)];
    let mut engine = Obedient::new();
    engine.down.push("10.0.0.3".to_string());
    let mut session = Session::new(engine);
    let report = deploy(&mut session, &hosts, &specs, ParallelismPolicy::Parallel);
    assert_eq!(report.total(), 3 * (2 + 1 + 4));
    assert_eq!(report.succeeded() + report.failed().len(), report.total());
    assert_eq!(report.failed().len(), 7);
}

#[test]
fn commands_of_a_sequential_run_come_in_plan_order() {
    let hosts = vec![host("10.0.0.1"), host("10.0.0.2")];
    let specs = vec![spec("nginx", "web", 1), spec("redis", "cache", 1)];
    let mut session = Session::new(Obedient::new());
    deploy(&mut session, &hosts, &specs, ParallelismPolicy::Sequential);
    let engine = session.into_executor();
    let pulls: Vec<(String, String)> = engine
        .seen
        .iter()
        .filter(|(_, c)| c[1] == "pull")
        .map(|(a, c)| (a.clone(), c[2].clone()))
        .collect();
    let want: Vec<(String, String)> = [
        ("10.0.0.1", "nginx"),
        ("10.0.0.1", "redis"),
        ("10.0.0.2", "nginx"),
        ("10.0.0.2", "redis"),
    ]
    .iter()
    .map(|(a, i)| (a.to_string(), i.to_string()))
    .collect();
    assert_eq!(pulls, want);
    assert_eq!(engine.seen[0], ("10.0.0.1".to_string(), Action::Probe.argv()));
}
