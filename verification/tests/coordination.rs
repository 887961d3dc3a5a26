use maestro::backend::{deploy_docker, deploy_kubrenetes, deploy_openstack, deploy_swarm, DeployType, HostType};
use maestro::cache::{Claim, ReadinessCache};
use maestro::config::{
    deploy_to_all_hosts, Config, ConfigError, ContainerConfig, DeploymentConfig, DockerConfig,
};
use maestro::coordinator::Coordinator;
use maestro::exec::{Executor, Session};
use maestro::model::{
    ContainerSpec, Credential, DeploymentUnit, ExecFailure, ExecutionResult, FailureCause,
    FailureReason, HostDescriptor, ParallelismPolicy,
};
use maestro::plan::plan;
use maestro::report::{process_deployment_results, DeploymentReport};

fn host(address: &str) -> HostDescriptor {
    HostDescriptor {
        address: address.to_string(),
        username: "ops".to_string(),
        auth: Credential::Password("pw".to_string()),
        ssh_port: Some(22),
    }
}

fn spec(name: &str, instances: u32) -> ContainerSpec {
    ContainerSpec {
        image_name: format!("{}-image", name),
        container_name: name.to_string(),
        instance_count: instances,
    }
}

fn failure(cause: FailureCause) -> ExecFailure {
    ExecFailure { stdout: String::new(), stderr: "boom".to_string(), cause }
}

fn unit(address: &str, name: &str, index: u32) -> DeploymentUnit {
    DeploymentUnit { host: host(address), spec: spec(name, 4), instance_index: index }
}

#[test]
fn plan_is_host_major_spec_minor_instance_minor() {
    let hosts = vec![host("a"), host("b")];
    let specs = vec![spec("web", 2), spec("db", 1)];
    let units = plan(&hosts, &specs);
    let got: Vec<(String, String, u32)> = units
        .iter()
        .map(|u| (u.host.address.clone(), u.spec.container_name.clone(), u.instance_index))
        .collect();
    let want: Vec<(String, String, u32)> = [
        ("a", "web", 0),
        ("a", "web", 1),
        ("a", "db", 0),
        ("b", "web", 0),
        ("b", "web", 1),
        ("b", "db", 0),
    ]
    .iter()
    .map(|(h, s, i)| (h.to_string(), s.to_string(), *i))
    .collect();
    assert_eq!(got, want);
}

#[test]
fn plan_size_is_hosts_times_instances() {
    let hosts = vec![host("a"), host("b"), host("c")];
    let specs = vec![spec("web", 2), spec("db", 0), spec("cache", 5)];
    assert_eq!(plan(&hosts, &specs).len(), 3 * (2 + 0 + 5));
    assert_eq!(plan(&Vec::new(), &specs).len(), 0);
    assert_eq!(plan(&hosts, &Vec::new()).len(), 0);
}

#[test]
fn instance_names_are_unique_on_a_host() {
    let hosts = vec![host("a")];
    let specs = vec![spec("web", 12), spec("web-1", 3), spec("db", 2)];
    let units = plan(&hosts, &specs);
    let mut names: Vec<String> =
        units.iter().map(|u| u.spec.instance_name(u.instance_index)).collect();
    let n = names.len();
    names.sort();
    names.dedup();
    assert_eq!(names.len(), n);
}

#[test]
fn report_starts_empty_and_counts_each_result() {
    let mut report = DeploymentReport::new();
    assert_eq!((report.total(), report.succeeded(), report.failed().len()), (0, 0, 0));
    report.record(ExecutionResult { unit: unit("a", "web", 0), outcome: Ok(()) });
    assert_eq!((report.total(), report.succeeded(), report.failed().len()), (1, 1, 0));
    report.record(ExecutionResult {
        unit: unit("a", "web", 1),
        outcome: Err(FailureReason::ContainerNotRunning("other".to_string())),
    });
    assert_eq!((report.total(), report.succeeded(), report.failed().len()), (2, 1, 1));
    report.record(ExecutionResult {
        unit: unit("b", "web", 0),
        outcome: Err(FailureReason::ExecFailure(failure(FailureCause::NonZeroExit))),
    });
    assert_eq!(report.succeeded() + report.failed().len(), report.total());
    assert_eq!(report.failed()[0].0.instance_index, 1);
    assert_eq!(report.failed()[1].0.host.address, "b");
}

#[test]
fn results_are_tallied_in_order() {
    let results = vec![
        ExecutionResult {
            unit: unit("a", "web", 0),
            outcome: Err(FailureReason::ToolchainMissing(failure(FailureCause::Transport))),
        },
        ExecutionResult { unit: unit("a", "web", 1), outcome: Ok(()) },
        ExecutionResult {
            unit: unit("a", "web", 2),
            outcome: Err(FailureReason::ExecFailure(failure(FailureCause::NonZeroExit))),
        },
    ];
    let report = process_deployment_results(results);
    assert_eq!(report.total(), 3);
    assert_eq!(report.succeeded(), 1);
    assert_eq!(report.failed().len(), 2);
    assert_eq!(report.failed()[0].0.instance_index, 0);
    assert_eq!(report.failed()[0].1.cause(), Some(FailureCause::Transport));
    assert_eq!(report.failed()[1].0.instance_index, 2);
    assert_eq!(process_deployment_results(Vec::new()).total(), 0);
}

#[test]
fn first_claim_probes_later_ones_wait_or_know() {
    let mut cache = ReadinessCache::new();
    assert!(cache.lookup("a").is_none());
    assert!(matches!(cache.claim("a"), Claim::Probe));
    assert!(matches!(cache.claim("a"), Claim::Wait));
    assert!(cache.lookup("a").is_none());
    assert!(matches!(cache.claim("b"), Claim::Probe));
    assert!(cache.resolve("a", Ok(())));
    assert!(matches!(cache.claim("a"), Claim::Known(Ok(()))));
    assert!(matches!(cache.lookup("a"), Some(Ok(()))));
    assert!(matches!(cache.claim("b"), Claim::Wait));
    assert!(cache.resolve("b", Err(failure(FailureCause::Transport))));
    match cache.claim("b") {
        Claim::Known(Err(f)) => assert_eq!(f.cause, FailureCause::Transport),
        other => panic!("unexpected {:?}", other),
    }
}

#[test]
fn results_nobody_waits_for_are_turned_away() {
    let mut cache = ReadinessCache::new();
    assert!(!cache.resolve("a", Ok(())));
    assert!(matches!(cache.claim("a"), Claim::Probe));
    assert!(cache.resolve("a", Err(failure(FailureCause::NonZeroExit))));
    assert!(!cache.resolve("a", Ok(())));
    assert!(matches!(cache.claim("a"), Claim::Known(Err(_))));
}

#[test]
fn store_records_once() {
    let mut cache = ReadinessCache::new();
    cache.store("a", Ok(()));
    assert!(matches!(cache.lookup("a"), Some(Ok(()))));
    cache.store("a", Err(failure(FailureCause::Transport)));
    assert!(matches!(cache.lookup("a"), Some(Ok(()))));
    assert!(matches!(cache.claim("b"), Claim::Probe));
    cache.store("b", Err(failure(FailureCause::Transport)));
    assert!(matches!(cache.lookup("b"), Some(Err(_))));
}

#[test]
fn sequential_policy_hands_out_one_unit_at_a_time() {
    let hosts = vec![host("a")];
    let specs = vec![spec("web", 3)];
    let mut c = Coordinator::new(&hosts, &specs, ParallelismPolicy::Sequential);
    assert_eq!(c.unit_count(), 3);
    assert!(!c.is_finished());
    assert_eq!(c.next_dispatch(), Some(0));
    assert_eq!(c.next_dispatch(), None);
    assert!(c.complete(0, Ok(())));
    assert_eq!(c.next_dispatch(), Some(1));
    assert_eq!(c.next_dispatch(), None);
    assert!(c.complete(1, Err(FailureReason::ContainerNotRunning(String::new()))));
    assert_eq!(c.next_dispatch(), Some(2));
    assert!(!c.is_finished());
    assert!(c.complete(2, Ok(())));
    assert_eq!(c.next_dispatch(), None);
    assert!(c.is_finished());
    let report = c.into_report().unwrap();
    assert_eq!((report.total(), report.succeeded(), report.failed().len()), (3, 2, 1));
    assert_eq!(report.failed()[0].0.instance_index, 1);
}

#[test]
fn parallel_policy_hands_out_everything_at_once() {
    let hosts = vec![host("a"), host("b")];
    let specs = vec![spec("web", 2)];
    let mut c = Coordinator::new(&hosts, &specs, ParallelismPolicy::Parallel);
    assert_eq!(c.next_dispatch(), Some(0));
    assert_eq!(c.next_dispatch(), Some(1));
    assert_eq!(c.next_dispatch(), Some(2));
    assert_eq!(c.next_dispatch(), Some(3));
    assert_eq!(c.next_dispatch(), None);
    assert!(!c.is_finished());
    assert!(c.complete(3, Ok(())));
    assert!(c.complete(0, Err(FailureReason::ContainerNotRunning(String::new()))));
    assert!(c.complete(2, Ok(())));
    assert!(!c.is_finished());
    assert_eq!(c.report().total(), 3);
    assert!(c.complete(1, Ok(())));
    assert!(c.is_finished());
    let report = c.into_report().unwrap();
    assert_eq!((report.total(), report.succeeded()), (4, 3));
    assert_eq!(report.failed()[0].0.host.address, "a");
}

#[test]
fn each_unit_is_counted_once() {
    let hosts = vec![host("a")];
    let specs = vec![spec("web", 2)];
    let mut c = Coordinator::new(&hosts, &specs, ParallelismPolicy::Parallel);
    assert!(!c.complete(0, Ok(())));
    assert_eq!(c.next_dispatch(), Some(0));
    assert!(c.complete(0, Ok(())));
    assert!(!c.complete(0, Ok(())));
    assert!(!c.complete(1, Ok(())));
    assert!(!c.complete(7, Ok(())));
    assert_eq!(c.report().total(), 1);
    assert!(c.unit(1).is_some());
    assert!(c.unit(2).is_none());
}

#[test]
fn cancellation_stops_dispatch_and_waits_for_units_in_flight() {
    let hosts = vec![host("a")];
    let specs = vec![spec("web", 4)];
    let mut c = Coordinator::new(&hosts, &specs, ParallelismPolicy::Parallel);
    assert_eq!(c.next_dispatch(), Some(0));
    assert_eq!(c.next_dispatch(), Some(1));
    c.cancel();
    assert_eq!(c.next_dispatch(), None);
    assert!(!c.is_finished());
    assert!(c.complete(1, Ok(())));
    assert!(!c.is_finished());
    assert!(c.complete(0, Ok(())));
    assert!(c.is_finished());
    let report = c.into_report().unwrap();
    assert_eq!(report.total(), 2);
}

#[test]
fn report_is_withheld_while_the_run_goes_on() {
    let hosts = vec![host("a")];
    let specs = vec![spec("web", 1)];
    let mut c = Coordinator::new(&hosts, &specs, ParallelismPolicy::Sequential);
    assert_eq!(c.next_dispatch(), Some(0));
    assert!(c.into_report().is_none());
    let c = Coordinator::new(&hosts, &specs, ParallelismPolicy::Sequential);
    assert!(c.into_report().is_none());
    let c = Coordinator::new(&hosts, &Vec::new(), ParallelismPolicy::Sequential);
    assert!(c.is_finished());
    assert_eq!(c.into_report().unwrap().total(), 0);
}

fn config(instances: u32, names: &[&str], addresses: &[&str], parallel: bool) -> Config {
    Config {
        docker: DockerConfig {
            containers: names
                .iter()
                .map(|n| ContainerConfig {
                    image_name: format!("{}-image", n),
                    container_name: n.to_string(),
                })
                .collect(),
            instances,
        },
        deployment: DeploymentConfig {
            hosts: addresses.iter().map(|a| host(a)).collect(),
            parallel_containers: parallel,
        },
    }
}

#[test]
fn valid_configuration_passes() {
    assert_eq!(config(1, &["web", "db"], &["a", "b"], false).validate(), Ok(()));
    assert_eq!(config(3, &[], &[], true).validate(), Ok(()));
}

#[test]
fn configuration_faults_come_in_order() {
    assert_eq!(config(0, &["web", "web"], &["a", "a"], false).validate(), Err(ConfigError::NoInstances));
    assert_eq!(
        config(1, &["web", "db", "web", "db"], &["a", "a"], false).validate(),
        Err(ConfigError::DuplicateContainer(2))
    );
    assert_eq!(
        config(1, &["web", "db"], &["a", "b", "c", "b", "a"], false).validate(),
        Err(ConfigError::DuplicateHost(3))
    );
}

#[test]
fn configuration_gives_each_container_the_one_instance_count() {
    let c = config(3, &["web", "db"], &["a"], true);
    let specs = c.container_specs();
    assert_eq!(specs.len(), 2);
    assert_eq!(specs[0].container_name, "web");
    assert_eq!(specs[0].image_name, "web-image");
    assert_eq!(specs[0].instance_count, 3);
    assert_eq!(specs[1].container_name, "db");
    assert_eq!(specs[1].instance_count, 3);
    assert_eq!(c.policy(), ParallelismPolicy::Parallel);
    assert_eq!(config(1, &[], &[], false).policy(), ParallelismPolicy::Sequential);
}

/// An engine that does what it is told.
struct Willing {
    calls: usize,
}

impl Executor for Willing {
    fn execute(
        &mut self,
        command: &Vec<String>,
        _target: &HostDescriptor,
    ) -> Result<String, ExecFailure> {
        self.calls += 1;
        if command.len() > 1 && command[1] == "ps" {
            return Ok(format!("{}\n", command[3].trim_start_matches("name=")));
        }
        Ok(String::new())
    }
}

#[test]
fn configuration_is_deployed_to_all_hosts() {
    let c = config(2, &["web", "db"], &["a", "b", "c"], false);
    let mut session = Session::new(Willing { calls: 0 });
    let report = deploy_to_all_hosts(&mut session, &c);
    assert_eq!(report.total(), 12);
    assert_eq!(report.succeeded(), 12);
    assert_eq!(session.executor().calls, 3 + 12 * 4);
}

#[test]
fn maestro_host_gets_the_dashboard() {
    let mut session = Session::new(Willing { calls: 0 });
    let report = deploy_docker(&mut session, host("a"), HostType::Maestro);
    assert_eq!((report.total(), report.succeeded()), (1, 1));
    assert_eq!(session.executor().calls, 5);
}

#[test]
fn head_of_the_fleet_gets_nothing() {
    let mut session = Session::new(Willing { calls: 0 });
    let report = deploy_docker(&mut session, host("a"), HostType::MaestroTopLevel);
    assert_eq!(report.total(), 0);
    assert_eq!(session.executor().calls, 0);
}

#[test]
fn other_kinds_run_nothing() {
    deploy_openstack();
    deploy_kubrenetes();
    deploy_swarm();
    for kind in [DeployType::Swarm, DeployType::Kubernetes, DeployType::OpenStack] {
        let mut session = Session::new(Willing { calls: 0 });
        let report = maestro::backend::deploy(&mut session, kind, host("a"), HostType::GameServer);
        assert_eq!(report.total(), 0);
        assert_eq!(session.executor().calls, 0);
    }
    let mut session = Session::new(Willing { calls: 0 });
    let report = maestro::backend::deploy(&mut session, DeployType::Docker, host("a"), HostType::Maestro);
    assert_eq!(report.total(), 1);
}

#[test]
fn host_types_have_their_names() {
    assert_eq!(HostType::Maestro.name(), "Maestro");
    assert_eq!(HostType::MaestroTopLevel.name(), "MaestroTopLevel");
    assert_eq!(HostType::GameServer.name(), "GameServer");
}

#[test]
fn summary_names_host_instance_and_cause() {
    let mut report = DeploymentReport::new();
    report.record(ExecutionResult { unit: unit("a", "web", 0), outcome: Ok(()) });
    report.record(ExecutionResult {
        unit: unit("b", "web", 3),
        outcome: Err(FailureReason::ToolchainMissing(failure(FailureCause::Transport))),
    });
    report.record(ExecutionResult {
        unit: unit("a", "db", 1),
        outcome: Err(FailureReason::ExecFailure(failure(FailureCause::NonZeroExit))),
    });
    report.record(ExecutionResult {
        unit: unit("c", "web", 10),
        outcome: Err(FailureReason::ContainerNotRunning("web-1".to_string())),
    });
    let lines = maestro::summary::deployment_summary(&report);
    assert_eq!(
        lines,
        vec![
            "Deployment Results:".to_string(),
            "  - Successful: 1/4".to_string(),
            "  - Failed: 3/4".to_string(),
            "  - b web-3: no container engine (transport failure): boom".to_string(),
            "  - a db-1: command failed (non-zero exit): boom".to_string(),
            "  - c web-10: container is not running; listed: web-1".to_string(),
        ]
    );
    assert_eq!(
        maestro::summary::deployment_summary(&DeploymentReport::new()),
        vec!["Deployment Results:", "  - Successful: 0/0", "  - Failed: 0/0"]
    );
}

#[test]
fn engine_missing_everywhere_needs_every_unit_to_say_so() {
    let mut report = DeploymentReport::new();
    assert!(!report.engine_missing_everywhere());
    report.record(ExecutionResult {
        unit: unit("a", "web", 0),
        outcome: Err(FailureReason::ToolchainMissing(failure(FailureCause::Transport))),
    });
    assert!(report.engine_missing_everywhere());
    report.record(ExecutionResult {
        unit: unit("b", "web", 0),
        outcome: Err(FailureReason::ToolchainMissing(failure(FailureCause::NonZeroExit))),
    });
    assert!(report.engine_missing_everywhere());
    let mut mixed = DeploymentReport::new();
    mixed.record(ExecutionResult {
        unit: unit("a", "web", 0),
        outcome: Err(FailureReason::ToolchainMissing(failure(FailureCause::Transport))),
    });
    mixed.record(ExecutionResult {
        unit: unit("a", "web", 1),
        outcome: Err(FailureReason::ExecFailure(failure(FailureCause::Transport))),
    });
    assert!(!mixed.engine_missing_everywhere());
    report.record(ExecutionResult { unit: unit("c", "web", 0), outcome: Ok(()) });
    assert!(!report.engine_missing_everywhere());
}

/// Keeps the addresses that commands went to.
struct Addresses {
    seen: Vec<String>,
}

impl Executor for Addresses {
    fn execute(
        &mut self,
        command: &Vec<String>,
        target: &HostDescriptor,
    ) -> Result<String, ExecFailure> {
        self.seen.push(target.address.clone());
        if command.len() > 1 && command[1] == "ps" {
            return Ok(format!("{}\n", command[3].trim_start_matches("name=")));
        }
        Ok(String::new())
    }
}

#[test]
fn one_host_is_deployed_to_alone() {
    let c = config(2, &["web", "db"], &["a", "b", "c"], false);
    let mut session = Session::new(Addresses { seen: Vec::new() });
    let report = maestro::docker::deploy_remotely(&mut session, &host("z"), &c);
    assert_eq!((report.total(), report.succeeded()), (4, 4));
    assert!(session.executor().seen.iter().all(|a| a == "z"));
    assert_eq!(session.executor().seen.len(), 1 + 4 * 4);
}

#[test]
fn local_deployment_targets_localhost() {
    let c = config(1, &["web"], &["a"], true);
    let mut session = Session::new(Addresses { seen: Vec::new() });
    let report = maestro::docker::deploy_locally(&mut session, &c);
    assert_eq!((report.total(), report.succeeded()), (1, 1));
    assert!(session.executor().seen.iter().all(|a| a == "localhost"));
    let local = HostDescriptor::localhost();
    assert!(local.is_local());
    assert_eq!(local.port(), 22);
}

#[test]
fn readiness_by_kind_of_host() {
    let mut session = Session::new(Addresses { seen: Vec::new() });
    assert!(maestro::docker::ensure_docker_installed_local(&mut session).is_ok());
    assert!(maestro::docker::ensure_docker_installed_remote(&mut session, &host("r")).is_ok());
    assert_eq!(session.executor().seen, vec!["localhost".to_string(), "r".to_string()]);
}
