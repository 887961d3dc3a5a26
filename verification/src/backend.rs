//! Deployment by kind of target: a container engine on the host, or one of
//! the orchestration systems that are supported for the sake of existing
//! installations.

use crate::exec::{Exchange, Executor, Session};
use crate::fleet::deployed;
use crate::laws::{lemma_empty_plan_runs_nothing, lemma_nothing_is_a_run};
use crate::model::{
    hosts_view, specs_view, ContainerSpec, HostDescriptor, ParallelismPolicy, SpecView,
};
use crate::plan::{fleet_units, lemma_no_specs_no_units, lemma_single_spec_total};
use crate::report::{DeploymentReport, ReportView};
use vstd::prelude::*;

verus! {

/// The system that a deployment goes to.
#[derive(Clone, Copy, Debug, PartialEq, Eq, Structural)]
pub enum DeployType {
    Docker,
    Swarm,
    Kubernetes,
    OpenStack,
}

/// The part that a host plays in the fleet.
#[derive(Clone, Copy, Debug, PartialEq, Eq, Structural)]
pub enum HostType {
    /// Runs the dashboard as a child service.
    Maestro,
    /// Heads the fleet. It is no child service: nothing is deployed to it.
    MaestroTopLevel,
    /// Runs game servers.
    GameServer,
}

impl HostType {
    /// The name of the host type as it is written into the host database.
    pub open spec fn label(self) -> Seq<char> {
        match self {
            HostType::Maestro => "Maestro"@,
            HostType::MaestroTopLevel => "MaestroTopLevel"@,
            HostType::GameServer => "GameServer"@,
        }
    }

    /// The name of the host type as it is written into the host database.
    pub fn name(&self) -> (s: String)
        ensures
            s@ == self.label(),
    {
        match self {
            HostType::Maestro => "Maestro".to_owned(),
            HostType::MaestroTopLevel => "MaestroTopLevel".to_owned(),
            HostType::GameServer => "GameServer".to_owned(),
        }
    }
}

/// The container that a `Maestro` host runs: one instance of the
/// dashboard.
pub open spec fn dashboard_spec() -> SpecView {
    SpecView {
        image_name: "horizon-dashboard"@,
        container_name: "horizon-dashboard"@,
        instance_count: 1,
    }
}

/// The specs that a host of the given type gets from a deployment to its
/// container engine: the dashboard for a `Maestro` host, nothing for the
/// host at the head of the fleet.
pub open spec fn docker_specs(host_type: HostType) -> Seq<SpecView> {
    match host_type {
        HostType::Maestro => seq![dashboard_spec()],
        _ => Seq::empty(),
    }
}

/// Deploys to the container engine of `host` what a host of its type
/// runs, through `session`.
///
/// A `Maestro` host gets one instance of the dashboard, deployed like any
/// other unit. Nothing is deployed to a `MaestroTopLevel` host: no command
/// is run and the report is empty. What a `GameServer` host gets is not
/// defined yet, so the function does not take one.
pub fn deploy_docker<E: Executor>(
    session: &mut Session<E>,
    host: HostDescriptor,
    host_type: HostType,
) -> (report: DeploymentReport)
    requires
        !(host_type is GameServer),
    ensures
        old(session).log().is_prefix_of(final(session).log()),
        deployed(
            fleet_units(seq![host@], docker_specs(host_type)),
            final(session).log().skip(old(session).log().len() as int),
            report@,
        ),
        report@.complete(),
        host_type is Maestro ==> report@.total == 1,
        host_type is MaestroTopLevel ==> report@ == ReportView::empty() && final(session).log()
            == old(session).log(),
{
    let mut hosts: Vec<HostDescriptor> = Vec::new();
    hosts.push(host);
    assert(hosts_view(hosts@) =~= seq![host@]);
    let mut specs: Vec<ContainerSpec> = Vec::new();
    match host_type {
        HostType::Maestro => {
            let dashboard = ContainerSpec {
                image_name: "horizon-dashboard".to_owned(),
                container_name: "horizon-dashboard".to_owned(),
                instance_count: 1,
            };
            specs.push(dashboard);
            assert(specs_view(specs@) =~= seq![dashboard_spec()]);
        },
        _ => {
            assert(specs_view(specs@) =~= Seq::<SpecView>::empty());
        },
    }
    let report = crate::fleet::deploy(session, &hosts, &specs, ParallelismPolicy::Sequential);
    proof {
        match host_type {
            HostType::Maestro => {
                lemma_single_spec_total(dashboard_spec());
            },
            _ => {
                let added = session.log().skip(old(session).log().len() as int);
                lemma_no_specs_no_units(seq![host@]);
                lemma_empty_plan_runs_nothing(added, report@);
                assert(session.log() =~= old(session).log() + added);
            },
        }
    }
    report
}

/// Deploys to OpenStack. There is nothing for this target to do: no step
/// is defined for it, and none is taken.
pub fn deploy_openstack() {
}

/// Deploys to Kubernetes. There is nothing for this target to do: no step
/// is defined for it, and none is taken.
pub fn deploy_kubrenetes() {
}

/// Deploys to Docker Swarm. There is nothing for this target to do: no
/// step is defined for it, and none is taken.
pub fn deploy_swarm() {
}

/// The specs that a host of the given type gets from a deployment of the
/// given kind: those of its container engine for `Docker`, none for the
/// kinds that have no steps.
pub open spec fn specs_for(kind: DeployType, host_type: HostType) -> Seq<SpecView> {
    match kind {
        DeployType::Docker => docker_specs(host_type),
        _ => Seq::empty(),
    }
}

/// Deploys to `host` by the system of the given kind and returns the
/// report. Only a deployment to a container engine runs commands; the
/// other kinds return the empty report.
pub fn deploy<E: Executor>(
    session: &mut Session<E>,
    kind: DeployType,
    host: HostDescriptor,
    host_type: HostType,
) -> (report: DeploymentReport)
    requires
        kind is Docker ==> !(host_type is GameServer),
    ensures
        old(session).log().is_prefix_of(final(session).log()),
        deployed(
            fleet_units(seq![host@], specs_for(kind, host_type)),
            final(session).log().skip(old(session).log().len() as int),
            report@,
        ),
        report@.complete(),
        !(kind is Docker) ==> report@ == ReportView::empty() && final(session).log() == old(
            session,
        ).log(),
{
    match kind {
        DeployType::Docker => deploy_docker(session, host, host_type),
        DeployType::Kubernetes => {
            deploy_kubrenetes();
            nothing_deployed(session, &host)
        },
        DeployType::OpenStack => {
            deploy_openstack();
            nothing_deployed(session, &host)
        },
        DeployType::Swarm => {
            deploy_swarm();
            nothing_deployed(session, &host)
        },
    }
}

/// The report of a deployment that had no unit.
fn nothing_deployed<E: Executor>(session: &Session<E>, host: &HostDescriptor) -> (report:
    DeploymentReport)
    ensures
        report@ == ReportView::empty(),
        deployed(
            fleet_units(seq![host@], Seq::empty()),
            session.log().skip(session.log().len() as int),
            report@,
        ),
{
    let report = DeploymentReport::new();
    proof {
        lemma_no_specs_no_units(seq![host@]);
        lemma_nothing_is_a_run();
        assert(session.log().skip(session.log().len() as int) =~= Seq::<Exchange>::empty());
    }
    report
}

} // verus!
