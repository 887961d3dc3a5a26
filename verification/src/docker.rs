//! Deployment to the container engine of a single host: the machine the
//! coordinator runs on, or a remote one.

use crate::config::Config;
use crate::exec::{Executor, Session};
use crate::fleet::{deploy, deployed};
use crate::model::{hosts_view, local_host, ExecFailure, HostDescriptor};
use crate::plan::{fleet_units, total_instances};
use crate::readiness::{ensure_ready, readiness_run, readiness_view, ReadinessPhase};
use crate::report::DeploymentReport;
use vstd::prelude::*;

verus! {

/// Makes sure that the local machine has a container engine, installing
/// it where the probe finds none.
pub fn ensure_docker_installed_local<E: Executor>(session: &mut Session<E>) -> (r: Result<
    (),
    ExecFailure,
>)
    ensures
        old(session).log().is_prefix_of(final(session).log()),
        readiness_run(
            ReadinessPhase::Unknown,
            local_host(),
            final(session).log().skip(old(session).log().len() as int),
        ) == Some(readiness_view(r)),
{
    let host = HostDescriptor::localhost();
    ensure_ready(session, &host)
}

/// Makes sure that the remote `host` has a container engine, installing
/// it where the probe finds none.
pub fn ensure_docker_installed_remote<E: Executor>(
    session: &mut Session<E>,
    host: &HostDescriptor,
) -> (r: Result<(), ExecFailure>)
    ensures
        old(session).log().is_prefix_of(final(session).log()),
        readiness_run(
            ReadinessPhase::Unknown,
            host@,
            final(session).log().skip(old(session).log().len() as int),
        ) == Some(readiness_view(r)),
{
    ensure_ready(session, host)
}

/// Deploys the containers of `config` on `host` alone, whatever hosts
/// the configuration names, and returns the report of that run.
pub fn deploy_remotely<E: Executor>(
    session: &mut Session<E>,
    host: &HostDescriptor,
    config: &Config,
) -> (report: DeploymentReport)
    ensures
        old(session).log().is_prefix_of(final(session).log()),
        deployed(
            fleet_units(seq![host@], config@.specs()),
            final(session).log().skip(old(session).log().len() as int),
            report@,
        ),
        report@.complete(),
        report@.total == total_instances(config@.specs()),
{
    let mut hosts: Vec<HostDescriptor> = Vec::new();
    hosts.push(host.clone());
    assert(hosts_view(hosts@) =~= seq![host@]);
    let specs = config.container_specs();
    deploy(session, &hosts, &specs, config.policy())
}

/// Deploys the containers of `config` on the local machine, whatever
/// hosts the configuration names, and returns the report of that run.
pub fn deploy_locally<E: Executor>(session: &mut Session<E>, config: &Config) -> (report:
    DeploymentReport)
    ensures
        old(session).log().is_prefix_of(final(session).log()),
        deployed(
            fleet_units(seq![local_host()], config@.specs()),
            final(session).log().skip(old(session).log().len() as int),
            report@,
        ),
        report@.complete(),
        report@.total == total_instances(config@.specs()),
{
    let host = HostDescriptor::localhost();
    deploy_remotely(session, &host, config)
}

} // verus!
