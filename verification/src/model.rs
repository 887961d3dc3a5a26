//! The data of a deployment run: hosts, container specs, units of work, and
//! the ways in which a unit can fail.

use vstd::prelude::*;

verus! {

/// How a session to a host authenticates.
#[derive(Debug)]
pub enum Credential {
    /// A password, handed to the session out of band.
    Password(String),
    /// The path of a private key file.
    KeyFile(String),
}

/// Mathematical value of a [`Credential`].
pub enum CredentialView {
    Password(Seq<char>),
    KeyFile(Seq<char>),
}

impl View for Credential {
    type V = CredentialView;

    open spec fn view(&self) -> CredentialView {
        match self {
            Credential::Password(p) => CredentialView::Password(p@),
            Credential::KeyFile(k) => CredentialView::KeyFile(k@),
        }
    }
}

impl Clone for Credential {
    fn clone(&self) -> (r: Self)
        ensures
            r@ == self@,
    {
        match self {
            Credential::Password(p) => Credential::Password(p.clone()),
            Credential::KeyFile(k) => Credential::KeyFile(k.clone()),
        }
    }
}

/// Connection parameters of one deployment target. A host is identified by
/// its address.
#[derive(Debug)]
pub struct HostDescriptor {
    pub address: String,
    pub username: String,
    pub auth: Credential,
    pub ssh_port: Option<u16>,
}

/// Mathematical value of a [`HostDescriptor`].
pub struct HostView {
    pub address: Seq<char>,
    pub username: Seq<char>,
    pub auth: CredentialView,
    pub ssh_port: Option<u16>,
}

impl View for HostDescriptor {
    type V = HostView;

    open spec fn view(&self) -> HostView {
        HostView {
            address: self.address@,
            username: self.username@,
            auth: self.auth@,
            ssh_port: self.ssh_port,
        }
    }
}

impl Clone for HostDescriptor {
    fn clone(&self) -> (r: Self)
        ensures
            r@ == self@,
    {
        HostDescriptor {
            address: self.address.clone(),
            username: self.username.clone(),
            auth: self.auth.clone(),
            ssh_port: self.ssh_port,
        }
    }
}

/// The address that names the machine the coordinator itself runs on.
pub open spec fn local_address() -> Seq<char> {
    "localhost"@
}

/// The port of a session when the host names none.
pub const DEFAULT_SSH_PORT: u16 = 22;

impl HostView {
    /// Whether commands for this host run on the coordinator's own machine.
    pub open spec fn is_local(self) -> bool {
        self.address == local_address()
    }

    /// The port a session to this host uses.
    pub open spec fn port(self) -> u16 {
        match self.ssh_port {
            Some(p) => p,
            None => DEFAULT_SSH_PORT,
        }
    }
}

/// The machine the coordinator itself runs on: no user, no key, no port,
/// since no session is opened to it.
pub open spec fn local_host() -> HostView {
    HostView {
        address: local_address(),
        username: Seq::empty(),
        auth: CredentialView::KeyFile(Seq::empty()),
        ssh_port: None,
    }
}

impl HostDescriptor {
    /// The machine the coordinator itself runs on.
    pub fn localhost() -> (host: HostDescriptor)
        ensures
            host@ == local_host(),
            host@.is_local(),
    {
        HostDescriptor {
            address: "localhost".to_owned(),
            username: String::new(),
            auth: Credential::KeyFile(String::new()),
            ssh_port: None,
        }
    }

    /// Whether commands for this host run as local processes rather than
    /// through a remote session.
    pub fn is_local(&self) -> (b: bool)
        ensures
            b == self@.is_local(),
    {
        let local = "localhost".to_owned();
        self.address == local
    }

    /// The port a session to this host uses: the configured one, or 22.
    pub fn port(&self) -> (p: u16)
        ensures
            p == self@.port(),
    {
        match self.ssh_port {
            Some(p) => p,
            None => DEFAULT_SSH_PORT,
        }
    }
}

/// A container to run: its image, its name, and how many instances of it
/// each host gets. A spec is identified by its container name.
#[derive(Debug)]
pub struct ContainerSpec {
    pub image_name: String,
    pub container_name: String,
    pub instance_count: u32,
}

/// Mathematical value of a [`ContainerSpec`].
pub struct SpecView {
    pub image_name: Seq<char>,
    pub container_name: Seq<char>,
    pub instance_count: nat,
}

impl View for ContainerSpec {
    type V = SpecView;

    open spec fn view(&self) -> SpecView {
        SpecView {
            image_name: self.image_name@,
            container_name: self.container_name@,
            instance_count: self.instance_count as nat,
        }
    }
}

impl Clone for ContainerSpec {
    fn clone(&self) -> (r: Self)
        ensures
            r@ == self@,
    {
        ContainerSpec {
            image_name: self.image_name.clone(),
            container_name: self.container_name.clone(),
            instance_count: self.instance_count,
        }
    }
}

/// The atomic work item: one instance of one container on one host.
#[derive(Debug)]
pub struct DeploymentUnit {
    pub host: HostDescriptor,
    pub spec: ContainerSpec,
    pub instance_index: u32,
}

/// Mathematical value of a [`DeploymentUnit`].
pub struct UnitView {
    pub host: HostView,
    pub spec: SpecView,
    pub instance_index: nat,
}

impl View for DeploymentUnit {
    type V = UnitView;

    open spec fn view(&self) -> UnitView {
        UnitView {
            host: self.host@,
            spec: self.spec@,
            instance_index: self.instance_index as nat,
        }
    }
}

impl Clone for DeploymentUnit {
    fn clone(&self) -> (r: Self)
        ensures
            r@ == self@,
    {
        DeploymentUnit {
            host: self.host.clone(),
            spec: self.spec.clone(),
            instance_index: self.instance_index,
        }
    }
}

/// The values of a list of hosts.
pub open spec fn hosts_view(hosts: Seq<HostDescriptor>) -> Seq<HostView> {
    hosts.map_values(|h: HostDescriptor| h@)
}

/// The values of a list of container specs.
pub open spec fn specs_view(specs: Seq<ContainerSpec>) -> Seq<SpecView> {
    specs.map_values(|s: ContainerSpec| s@)
}

/// The values of a list of units.
pub open spec fn units_view(units: Seq<DeploymentUnit>) -> Seq<UnitView> {
    units.map_values(|u: DeploymentUnit| u@)
}

/// Why a command invocation did not succeed.
#[derive(Clone, Copy, Debug, PartialEq, Eq, Structural)]
pub enum FailureCause {
    /// The command ran and ended with a non-zero exit status.
    NonZeroExit,
    /// The command could not be run: the process did not start or the
    /// session to the host could not be established or broke.
    Transport,
}

/// A failed command invocation with what it printed before failing.
#[derive(Debug)]
pub struct ExecFailure {
    pub stdout: String,
    pub stderr: String,
    pub cause: FailureCause,
}

/// Mathematical value of an [`ExecFailure`].
pub struct FailureView {
    pub stdout: Seq<char>,
    pub stderr: Seq<char>,
    pub cause: FailureCause,
}

impl View for ExecFailure {
    type V = FailureView;

    open spec fn view(&self) -> FailureView {
        FailureView { stdout: self.stdout@, stderr: self.stderr@, cause: self.cause }
    }
}

impl Clone for ExecFailure {
    fn clone(&self) -> (r: Self)
        ensures
            r@ == self@,
    {
        ExecFailure {
            stdout: self.stdout.clone(),
            stderr: self.stderr.clone(),
            cause: self.cause,
        }
    }
}

/// Why a unit failed.
#[derive(Debug)]
pub enum FailureReason {
    /// The host has no container engine and none could be installed; the
    /// failure is that of the last readiness command.
    ToolchainMissing(ExecFailure),
    /// A command of the unit's own convergence failed.
    ExecFailure(ExecFailure),
    /// Every command succeeded, but the engine does not list the instance as
    /// running; the payload is what it listed instead.
    ContainerNotRunning(String),
}

/// Mathematical value of a [`FailureReason`].
pub enum ReasonView {
    ToolchainMissing(FailureView),
    ExecFailure(FailureView),
    ContainerNotRunning(Seq<char>),
}

impl View for FailureReason {
    type V = ReasonView;

    open spec fn view(&self) -> ReasonView {
        match self {
            FailureReason::ToolchainMissing(f) => ReasonView::ToolchainMissing(f@),
            FailureReason::ExecFailure(f) => ReasonView::ExecFailure(f@),
            FailureReason::ContainerNotRunning(s) => ReasonView::ContainerNotRunning(s@),
        }
    }
}

impl Clone for FailureReason {
    fn clone(&self) -> (r: Self)
        ensures
            r@ == self@,
    {
        match self {
            FailureReason::ToolchainMissing(f) => FailureReason::ToolchainMissing(f.clone()),
            FailureReason::ExecFailure(f) => FailureReason::ExecFailure(f.clone()),
            FailureReason::ContainerNotRunning(s) => FailureReason::ContainerNotRunning(s.clone()),
        }
    }
}

impl ReasonView {
    /// The cause recorded with the reason, where a command failure stands
    /// behind it.
    pub open spec fn cause(self) -> Option<FailureCause> {
        match self {
            ReasonView::ToolchainMissing(f) => Some(f.cause),
            ReasonView::ExecFailure(f) => Some(f.cause),
            ReasonView::ContainerNotRunning(_) => None,
        }
    }
}

impl FailureReason {
    /// The cause of the command failure behind this reason; `None` for a
    /// container that is not running, which no failed command stands behind.
    pub fn cause(&self) -> (c: Option<FailureCause>)
        ensures
            c == self@.cause(),
    {
        match self {
            FailureReason::ToolchainMissing(f) => Some(f.cause),
            FailureReason::ExecFailure(f) => Some(f.cause),
            FailureReason::ContainerNotRunning(_) => None,
        }
    }
}

/// What became of one unit.
#[derive(Debug)]
pub struct ExecutionResult {
    pub unit: DeploymentUnit,
    pub outcome: Result<(), FailureReason>,
}

/// Mathematical value of an [`ExecutionResult`].
pub struct ResultView {
    pub unit: UnitView,
    pub outcome: Result<(), ReasonView>,
}

/// Mathematical value of a unit's outcome.
pub open spec fn outcome_view(o: Result<(), FailureReason>) -> Result<(), ReasonView> {
    match o {
        Ok(_) => Ok(()),
        Err(r) => Err(r@),
    }
}

impl View for ExecutionResult {
    type V = ResultView;

    open spec fn view(&self) -> ResultView {
        ResultView { unit: self.unit@, outcome: outcome_view(self.outcome) }
    }
}

/// How the units of a run are dispatched.
#[derive(Clone, Copy, Debug, PartialEq, Eq, Structural)]
pub enum ParallelismPolicy {
    /// One unit at a time, in the order of the plan.
    Sequential,
    /// All units at once, in no promised order.
    Parallel,
}

} // verus!
