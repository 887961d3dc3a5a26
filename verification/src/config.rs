//! The configuration of a run: which hosts, which containers, how many
//! instances of each, and whether units are dispatched in parallel.

use crate::command::strings_view;
use crate::converge::{instance_name, lemma_instance_name_injective};
use crate::exec::{Executor, Session};
use crate::fleet::{deploy, deployed};
use crate::model::{
    hosts_view, specs_view, ContainerSpec, HostDescriptor, HostView, ParallelismPolicy, SpecView,
    UnitView,
};
use crate::plan::{fleet_units, host_units, lemma_host_unit_at, locate, total_instances};
use crate::report::DeploymentReport;
use vstd::prelude::*;

verus! {

/// One container of the configuration: its image and its name.
#[derive(Debug)]
pub struct ContainerConfig {
    pub image_name: String,
    pub container_name: String,
}

/// The containers to run, and the number of instances that each of them
/// gets on each host.
#[derive(Debug)]
pub struct DockerConfig {
    pub containers: Vec<ContainerConfig>,
    pub instances: u32,
}

/// The hosts to deploy to, and whether to dispatch in parallel.
#[derive(Debug)]
pub struct DeploymentConfig {
    pub hosts: Vec<HostDescriptor>,
    pub parallel_containers: bool,
}

/// The configuration of a run.
#[derive(Debug)]
pub struct Config {
    pub docker: DockerConfig,
    pub deployment: DeploymentConfig,
}

/// Mathematical value of a [`Config`].
pub struct ConfigView {
    /// Image and name of each container.
    pub containers: Seq<(Seq<char>, Seq<char>)>,
    pub instances: nat,
    pub hosts: Seq<HostView>,
    pub parallel_containers: bool,
}

impl View for Config {
    type V = ConfigView;

    open spec fn view(&self) -> ConfigView {
        ConfigView {
            containers: self.docker.containers@.map_values(
                |c: ContainerConfig| (c.image_name@, c.container_name@),
            ),
            instances: self.docker.instances as nat,
            hosts: hosts_view(self.deployment.hosts@),
            parallel_containers: self.deployment.parallel_containers,
        }
    }
}

/// What makes a configuration unusable.
#[derive(Clone, Copy, Debug, PartialEq, Eq, Structural)]
pub enum ConfigError {
    /// The instance count is zero.
    NoInstances,
    /// The container at this position has the name of an earlier one.
    DuplicateContainer(usize),
    /// The host at this position has the address of an earlier one.
    DuplicateHost(usize),
}

/// Whether the entry at `j` repeats an earlier one.
pub open spec fn repeats_at(names: Seq<Seq<char>>, j: int) -> bool {
    exists|i: int| 0 <= i < j && #[trigger] names[i] == names[j]
}

/// Whether no entry before `n` repeats an earlier one.
pub open spec fn distinct_before(names: Seq<Seq<char>>, n: int) -> bool {
    forall|j: int| 0 <= j < n ==> !repeats_at(names, j)
}

impl ConfigView {
    /// The container specs of the configuration: each container with the
    /// one instance count that the configuration has for all of them.
    pub open spec fn specs(self) -> Seq<SpecView> {
        self.containers.map_values(
            |c: (Seq<char>, Seq<char>)|
                SpecView { image_name: c.0, container_name: c.1, instance_count: self.instances },
        )
    }

    /// The policy that the configuration asks for.
    pub open spec fn policy(self) -> ParallelismPolicy {
        if self.parallel_containers {
            ParallelismPolicy::Parallel
        } else {
            ParallelismPolicy::Sequential
        }
    }

    /// The names of the containers.
    pub open spec fn container_names(self) -> Seq<Seq<char>> {
        self.containers.map_values(|c: (Seq<char>, Seq<char>)| c.1)
    }

    /// The addresses of the hosts.
    pub open spec fn addresses(self) -> Seq<Seq<char>> {
        self.hosts.map_values(|h: HostView| h.address)
    }

    /// Whether the configuration can be deployed: at least one instance,
    /// no two containers of one name, no two hosts of one address.
    pub open spec fn valid(self) -> bool {
        &&& self.instances >= 1
        &&& distinct_before(self.container_names(), self.containers.len() as int)
        &&& distinct_before(self.addresses(), self.hosts.len() as int)
    }

    /// The first thing that makes the configuration unusable, if anything
    /// does: the instance count before the containers, the containers
    /// before the hosts, an earlier position before a later one.
    pub open spec fn fault(self, e: ConfigError) -> bool {
        match e {
            ConfigError::NoInstances => self.instances == 0,
            ConfigError::DuplicateContainer(j) => {
                &&& self.instances >= 1
                &&& j < self.containers.len()
                &&& distinct_before(self.container_names(), j as int)
                &&& repeats_at(self.container_names(), j as int)
            },
            ConfigError::DuplicateHost(j) => {
                &&& self.instances >= 1
                &&& distinct_before(self.container_names(), self.containers.len() as int)
                &&& j < self.hosts.len()
                &&& distinct_before(self.addresses(), j as int)
                &&& repeats_at(self.addresses(), j as int)
            },
        }
    }
}

/// The position of the first of `names` that repeats an earlier one.
fn first_repeat(names: &Vec<String>) -> (found: Option<usize>)
    ensures
        match found {
            Some(j) => j < names@.len() && distinct_before(
                strings_view(names@),
                j as int,
            ) && repeats_at(strings_view(names@), j as int),
            None => distinct_before(strings_view(names@), names@.len() as int),
        },
{
    let ghost views = strings_view(names@);
    let mut j: usize = 0;
    while j < names.len()
        invariant
            j <= names.len(),
            views == strings_view(names@),
            distinct_before(views, j as int),
        decreases names.len() - j,
    {
        let mut i: usize = 0;
        while i < j
            invariant
                i <= j < names.len(),
                views == strings_view(names@),
                distinct_before(views, j as int),
                forall|k: int| 0 <= k < i ==> #[trigger] views[k] != views[j as int],
            decreases j - i,
        {
            if names[i] == names[j] {
                assert(views[i as int] == views[j as int]);
                assert(repeats_at(views, j as int));
                return Some(j);
            }
            i += 1;
        }
        assert(!repeats_at(views, j as int));
        j += 1;
    }
    None
}

impl Config {
    /// The container specs of the configuration: each container with the
    /// one instance count that the configuration has for all of them.
    pub fn container_specs(&self) -> (specs: Vec<ContainerSpec>)
        ensures
            specs_view(specs@) == self@.specs(),
    {
        let mut specs: Vec<ContainerSpec> = Vec::new();
        let mut i: usize = 0;
        assert(specs_view(specs@) =~= self@.specs().take(0));
        while i < self.docker.containers.len()
            invariant
                i <= self.docker.containers.len(),
                specs_view(specs@) == self@.specs().take(i as int),
            decreases self.docker.containers.len() - i,
        {
            let c = &self.docker.containers[i];
            let spec = ContainerSpec {
                image_name: c.image_name.clone(),
                container_name: c.container_name.clone(),
                instance_count: self.docker.instances,
            };
            let ghost prev = specs_view(specs@);
            specs.push(spec);
            proof {
                let all = self@.specs();
                assert(specs_view(specs@) =~= prev.push(spec@));
                assert(all[i as int] == spec@);
                assert(all.take(i + 1) =~= all.take(i as int).push(spec@));
            }
            i += 1;
        }
        assert(self@.specs().take(self.docker.containers.len() as int) =~= self@.specs());
        specs
    }

    /// The policy that the configuration asks for.
    pub fn policy(&self) -> (p: ParallelismPolicy)
        ensures
            p == self@.policy(),
    {
        if self.deployment.parallel_containers {
            ParallelismPolicy::Parallel
        } else {
            ParallelismPolicy::Sequential
        }
    }

    /// Checks that the configuration can be deployed. It can where it asks
    /// for at least one instance, no two of its containers have one name,
    /// and no two of its hosts have one address. Otherwise the first fault
    /// is returned.
    pub fn validate(&self) -> (r: Result<(), ConfigError>)
        ensures
            r is Ok <==> self@.valid(),
            r matches Err(e) ==> self@.fault(e),
    {
        if self.docker.instances == 0 {
            return Err(ConfigError::NoInstances);
        }
        let mut names: Vec<String> = Vec::new();
        let mut i: usize = 0;
        assert(strings_view(names@) =~= self@.container_names().take(0));
        while i < self.docker.containers.len()
            invariant
                i <= self.docker.containers.len(),
                strings_view(names@) == self@.container_names().take(i as int),
            decreases self.docker.containers.len() - i,
        {
            let name = self.docker.containers[i].container_name.clone();
            let ghost prev = strings_view(names@);
            names.push(name);
            proof {
                let all = self@.container_names();
                assert(strings_view(names@) =~= prev.push(name@));
                assert(all[i as int] == name@);
                assert(all.take(i + 1) =~= all.take(i as int).push(name@));
            }
            i += 1;
        }
        assert(self@.container_names().take(self.docker.containers.len() as int)
            =~= self@.container_names());
        match first_repeat(&names) {
            Some(j) => {
                return Err(ConfigError::DuplicateContainer(j));
            },
            None => {},
        }
        let mut addresses: Vec<String> = Vec::new();
        let mut k: usize = 0;
        assert(strings_view(addresses@) =~= self@.addresses().take(0));
        while k < self.deployment.hosts.len()
            invariant
                k <= self.deployment.hosts.len(),
                strings_view(addresses@) == self@.addresses().take(k as int),
            decreases self.deployment.hosts.len() - k,
        {
            let address = self.deployment.hosts[k].address.clone();
            let ghost prev = strings_view(addresses@);
            addresses.push(address);
            proof {
                let all = self@.addresses();
                assert(strings_view(addresses@) =~= prev.push(address@));
                assert(all[k as int] == address@);
                assert(all.take(k + 1) =~= all.take(k as int).push(address@));
            }
            k += 1;
        }
        assert(self@.addresses().take(self.deployment.hosts.len() as int) =~= self@.addresses());
        match first_repeat(&addresses) {
            Some(j) => Err(ConfigError::DuplicateHost(j)),
            None => Ok(()),
        }
    }
}

/// Deploys the containers of `config` on all its hosts, through `session`,
/// and returns the report of the run.
pub fn deploy_to_all_hosts<E: Executor>(session: &mut Session<E>, config: &Config) -> (report:
    DeploymentReport)
    ensures
        old(session).log().is_prefix_of(final(session).log()),
        deployed(
            fleet_units(config@.hosts, config@.specs()),
            final(session).log().skip(old(session).log().len() as int),
            report@,
        ),
        report@.complete(),
        report@.total == config@.hosts.len() * total_instances(config@.specs()),
{
    let specs = config.container_specs();
    deploy(session, &config.deployment.hosts, &specs, config.policy())
}

/// At most one fault is the first.
pub proof fn lemma_fault_is_unique(config: ConfigView, e1: ConfigError, e2: ConfigError)
    requires
        config.fault(e1),
        config.fault(e2),
    ensures
        e1 == e2,
{
}

/// Whether no two of the specs have one container name.
pub open spec fn distinct_names(specs: Seq<SpecView>) -> bool {
    forall|a: int, b: int|
        0 <= a < b < specs.len() ==> (#[trigger] specs[a]).container_name != (
        #[trigger] specs[b]).container_name
}

/// The identity of a unit on its host: the name of its instance.
pub open spec fn identity(unit: UnitView) -> Seq<char> {
    instance_name(unit.spec.container_name, unit.instance_index)
}

/// Instance identities are unique on a host: where no two specs have one
/// container name, no two units of a host have one instance name.
pub proof fn lemma_identities_unique(host: HostView, specs: Seq<SpecView>, i: int, j: int)
    requires
        distinct_names(specs),
        0 <= i < j < host_units(host, specs).len(),
    ensures
        identity(host_units(host, specs)[i]) != identity(host_units(host, specs)[j]),
{
    lemma_host_unit_at(host, specs, i);
    lemma_host_unit_at(host, specs, j);
    let (si, xi) = locate(specs, i);
    let (sj, xj) = locate(specs, j);
    let ui = host_units(host, specs)[i];
    let uj = host_units(host, specs)[j];
    if identity(ui) == identity(uj) {
        lemma_instance_name_injective(
            ui.spec.container_name,
            ui.instance_index,
            uj.spec.container_name,
            uj.instance_index,
        );
        if si < sj {
            assert(specs[si].container_name != specs[sj].container_name);
        } else if sj < si {
            assert(specs[sj].container_name != specs[si].container_name);
        }
        assert(false);
    }
}

/// The specs of a valid configuration have distinct container names.
pub proof fn lemma_valid_config_has_distinct_names(config: ConfigView)
    requires
        config.valid(),
    ensures
        distinct_names(config.specs()),
{
    let names = config.container_names();
    assert forall|a: int, b: int| 0 <= a < b < config.specs().len() implies (
    #[trigger] config.specs()[a]).container_name != (#[trigger] config.specs()[b]).container_name by {
        assert(!repeats_at(names, b));
        assert(names[a] == config.specs()[a].container_name);
        assert(names[b] == config.specs()[b].container_name);
    }
}

} // verus!
