//! The plan of a run: every instance of every container on every host, in
//! the order in which a sequential run takes them.

use crate::model::{
    hosts_view, specs_view, units_view, ContainerSpec, DeploymentUnit, HostDescriptor, HostView,
    SpecView, UnitView,
};
use vstd::prelude::*;

verus! {

/// The instances of one container on one host, by rising index.
pub open spec fn instances(host: HostView, spec: SpecView) -> Seq<UnitView> {
    Seq::new(spec.instance_count, |i: int| UnitView { host, spec, instance_index: i as nat })
}

/// The units of one host: the instances of the first spec, then those of
/// the second, and so on.
pub open spec fn host_units(host: HostView, specs: Seq<SpecView>) -> Seq<UnitView>
    decreases specs.len(),
{
    if specs.len() == 0 {
        Seq::empty()
    } else {
        host_units(host, specs.drop_last()) + instances(host, specs.last())
    }
}

/// The units of a fleet: those of the first host, then those of the
/// second, and so on. This is the cartesian product of hosts, specs and
/// instance indices, host-major, spec-minor, instance-minor.
pub open spec fn fleet_units(hosts: Seq<HostView>, specs: Seq<SpecView>) -> Seq<UnitView>
    decreases hosts.len(),
{
    if hosts.len() == 0 {
        Seq::empty()
    } else {
        fleet_units(hosts.drop_last(), specs) + host_units(hosts.last(), specs)
    }
}

/// The number of instances that the specs ask for on each host.
pub open spec fn total_instances(specs: Seq<SpecView>) -> nat
    decreases specs.len(),
{
    if specs.len() == 0 {
        0
    } else {
        total_instances(specs.drop_last()) + specs.last().instance_count
    }
}

/// A host gets as many units as the specs ask instances for.
pub proof fn lemma_host_units_len(host: HostView, specs: Seq<SpecView>)
    ensures
        host_units(host, specs).len() == total_instances(specs),
    decreases specs.len(),
{
    if specs.len() > 0 {
        lemma_host_units_len(host, specs.drop_last());
    }
}

/// The plan holds one unit for each host and each instance asked for:
/// the number of hosts times the sum of the instance counts.
pub proof fn lemma_fleet_units_len(hosts: Seq<HostView>, specs: Seq<SpecView>)
    ensures
        fleet_units(hosts, specs).len() == hosts.len() * total_instances(specs),
    decreases hosts.len(),
{
    if hosts.len() > 0 {
        lemma_fleet_units_len(hosts.drop_last(), specs);
        lemma_host_units_len(hosts.last(), specs);
        assert((hosts.len() - 1) * total_instances(specs) + total_instances(specs) == hosts.len()
            * total_instances(specs)) by (nonlinear_arith);
    }
}

/// Expands hosts and specs into the units of a run, in the order in which
/// a sequential run takes them: host by host, within a host spec by spec,
/// within a spec by rising instance index.
pub fn plan(hosts: &Vec<HostDescriptor>, specs: &Vec<ContainerSpec>) -> (units: Vec<DeploymentUnit>)
    ensures
        units_view(units@) == fleet_units(hosts_view(hosts@), specs_view(specs@)),
        units@.len() == hosts@.len() * total_instances(specs_view(specs@)),
{
    let ghost hv = hosts_view(hosts@);
    let ghost sv = specs_view(specs@);
    let mut units: Vec<DeploymentUnit> = Vec::new();
    let mut i: usize = 0;
    assert(hv.take(0) =~= Seq::<HostView>::empty());
    assert(units_view(units@) =~= Seq::<UnitView>::empty());
    while i < hosts.len()
        invariant
            i <= hosts.len(),
            hv == hosts_view(hosts@),
            sv == specs_view(specs@),
            units_view(units@) == fleet_units(hv.take(i as int), sv),
        decreases hosts.len() - i,
    {
        let host = &hosts[i];
        let ghost done = fleet_units(hv.take(i as int), sv);
        let mut j: usize = 0;
        assert(sv.take(0) =~= Seq::<SpecView>::empty());
        assert(done + host_units(host@, sv.take(0)) =~= done);
        while j < specs.len()
            invariant
                j <= specs.len(),
                sv == specs_view(specs@),
                units_view(units@) == done + host_units(host@, sv.take(j as int)),
            decreases specs.len() - j,
        {
            let spec = &specs[j];
            let ghost filled = done + host_units(host@, sv.take(j as int));
            let mut k: u32 = 0;
            assert(instances(host@, spec@).take(0) =~= Seq::<UnitView>::empty());
            assert(filled + instances(host@, spec@).take(0) =~= filled);
            while k < spec.instance_count
                invariant
                    k <= spec.instance_count,
                    units_view(units@) == filled + instances(host@, spec@).take(k as int),
                decreases spec.instance_count - k,
            {
                let unit = DeploymentUnit {
                    host: host.clone(),
                    spec: spec.clone(),
                    instance_index: k,
                };
                units.push(unit);
                proof {
                    let all = instances(host@, spec@);
                    assert(all[k as int] == unit@);
                    assert(all.take(k + 1) =~= all.take(k as int).push(unit@));
                    assert(units_view(units@) =~= (filled + all.take(k as int)).push(unit@));
                    assert((filled + all.take(k as int)).push(unit@) =~= filled + all.take(k + 1));
                }
                k += 1;
            }
            proof {
                let all = instances(host@, spec@);
                assert(all.take(all.len() as int) =~= all);
                let upto = sv.take(j + 1);
                assert(upto.drop_last() =~= sv.take(j as int));
                assert(upto.last() == spec@);
                assert(filled + all =~= done + host_units(host@, upto));
            }
            j += 1;
        }
        proof {
            assert(sv.take(specs.len() as int) =~= sv);
            let upto = hv.take(i + 1);
            assert(upto.drop_last() =~= hv.take(i as int));
            assert(upto.last() == host@);
        }
        i += 1;
    }
    proof {
        assert(hv.take(hosts.len() as int) =~= hv);
        lemma_fleet_units_len(hv, sv);
    }
    units
}

/// Where the unit at position `k` of a host's units comes from: the
/// position of its spec, and its instance index.
pub open spec fn locate(specs: Seq<SpecView>, k: int) -> (int, int)
    decreases specs.len(),
{
    if specs.len() == 0 {
        (0, 0)
    } else if k >= total_instances(specs.drop_last()) {
        (specs.len() - 1, k - total_instances(specs.drop_last()))
    } else {
        locate(specs.drop_last(), k)
    }
}

/// The number of instances asked for by the specs before position `s`.
pub open spec fn instances_before(specs: Seq<SpecView>, s: int) -> nat {
    total_instances(specs.take(s))
}

/// The unit at position `k` of a host's units is an instance of a spec of
/// the list on that host, its index below the spec's instance count; and
/// `k` counts the instances of the specs before it and the instances of
/// its own spec before it.
pub proof fn lemma_host_unit_at(host: HostView, specs: Seq<SpecView>, k: int)
    requires
        0 <= k < host_units(host, specs).len(),
    ensures
        ({
            let (s, index) = locate(specs, k);
            &&& 0 <= s < specs.len()
            &&& 0 <= index < specs[s].instance_count
            &&& host_units(host, specs)[k] == UnitView {
                host,
                spec: specs[s],
                instance_index: index as nat,
            }
            &&& k == instances_before(specs, s) + index
        }),
    decreases specs.len(),
{
    lemma_host_units_len(host, specs);
    if specs.len() > 0 {
        let front = specs.drop_last();
        lemma_host_units_len(host, front);
        if k >= total_instances(front) {
            assert(specs.take(specs.len() - 1) =~= front);
        } else {
            lemma_host_unit_at(host, front, k);
            let (s, index) = locate(front, k);
            assert(specs.take(s) =~= front.take(s));
        }
    }
}

/// Without specs there are no units, however many hosts there are.
pub proof fn lemma_no_specs_no_units(hosts: Seq<HostView>)
    ensures
        fleet_units(hosts, Seq::empty()) == Seq::<UnitView>::empty(),
    decreases hosts.len(),
{
    if hosts.len() > 0 {
        lemma_no_specs_no_units(hosts.drop_last());
        assert(host_units(hosts.last(), Seq::empty()) =~= Seq::<UnitView>::empty());
        assert(fleet_units(hosts, Seq::empty()) =~= Seq::<UnitView>::empty());
    }
}

/// A single spec asks for as many instances as its instance count says.
pub proof fn lemma_single_spec_total(spec: SpecView)
    ensures
        total_instances(seq![spec]) == spec.instance_count,
{
    let one = seq![spec];
    assert(one.drop_last().len() == 0);
    assert(total_instances(one.drop_last()) == 0);
    assert(one.last() == spec);
}

} // verus!
