//! What holds of every run, whatever the hosts answer.

use crate::cache::EntryView;
use crate::command::ActionView;
use crate::converge::{converge_run, ConvergePhase, ConvergeStepView};
use crate::exec::Exchange;
use crate::fleet::{
    deployed, flatten, fleet_run, run_record, run_results, unit_record, unit_step, UnitTrace,
};
use crate::model::{HostView, ResultView, SpecView, UnitView};
use crate::plan::{fleet_units, lemma_fleet_units_len, total_instances};
use crate::readiness::{readiness_run, ReadinessPhase, ReadinessStepView};
use crate::report::{lemma_tally_complete, tally, ReportView};
use vstd::prelude::*;

verus! {

/// Whether the exchange is an installation on the host at `address`.
pub open spec fn is_install_on(e: Exchange, address: Seq<char>) -> bool {
    e.target.address == address && e.command == ActionView::Install.argv()
}

/// How many of the commands `t` are installations on the host at
/// `address`.
pub open spec fn installs_on(t: Seq<Exchange>, address: Seq<char>) -> nat
    decreases t.len(),
{
    if t.len() == 0 {
        0
    } else {
        (if is_install_on(t[0], address) {
            1nat
        } else {
            0nat
        }) + installs_on(t.drop_first(), address)
    }
}

/// Whether the readiness of the host at `address` is on record in `known`.
pub open spec fn settled(known: Map<Seq<char>, EntryView>, address: Seq<char>) -> bool {
    known.contains_key(address) && known[address] is Known
}

/// The installations among two runs of commands add up.
pub proof fn lemma_installs_concat(s: Seq<Exchange>, t: Seq<Exchange>, address: Seq<char>)
    ensures
        installs_on(s + t, address) == installs_on(s, address) + installs_on(t, address),
    decreases s.len(),
{
    if s.len() == 0 {
        assert(s + t =~= t);
    } else {
        assert((s + t)[0] == s[0]);
        assert((s + t).drop_first() =~= s.drop_first() + t);
        lemma_installs_concat(s.drop_first(), t, address);
    }
}

/// The installation is told apart from every other command by its program.
proof fn lemma_install_is_no_other_command(action: ActionView)
    ensures
        action.argv() == ActionView::Install.argv() ==> action is Install,
{
    reveal_strlit("sh");
    reveal_strlit("docker");
    assert("sh"@.len() != "docker"@.len());
    assert(ActionView::Install.argv()[0] == "sh"@);
    if !(action is Install) {
        assert(action.argv()[0] == "docker"@);
    }
}

/// Establishing the readiness of a host installs at most once, on that
/// host alone, and not at all once the installation has gone through.
proof fn lemma_readiness_installs(
    phase: ReadinessPhase,
    target: HostView,
    t: Seq<Exchange>,
    address: Seq<char>,
)
    requires
        readiness_run(phase, target, t) is Some,
    ensures
        installs_on(t, address) <= 1,
        target.address != address ==> installs_on(t, address) == 0,
        phase is Installed ==> installs_on(t, address) == 0,
    decreases t.len(),
{
    lemma_install_is_no_other_command(phase.request());
    match phase.advance(t[0].response) {
        ReadinessStepView::Next(p) => {
            lemma_readiness_installs(p, target, t.drop_first(), address);
        },
        _ => {
            assert(t.drop_first().len() == 0);
            assert(installs_on(t.drop_first(), address) == 0);
        },
    }
}

/// Converging a unit installs nothing.
proof fn lemma_converge_installs(
    phase: ConvergePhase,
    target: HostView,
    spec: SpecView,
    index: nat,
    t: Seq<Exchange>,
    address: Seq<char>,
)
    requires
        converge_run(phase, target, spec, index, t) is Some,
    ensures
        installs_on(t, address) == 0,
    decreases t.len(),
{
    lemma_install_is_no_other_command(phase.request(spec, index));
    match phase.advance(spec, index, t[0].response) {
        ConvergeStepView::Next(p) => {
            lemma_converge_installs(p, target, spec, index, t.drop_first(), address);
        },
        _ => {
            assert(t.drop_first().len() == 0);
            assert(installs_on(t.drop_first(), address) == 0);
        },
    }
}

/// One unit installs at most once, only on its own host, and only where
/// the readiness of that host is not on record; afterwards it is on
/// record, and what was on record before still is.
proof fn lemma_unit_installs(
    known: Map<Seq<char>, EntryView>,
    unit: UnitView,
    trace: UnitTrace,
    address: Seq<char>,
)
    requires
        unit_step(known, unit, trace) is Some,
    ensures
        installs_on(trace.exchanges(), address) <= 1,
        settled(known, address) ==> installs_on(trace.exchanges(), address) == 0,
        settled(known, address) ==> settled(unit_record(known, unit, trace), address),
        installs_on(trace.exchanges(), address) >= 1 ==> settled(
            unit_record(known, unit, trace),
            address,
        ),
{
    lemma_installs_concat(trace.readiness, trace.convergence, address);
    if trace.convergence.len() > 0 {
        lemma_converge_installs(
            ConvergePhase::Pulling,
            unit.host,
            unit.spec,
            unit.instance_index,
            trace.convergence,
            address,
        );
    }
    if trace.readiness.len() > 0 {
        lemma_readiness_installs(ReadinessPhase::Unknown, unit.host, trace.readiness, address);
    }
}

/// A run installs at most once on each host, and not at all on a host
/// whose readiness was on record before; a host on which it installed is
/// on record afterwards.
proof fn lemma_run_installs(
    known: Map<Seq<char>, EntryView>,
    units: Seq<UnitView>,
    traces: Seq<UnitTrace>,
    address: Seq<char>,
)
    requires
        fleet_run(known, units, traces) is Some,
    ensures
        installs_on(flatten(traces), address) <= 1,
        settled(known, address) ==> installs_on(flatten(traces), address) == 0,
        settled(known, address) ==> settled(run_record(known, units, traces), address),
        installs_on(flatten(traces), address) >= 1 ==> settled(
            run_record(known, units, traces),
            address,
        ),
    decreases units.len(),
{
    if units.len() > 0 {
        let before = run_record(known, units.drop_last(), traces.drop_last());
        lemma_run_installs(known, units.drop_last(), traces.drop_last(), address);
        lemma_unit_installs(before, units.last(), traces.last(), address);
        lemma_installs_concat(flatten(traces.drop_last()), traces.last().exchanges(), address);
    }
}

/// A run has one result for each unit of the plan, in the order of the
/// plan, whatever became of the units before it: a failure stops nothing.
pub proof fn lemma_every_unit_reports(
    known: Map<Seq<char>, EntryView>,
    units: Seq<UnitView>,
    traces: Seq<UnitTrace>,
)
    requires
        fleet_run(known, units, traces) is Some,
    ensures
        run_results(known, units, traces).len() == units.len(),
        forall|i: int|
            0 <= i < units.len() ==> (#[trigger] run_results(known, units, traces)[i]).unit
                == units[i],
    decreases units.len(),
{
    if units.len() > 0 {
        lemma_every_unit_reports(known, units.drop_last(), traces.drop_last());
    }
}

/// Unit isolation: the report of a deployment counts every unit of the
/// plan, the number of hosts times the number of instances asked for,
/// however many of them failed; each is a success or a listed failure.
pub proof fn lemma_deployment_counts_every_unit(
    hosts: Seq<HostView>,
    specs: Seq<SpecView>,
    added: Seq<Exchange>,
    report: ReportView,
)
    requires
        deployed(fleet_units(hosts, specs), added, report),
    ensures
        report.total == hosts.len() * total_instances(specs),
        report.succeeded + report.failed.len() == report.total,
{
    let units = fleet_units(hosts, specs);
    let traces = choose|traces: Seq<UnitTrace>|
        #![trigger flatten(traces)]
        flatten(traces) == added && (fleet_run(Map::empty(), units, traces) matches Some(
            (_, results),
        ) && report == tally(results));
    let results = run_results(Map::empty(), units, traces);
    lemma_every_unit_reports(Map::empty(), units, traces);
    lemma_tally_complete(results);
    lemma_fleet_units_len(hosts, specs);
}

/// Readiness is established once: among the commands of a deployment, at
/// most one is an installation on the host at a given address, however
/// many units target that host.
pub proof fn lemma_install_at_most_once(
    units: Seq<UnitView>,
    added: Seq<Exchange>,
    report: ReportView,
    address: Seq<char>,
)
    requires
        deployed(units, added, report),
    ensures
        installs_on(added, address) <= 1,
{
    let traces = choose|traces: Seq<UnitTrace>|
        #![trigger flatten(traces)]
        flatten(traces) == added && (fleet_run(Map::empty(), units, traces) matches Some(
            (_, results),
        ) && report == tally(results));
    lemma_run_installs(Map::empty(), units, traces, address);
}

/// A deployment without units runs no command and reports nothing.
pub proof fn lemma_empty_plan_runs_nothing(added: Seq<Exchange>, report: ReportView)
    requires
        deployed(Seq::empty(), added, report),
    ensures
        added == Seq::<Exchange>::empty(),
        report == ReportView::empty(),
{
    let units = Seq::<UnitView>::empty();
    let traces = choose|traces: Seq<UnitTrace>|
        #![trigger flatten(traces)]
        flatten(traces) == added && (fleet_run(Map::empty(), units, traces) matches Some(
            (_, results),
        ) && report == tally(results));
    assert(traces.len() == 0);
}

/// Running no command and reporting nothing is the deployment of an empty
/// plan.
pub proof fn lemma_nothing_is_a_run()
    ensures
        deployed(Seq::empty(), Seq::empty(), ReportView::empty()),
{
    let traces = Seq::<UnitTrace>::empty();
    assert(flatten(traces) == Seq::<Exchange>::empty());
    assert(fleet_run(Map::empty(), Seq::empty(), traces) == Some(
        (Map::<Seq<char>, EntryView>::empty(), Seq::<ResultView>::empty()),
    ));
}

} // verus!
