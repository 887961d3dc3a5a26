//! A whole run: every unit of the plan, one after the other, through one
//! session.

use crate::cache::{after_claim, after_resolve, claim_answer, ClaimView, EntryView, ReadinessCache};
use crate::converge::{converge, converge_run, ConvergePhase};
use crate::coordinator::Coordinator;
use crate::exec::{Exchange, Executor, Session};
use crate::model::{
    hosts_view, outcome_view, specs_view, ContainerSpec, DeploymentUnit, ExecFailure,
    FailureReason, FailureView, HostDescriptor, ParallelismPolicy, ReasonView, ResultView,
    UnitView,
};
use crate::plan::{fleet_units, total_instances};
use crate::readiness::{ensure_ready, readiness_run, readiness_view, ReadinessPhase};
use crate::report::{lemma_tally_complete, tally, DeploymentReport, ReportView};
use vstd::prelude::*;

verus! {

/// The commands run for one unit: those that established the readiness of
/// its host, if this unit was the one to do so, and those of its own
/// convergence, if the host was ready.
pub struct UnitTrace {
    pub readiness: Seq<Exchange>,
    pub convergence: Seq<Exchange>,
}

impl UnitTrace {
    /// The commands of the unit in the order in which they ran.
    pub open spec fn exchanges(self) -> Seq<Exchange> {
        self.readiness + self.convergence
    }
}

/// The commands of a run in the order in which they ran: those of the
/// first unit, then those of the second, and so on.
pub open spec fn flatten(traces: Seq<UnitTrace>) -> Seq<Exchange>
    decreases traces.len(),
{
    if traces.len() == 0 {
        Seq::empty()
    } else {
        flatten(traces.drop_last()) + traces.last().exchanges()
    }
}

/// One unit of a sequential run, from the readiness on record in `known`
/// and the commands `trace` that were run for the unit: what is on record
/// afterwards, and the unit's outcome.
///
/// A host whose readiness is on record is not probed again: the unit's
/// trace then has no readiness commands. Otherwise they are a complete run
/// of the readiness machine, and its result goes on record. On a host that
/// is not ready nothing more is run, and the unit fails with
/// `ToolchainMissing`. On a ready host the convergence commands are a
/// complete run of the convergence machine, which gives the outcome.
/// `None` where the trace is not that of such a unit.
pub open spec fn unit_step(known: Map<Seq<char>, EntryView>, unit: UnitView, trace: UnitTrace) -> Option<
    (Map<Seq<char>, EntryView>, Result<(), ReasonView>),
> {
    let address = unit.host.address;
    let readiness = match claim_answer(known, address) {
        ClaimView::Known(r) => if trace.readiness.len() == 0 {
            Some(r)
        } else {
            None
        },
        _ => readiness_run(ReadinessPhase::Unknown, unit.host, trace.readiness),
    };
    match readiness {
        None => None,
        Some(r) => {
            let recorded = after_resolve(after_claim(known, address), address, r);
            match r {
                Err(f) => if trace.convergence.len() == 0 {
                    Some((recorded, Err(ReasonView::ToolchainMissing(f))))
                } else {
                    None
                },
                Ok(_) => match converge_run(
                    ConvergePhase::Pulling,
                    unit.host,
                    unit.spec,
                    unit.instance_index,
                    trace.convergence,
                ) {
                    None => None,
                    Some(outcome) => Some((recorded, outcome)),
                },
            }
        },
    }
}

/// A sequential run of `units` from the readiness on record in `known`,
/// where `traces` holds the commands run for each unit: what is on record
/// afterwards, and the result of each unit, in the order of the units.
/// `None` where the traces are not those of such a run.
pub open spec fn fleet_run(
    known: Map<Seq<char>, EntryView>,
    units: Seq<UnitView>,
    traces: Seq<UnitTrace>,
) -> Option<(Map<Seq<char>, EntryView>, Seq<ResultView>)>
    decreases units.len(),
{
    if units.len() != traces.len() {
        None
    } else if units.len() == 0 {
        Some((known, Seq::empty()))
    } else {
        match fleet_run(known, units.drop_last(), traces.drop_last()) {
            None => None,
            Some((recorded, results)) => match unit_step(recorded, units.last(), traces.last()) {
                None => None,
                Some((recorded_after, outcome)) => Some(
                    (recorded_after, results.push(ResultView { unit: units.last(), outcome })),
                ),
            },
        }
    }
}

/// The results of a sequential run; none where the traces are not those of
/// such a run.
pub open spec fn run_results(
    known: Map<Seq<char>, EntryView>,
    units: Seq<UnitView>,
    traces: Seq<UnitTrace>,
) -> Seq<ResultView> {
    match fleet_run(known, units, traces) {
        Some((_, results)) => results,
        None => Seq::empty(),
    }
}

/// What is on record after a sequential run; what was on record before
/// where the traces are not those of such a run.
pub open spec fn run_record(
    known: Map<Seq<char>, EntryView>,
    units: Seq<UnitView>,
    traces: Seq<UnitTrace>,
) -> Map<Seq<char>, EntryView> {
    match fleet_run(known, units, traces) {
        Some((recorded, _)) => recorded,
        None => known,
    }
}

/// What is on record after one unit of a sequential run; what was on
/// record before where the trace is not that of such a unit.
pub open spec fn unit_record(
    known: Map<Seq<char>, EntryView>,
    unit: UnitView,
    trace: UnitTrace,
) -> Map<Seq<char>, EntryView> {
    match unit_step(known, unit, trace) {
        Some((recorded, _)) => recorded,
        None => known,
    }
}

/// Whether `report` is the report of a sequential run of `units` in which
/// exactly the commands `added` were run: they split into the traces of the
/// units, one after the other, and the report is the tally of the results
/// that these traces give.
pub open spec fn deployed(units: Seq<UnitView>, added: Seq<Exchange>, report: ReportView) -> bool {
    exists|traces: Seq<UnitTrace>|
        #![trigger flatten(traces)]
        flatten(traces) == added && (fleet_run(Map::empty(), units, traces) matches Some(
            (_, results),
        ) && report == tally(results))
}

/// A copy of a readiness result.
fn clone_readiness(r: &Result<(), ExecFailure>) -> (c: Result<(), ExecFailure>)
    ensures
        readiness_view(c) == readiness_view(*r),
{
    match r {
        Ok(_) => Ok(()),
        Err(f) => Err(f.clone()),
    }
}

/// Works on one unit whose host has the given readiness: on a ready host
/// the unit is converged; on a host that is not ready nothing is run and
/// the unit fails with `ToolchainMissing`, carrying the failure that
/// decided the host's readiness.
pub fn run_unit<E: Executor>(
    session: &mut Session<E>,
    readiness: Result<(), ExecFailure>,
    unit: &DeploymentUnit,
) -> (outcome: Result<(), FailureReason>)
    ensures
        old(session).log().is_prefix_of(final(session).log()),
        match readiness_view(readiness) {
            Ok(_) => converge_run(
                ConvergePhase::Pulling,
                unit@.host,
                unit@.spec,
                unit@.instance_index,
                final(session).log().skip(old(session).log().len() as int),
            ) == Some(outcome_view(outcome)),
            Err(f) => final(session).log() == old(session).log() && outcome_view(outcome) == Err::<
                (),
                ReasonView,
            >(ReasonView::ToolchainMissing(f)),
        },
{
    match readiness {
        Ok(_) => converge(session, &unit.host, &unit.spec, unit.instance_index),
        Err(f) => Err(FailureReason::ToolchainMissing(f)),
    }
}

/// Deploys `specs` on `hosts`: every instance of every container on every
/// host, through `session`.
///
/// The units are taken in the order of the plan, host by host. The
/// readiness of a host is established by the first unit that targets its
/// address and remembered for the rest of the run. A unit that fails is
/// tallied and the run goes on with the next one. The report comes back
/// when every unit has reported; it counts each unit of the plan once.
///
/// All commands go through the one session, one at a time, under either
/// policy: `policy` decides how the coordinator hands units out, and with
/// one session that comes to the same run.
pub fn deploy<E: Executor>(
    session: &mut Session<E>,
    hosts: &Vec<HostDescriptor>,
    specs: &Vec<ContainerSpec>,
    policy: ParallelismPolicy,
) -> (report: DeploymentReport)
    ensures
        old(session).log().is_prefix_of(final(session).log()),
        deployed(
            fleet_units(hosts_view(hosts@), specs_view(specs@)),
            final(session).log().skip(old(session).log().len() as int),
            report@,
        ),
        report@.complete(),
        report@.total == hosts@.len() * total_instances(specs_view(specs@)),
{
    let mut coordinator = Coordinator::new(hosts, specs, policy);
    let mut cache = ReadinessCache::new();
    let ghost before = session.log();
    let ghost units = coordinator@.units;
    let ghost mut traces: Seq<UnitTrace> = Seq::empty();
    let ghost mut results: Seq<ResultView> = Seq::empty();
    proof {
        assert(before + flatten(traces) =~= before);
        assert(units.take(0) =~= Seq::<UnitView>::empty());
    }
    loop
        invariant
            before == old(session).log(),
            units == fleet_units(hosts_view(hosts@), specs_view(specs@)),
            units.len() == hosts@.len() * total_instances(specs_view(specs@)),
            session.log() == before + flatten(traces),
            coordinator@.wf(),
            coordinator@.units == units,
            !coordinator@.cancelled,
            coordinator@.dispatched == traces.len(),
            coordinator@.report == tally(results),
            results.len() == traces.len(),
            traces.len() <= units.len(),
            fleet_run(Map::empty(), units.take(traces.len() as int), traces) == Some(
                (cache@, results),
            ),
        ensures
            traces.len() == units.len(),
            coordinator@.finished(),
        decreases units.len() - traces.len(),
    {
        proof {
            lemma_tally_complete(results);
        }
        let next = coordinator.next_dispatch();
        let index = match next {
            None => {
                break ;
            },
            Some(index) => index,
        };
        let ghost k = traces.len() as int;
        let ghost known = cache@;
        let unit = coordinator.unit(index).unwrap();
        let ghost log0 = session.log();
        let readiness = match cache.lookup(unit.host.address.as_str()) {
            Some(r) => r,
            None => {
                let r = ensure_ready(session, &unit.host);
                cache.store(unit.host.address.as_str(), clone_readiness(&r));
                r
            },
        };
        let ghost log1 = session.log();
        let ghost ready = readiness_view(readiness);
        let outcome = run_unit(session, readiness, unit);
        let ghost log2 = session.log();
        let ghost trace = UnitTrace {
            readiness: log1.skip(log0.len() as int),
            convergence: log2.skip(log1.len() as int),
        };
        proof {
            assert(log1 =~= log0 + trace.readiness);
            assert(log2 =~= log1 + trace.convergence);
            assert(unit_step(known, unit@, trace) == Some((cache@, outcome_view(outcome))));
            let grown = traces.push(trace);
            assert(grown.drop_last() =~= traces);
            assert(log2 =~= before + flatten(grown));
            let upto = units.take(k + 1);
            assert(upto.drop_last() =~= units.take(k));
            assert(upto.last() == unit@);
        }
        let accepted = coordinator.complete(index, outcome);
        proof {
            let result = ResultView { unit: unit@, outcome: outcome_view(outcome) };
            let more = results.push(result);
            assert(more.drop_last() =~= results);
            traces = traces.push(trace);
            results = more;
        }
    }
    proof {
        assert(units.take(units.len() as int) =~= units);
        assert((before + flatten(traces)).skip(before.len() as int) =~= flatten(traces));
        assert(before.is_prefix_of(before + flatten(traces)));
        lemma_tally_complete(results);
    }
    coordinator.into_report().unwrap()
}

} // verus!
