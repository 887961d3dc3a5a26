//! The coordinator of a run: which unit is dispatched next, which results
//! are taken, and when the run is over.
//!
//! The coordinator decides and keeps the tally; it runs nothing itself.
//! Whoever drives it asks for the next unit to dispatch, has the unit
//! worked on, and hands the outcome back. Under the sequential policy a
//! unit is handed out only when every unit before it has reported; under
//! the parallel policy units are handed out as fast as they are asked for.
//! A failed unit is tallied like any other and stops nothing. After a
//! cancellation no further unit is handed out, and the run is over once
//! the units already handed out have reported.

use crate::model::{
    hosts_view, outcome_view, specs_view, units_view, ContainerSpec, DeploymentUnit,
    ExecutionResult, FailureReason, HostDescriptor, ParallelismPolicy, ReasonView, ResultView,
    UnitView,
};
use crate::plan::{fleet_units, plan, total_instances};
use crate::report::{DeploymentReport, ReportView};
use vstd::prelude::*;

verus! {

/// Where a unit stands in a run.
#[derive(Clone, Copy, Debug, PartialEq, Eq, Structural)]
pub enum UnitState {
    /// Not handed out yet.
    Waiting,
    /// Handed out; its outcome has not come back.
    InFlight,
    /// Its outcome is in the tally.
    Reported,
}

/// How many of the first `n` units have reported.
pub open spec fn reported_among(states: Seq<UnitState>, n: nat) -> nat
    decreases n,
{
    if n == 0 || n > states.len() {
        0
    } else {
        reported_among(states, (n - 1) as nat) + if states[n - 1] is Reported {
            1nat
        } else {
            0nat
        }
    }
}

/// Mathematical value of a [`Coordinator`].
pub struct CoordinatorView {
    /// The plan of the run.
    pub units: Seq<UnitView>,
    /// Where each unit of the plan stands.
    pub states: Seq<UnitState>,
    pub policy: ParallelismPolicy,
    /// How many units have been handed out: the first so many of the plan.
    pub dispatched: nat,
    pub cancelled: bool,
    /// The tally of the outcomes taken so far.
    pub report: ReportView,
}

impl CoordinatorView {
    /// What holds of every coordinator: the units handed out are a prefix
    /// of the plan, and the tally counts exactly those that have reported.
    pub open spec fn wf(self) -> bool {
        &&& self.states.len() == self.units.len()
        &&& self.dispatched <= self.units.len()
        &&& forall|i: int|
            0 <= i < self.states.len() ==> ((#[trigger] self.states[i]) is Waiting <==> i
                >= self.dispatched)
        &&& self.report.complete()
        &&& self.report.total == reported_among(self.states, self.dispatched)
    }

    /// How many units are handed out and have not reported.
    pub open spec fn in_flight(self) -> nat {
        (self.dispatched - self.report.total) as nat
    }

    /// Whether a unit would be handed out now.
    pub open spec fn may_dispatch(self) -> bool {
        &&& !self.cancelled
        &&& self.dispatched < self.units.len()
        &&& (self.policy is Parallel || self.in_flight() == 0)
    }

    /// The state after the next unit has been handed out.
    pub open spec fn after_dispatch(self) -> CoordinatorView {
        CoordinatorView {
            states: self.states.update(self.dispatched as int, UnitState::InFlight),
            dispatched: self.dispatched + 1,
            ..self
        }
    }

    /// Whether the outcome of unit `index` is awaited.
    pub open spec fn awaits(self, index: nat) -> bool {
        index < self.states.len() && self.states[index as int] is InFlight
    }

    /// The state after the outcome of unit `index` has been taken.
    pub open spec fn after_complete(self, index: nat, outcome: Result<(), ReasonView>) -> CoordinatorView {
        CoordinatorView {
            states: self.states.update(index as int, UnitState::Reported),
            report: self.report.recorded(ResultView { unit: self.units[index as int], outcome }),
            ..self
        }
    }

    /// Whether the run is over: nothing more will be handed out, and
    /// everything handed out has reported.
    pub open spec fn finished(self) -> bool {
        &&& self.cancelled || self.dispatched == self.units.len()
        &&& self.report.total == self.dispatched
    }
}

/// No more units have reported than were looked at.
proof fn lemma_reported_bound(states: Seq<UnitState>, n: nat)
    ensures
        reported_among(states, n) <= n,
    decreases n,
{
    if n > 0 && n <= states.len() {
        lemma_reported_bound(states, (n - 1) as nat);
    }
}

/// A unit among the first `n` that has not reported keeps the count below
/// `n`.
proof fn lemma_reported_below(states: Seq<UnitState>, n: nat, i: int)
    requires
        0 <= i < n <= states.len(),
        !(states[i] is Reported),
    ensures
        reported_among(states, n) < n,
    decreases n,
{
    if i == n - 1 {
        lemma_reported_bound(states, (n - 1) as nat);
    } else {
        lemma_reported_below(states, (n - 1) as nat, i);
    }
}

/// Changing the state of a unit changes the count by that unit alone.
proof fn lemma_reported_update(states: Seq<UnitState>, n: nat, i: int, s: UnitState)
    requires
        0 <= i < states.len(),
        n <= states.len(),
    ensures
        reported_among(states.update(i, s), n) == reported_among(states, n) + (if i < n
            && s is Reported {
            1int
        } else {
            0int
        }) - (if i < n && states[i] is Reported {
            1int
        } else {
            0int
        }),
    decreases n,
{
    if n > 0 {
        lemma_reported_update(states, (n - 1) as nat, i, s);
    }
}

/// The coordinator of one run.
#[derive(Debug)]
pub struct Coordinator {
    units: Vec<DeploymentUnit>,
    states: Vec<UnitState>,
    policy: ParallelismPolicy,
    dispatched: usize,
    cancelled: bool,
    report: DeploymentReport,
}

impl View for Coordinator {
    type V = CoordinatorView;

    closed spec fn view(&self) -> CoordinatorView {
        CoordinatorView {
            units: units_view(self.units@),
            states: self.states@,
            policy: self.policy,
            dispatched: self.dispatched as nat,
            cancelled: self.cancelled,
            report: self.report@,
        }
    }
}

impl Coordinator {
    #[verifier::type_invariant]
    spec fn inv(&self) -> bool {
        self@.wf()
    }

    /// A coordinator with nothing to do: a sequential run of an empty
    /// plan, nothing handed out, nothing tallied, not cancelled. It is over
    /// from the start.
    fn idle() -> (c: Coordinator)
        ensures
            c@ == (CoordinatorView {
                units: Seq::empty(),
                states: Seq::empty(),
                policy: ParallelismPolicy::Sequential,
                dispatched: 0,
                cancelled: false,
                report: ReportView::empty(),
            }),
            c@.wf(),
            c@.finished(),
    {
        let c = Coordinator {
            units: Vec::new(),
            states: Vec::new(),
            policy: ParallelismPolicy::Sequential,
            dispatched: 0,
            cancelled: false,
            report: DeploymentReport::new(),
        };
        assert(units_view(c.units@) =~= Seq::<UnitView>::empty());
        assert(c@.wf());
        c
    }

    /// Takes the coordinator's state out of `self`, to put a changed one
    /// back.
    fn take(&mut self) -> (taken: Coordinator)
        ensures
            taken == *old(self),
    {
        let mut taken = Coordinator::idle();
        std::mem::swap(self, &mut taken);
        taken
    }

    /// The coordinator of a run of `specs` on `hosts` under `policy`:
    /// nothing handed out, nothing tallied.
    pub fn new(hosts: &Vec<HostDescriptor>, specs: &Vec<ContainerSpec>, policy: ParallelismPolicy) -> (c:
        Coordinator)
        ensures
            c@.wf(),
            c@.units == fleet_units(hosts_view(hosts@), specs_view(specs@)),
            c@.units.len() == hosts@.len() * total_instances(specs_view(specs@)),
            c@.states == Seq::new(c@.units.len(), |i: int| UnitState::Waiting),
            c@.policy == policy,
            c@.dispatched == 0,
            !c@.cancelled,
            c@.report == ReportView::empty(),
    {
        let units = plan(hosts, specs);
        let mut states: Vec<UnitState> = Vec::new();
        let mut i: usize = 0;
        while i < units.len()
            invariant
                i <= units.len(),
                states@ == Seq::new(i as nat, |k: int| UnitState::Waiting),
            decreases units.len() - i,
        {
            states.push(UnitState::Waiting);
            assert(states@ =~= Seq::new((i + 1) as nat, |k: int| UnitState::Waiting));
            i += 1;
        }
        let c = Coordinator {
            units,
            states,
            policy,
            dispatched: 0,
            cancelled: false,
            report: DeploymentReport::new(),
        };
        assert(c@.wf());
        c
    }

    /// The number of units in the plan.
    pub fn unit_count(&self) -> (n: usize)
        ensures
            n == self@.units.len(),
            self@.wf(),
    {
        proof {
            use_type_invariant(self);
        }
        self.units.len()
    }

    /// The unit at `index` of the plan, if the plan is that long.
    pub fn unit(&self, index: usize) -> (u: Option<&DeploymentUnit>)
        ensures
            self@.wf(),
            index < self@.units.len() ==> (u matches Some(unit) && unit@ == self@.units[index as int]),
            index >= self@.units.len() ==> u is None,
    {
        proof {
            use_type_invariant(self);
        }
        if index < self.units.len() {
            Some(&self.units[index])
        } else {
            None
        }
    }

    /// Hands out the next unit of the plan, by its index, if one may be
    /// handed out now: the run is not cancelled, the plan is not used up,
    /// and, under the sequential policy, no unit is in flight.
    pub fn next_dispatch(&mut self) -> (next: Option<usize>)
        ensures
            old(self)@.wf(),
            final(self)@.wf(),
            old(self)@.may_dispatch() ==> (next matches Some(index) && index
                == old(self)@.dispatched) && final(self)@ == old(self)@.after_dispatch(),
            !old(self)@.may_dispatch() ==> next is None && final(self)@ == old(self)@,
    {
        proof {
            use_type_invariant(&*self);
            lemma_reported_bound(self.states@, self.dispatched as nat);
        }
        if self.cancelled || self.dispatched >= self.units.len() {
            return None;
        }
        let free = match self.policy {
            ParallelismPolicy::Parallel => true,
            ParallelismPolicy::Sequential => self.report.total() == self.dispatched,
        };
        if !free {
            return None;
        }
        let Coordinator { units, states, policy, dispatched, cancelled, report } = self.take();
        let mut states = states;
        states.set(dispatched, UnitState::InFlight);
        proof {
            lemma_reported_update(old(self).states@, dispatched as nat, dispatched as int, UnitState::InFlight);
            assert(reported_among(states@, (dispatched + 1) as nat) == reported_among(
                states@,
                dispatched as nat,
            ));
        }
        *self = Coordinator { units, states, policy, dispatched: dispatched + 1, cancelled, report };
        Some(dispatched)
    }

    /// Takes the outcome of unit `index`.
    ///
    /// The outcome is tallied, and `true` returned, where the unit is in
    /// flight. An outcome for a unit that was not handed out, or that has
    /// reported already, is turned away and changes nothing: each unit is
    /// counted once.
    pub fn complete(&mut self, index: usize, outcome: Result<(), FailureReason>) -> (accepted: bool)
        ensures
            old(self)@.wf(),
            final(self)@.wf(),
            accepted == old(self)@.awaits(index as nat),
            accepted ==> final(self)@ == old(self)@.after_complete(
                index as nat,
                outcome_view(outcome),
            ),
            !accepted ==> final(self)@ == old(self)@,
    {
        proof {
            use_type_invariant(&*self);
        }
        if index >= self.states.len() {
            return false;
        }
        match self.states[index] {
            UnitState::InFlight => {},
            _ => {
                return false;
            },
        }
        let Coordinator { units, states, policy, dispatched, cancelled, report } = self.take();
        let mut states = states;
        let mut report = report;
        proof {
            assert(index < dispatched);
            lemma_reported_below(states@, dispatched as nat, index as int);
            lemma_reported_update(states@, dispatched as nat, index as int, UnitState::Reported);
        }
        let result = ExecutionResult { unit: units[index].clone(), outcome };
        states.set(index, UnitState::Reported);
        report.record(result);
        *self = Coordinator { units, states, policy, dispatched, cancelled, report };
        true
    }

    /// Cancels the run: no further unit will be handed out. Units in
    /// flight are still awaited.
    pub fn cancel(&mut self)
        ensures
            old(self)@.wf(),
            final(self)@.wf(),
            final(self)@ == (CoordinatorView { cancelled: true, ..old(self)@ }),
    {
        proof {
            use_type_invariant(&*self);
        }
        let Coordinator { units, states, policy, dispatched, cancelled: _, report } = self.take();
        *self = Coordinator { units, states, policy, dispatched, cancelled: true, report };
    }

    /// Whether the run is over: every unit handed out has reported, and no
    /// further one will be handed out.
    pub fn is_finished(&self) -> (done: bool)
        ensures
            self@.wf(),
            done == self@.finished(),
    {
        proof {
            use_type_invariant(self);
        }
        (self.cancelled || self.dispatched == self.units.len()) && self.report.total()
            == self.dispatched
    }

    /// The tally as it stands.
    pub fn report(&self) -> (report: &DeploymentReport)
        ensures
            self@.wf(),
            report@ == self@.report,
    {
        proof {
            use_type_invariant(self);
        }
        &self.report
    }

    /// Ends the run and hands out the final report, if the run is over;
    /// `None` while a unit is in flight or may still be handed out.
    pub fn into_report(self) -> (report: Option<DeploymentReport>)
        ensures
            self@.wf(),
            self@.finished() ==> (report matches Some(r) && r@ == self@.report),
            !self@.finished() ==> report is None,
    {
        proof {
            use_type_invariant(&self);
        }
        if self.is_finished() {
            Some(self.report)
        } else {
            None
        }
    }
}

} // verus!
