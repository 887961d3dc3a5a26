//! The report of a run: how many units there were, how many succeeded, and
//! which failed and why.

use crate::model::{
    DeploymentUnit, ExecutionResult, FailureReason, ReasonView, ResultView, UnitView,
};
use vstd::prelude::*;

verus! {

/// Mathematical value of a [`DeploymentReport`].
pub struct ReportView {
    pub total: nat,
    pub succeeded: nat,
    pub failed: Seq<(UnitView, ReasonView)>,
}

impl ReportView {
    /// The report of a run in which nothing has reported yet.
    pub open spec fn empty() -> ReportView {
        ReportView { total: 0, succeeded: 0, failed: Seq::empty() }
    }

    /// Every unit counted is either a success or listed as a failure.
    pub open spec fn complete(self) -> bool {
        self.succeeded + self.failed.len() == self.total
    }

    /// Whether the run found no container engine anywhere: there were
    /// units, and every one of them failed for want of an engine on its
    /// host.
    pub open spec fn engine_missing_everywhere(self) -> bool {
        &&& self.total > 0
        &&& self.failed.len() == self.total
        &&& forall|i: int|
            0 <= i < self.failed.len() ==> (#[trigger] self.failed[i]).1 is ToolchainMissing
    }

    /// The report after one more result has arrived.
    pub open spec fn recorded(self, result: ResultView) -> ReportView {
        match result.outcome {
            Ok(_) => ReportView {
                total: self.total + 1,
                succeeded: self.succeeded + 1,
                failed: self.failed,
            },
            Err(reason) => ReportView {
                total: self.total + 1,
                succeeded: self.succeeded,
                failed: self.failed.push((result.unit, reason)),
            },
        }
    }
}

/// The report that the results give when they arrive in this order.
pub open spec fn tally(results: Seq<ResultView>) -> ReportView
    decreases results.len(),
{
    if results.len() == 0 {
        ReportView::empty()
    } else {
        tally(results.drop_last()).recorded(results.last())
    }
}

/// The number of results that are successes.
pub open spec fn successes(results: Seq<ResultView>) -> nat
    decreases results.len(),
{
    if results.len() == 0 {
        0
    } else {
        successes(results.drop_last()) + if results.last().outcome is Ok {
            1nat
        } else {
            0nat
        }
    }
}

/// A report counts every result once: its total is the number of results,
/// its successes are the results that are `Ok`, and successes and listed
/// failures add up to the total.
pub proof fn lemma_tally_complete(results: Seq<ResultView>)
    ensures
        tally(results).complete(),
        tally(results).total == results.len(),
        tally(results).succeeded == successes(results),
    decreases results.len(),
{
    if results.len() > 0 {
        lemma_tally_complete(results.drop_last());
    }
}

/// The values of a list of failures.
pub open spec fn failures_view(failed: Seq<(DeploymentUnit, FailureReason)>) -> Seq<
    (UnitView, ReasonView),
> {
    failed.map_values(|f: (DeploymentUnit, FailureReason)| (f.0@, f.1@))
}

/// The values of a list of results.
pub open spec fn results_view(results: Seq<ExecutionResult>) -> Seq<ResultView> {
    results.map_values(|r: ExecutionResult| r@)
}

/// The tally of a run. It starts empty and takes one result at a time.
#[derive(Debug)]
pub struct DeploymentReport {
    total: usize,
    succeeded: usize,
    failed: Vec<(DeploymentUnit, FailureReason)>,
}

impl View for DeploymentReport {
    type V = ReportView;

    closed spec fn view(&self) -> ReportView {
        ReportView {
            total: self.total as nat,
            succeeded: self.succeeded as nat,
            failed: failures_view(self.failed@),
        }
    }
}

impl DeploymentReport {
    #[verifier::type_invariant]
    spec fn counts_agree(&self) -> bool {
        self.succeeded + self.failed@.len() == self.total
    }

    /// The report of a run in which nothing has reported yet.
    pub fn new() -> (report: DeploymentReport)
        ensures
            report@ == ReportView::empty(),
    {
        let report = DeploymentReport { total: 0, succeeded: 0, failed: Vec::new() };
        assert(failures_view(report.failed@) =~= Seq::empty());
        report
    }

    /// Counts one more result: a success is counted, a failure is listed
    /// with its unit and reason, behind those listed before.
    pub fn record(&mut self, result: ExecutionResult)
        requires
            old(self)@.total < usize::MAX,
        ensures
            final(self)@ == old(self)@.recorded(result@),
            final(self)@.complete(),
    {
        proof {
            use_type_invariant(&*self);
        }
        let mut taken = DeploymentReport::new();
        std::mem::swap(self, &mut taken);
        let DeploymentReport { total, succeeded, failed } = taken;
        let ExecutionResult { unit, outcome } = result;
        match outcome {
            Ok(_) => {
                *self = DeploymentReport { total: total + 1, succeeded: succeeded + 1, failed };
            },
            Err(reason) => {
                let mut failed = failed;
                failed.push((unit, reason));
                assert(failures_view(failed@) =~= old(self)@.failed.push((unit@, reason@)));
                *self = DeploymentReport { total: total + 1, succeeded, failed };
            },
        }
    }

    /// Whether the run found no container engine anywhere: there were
    /// units, and every one of them failed for want of an engine on its
    /// host. A run like that has deployed nothing and cannot.
    pub fn engine_missing_everywhere(&self) -> (missing: bool)
        ensures
            missing == self@.engine_missing_everywhere(),
    {
        proof {
            use_type_invariant(self);
        }
        if self.total == 0 || self.failed.len() != self.total {
            return false;
        }
        let mut i: usize = 0;
        while i < self.failed.len()
            invariant
                i <= self.failed@.len(),
                forall|k: int|
                    0 <= k < i ==> (#[trigger] failures_view(self.failed@)[k]).1
                        is ToolchainMissing,
            decreases self.failed.len() - i,
        {
            match &self.failed[i].1 {
                FailureReason::ToolchainMissing(_) => {},
                _ => {
                    assert(!(failures_view(self.failed@)[i as int].1 is ToolchainMissing));
                    return false;
                },
            }
            i += 1;
        }
        true
    }

    /// The number of units that have reported.
    pub fn total(&self) -> (n: usize)
        ensures
            n == self@.total,
            self@.complete(),
    {
        proof {
            use_type_invariant(self);
        }
        self.total
    }

    /// The number of units that succeeded.
    pub fn succeeded(&self) -> (n: usize)
        ensures
            n == self@.succeeded,
            self@.complete(),
    {
        proof {
            use_type_invariant(self);
        }
        self.succeeded
    }

    /// The units that failed, each with its reason, in the order in which
    /// they reported.
    pub fn failed(&self) -> (failed: &Vec<(DeploymentUnit, FailureReason)>)
        ensures
            failures_view(failed@) == self@.failed,
            self@.complete(),
    {
        proof {
            use_type_invariant(self);
        }
        &self.failed
    }
}

/// Tallies the results of a run, in the order given.
pub fn process_deployment_results(results: Vec<ExecutionResult>) -> (report: DeploymentReport)
    ensures
        report@ == tally(results_view(results@)),
        report@.complete(),
        report@.total == results@.len(),
{
    broadcast use vstd::std_specs::vec::axiom_spec_into_iter;

    let ghost all = results_view(results@);
    let count = results.len();
    let mut report = DeploymentReport::new();
    for result in it: results
        invariant
            it.seq() == results@,
            results@.len() == count,
            all == results_view(results@),
            report@ == tally(all.take(it.index())),
    {
        proof {
            lemma_tally_complete(all.take(it.index()));
            let upto = all.take(it.index() + 1);
            assert(upto.drop_last() =~= all.take(it.index()));
            assert(upto.last() == result@);
        }
        report.record(result);
    }
    proof {
        assert(all.take(all.len() as int) =~= all);
        lemma_tally_complete(all);
    }
    report
}

} // verus!
