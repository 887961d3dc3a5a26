//! Convergence of one unit: driving the engine on a host until the wanted
//! instance runs there.
//!
//! Four commands, each the precondition of the next: pull the image, remove
//! a container that already has the instance's name, run a new one, and
//! list the running containers to see that it is there. A failed removal is
//! passed over, since there may have been nothing to remove; every other
//! failure ends the unit.

use crate::command::{Action, ActionView};
use crate::exec::{response_view, Exchange, Executor, Session};
use crate::model::{
    outcome_view, ContainerSpec, ExecFailure, FailureReason, FailureView, HostDescriptor,
    HostView, ReasonView, SpecView,
};
use crate::text::{decimal_digits, lemma_decimal_digits, lemma_decimal_injective, push_decimal, trim, trimmed};
use vstd::prelude::*;
use vstd::string::StringExecFns;

verus! {

/// The name of instance `index` of the container `container`: the
/// container's name, a hyphen, and the index in decimal.
pub open spec fn instance_name(container: Seq<char>, index: nat) -> Seq<char> {
    container + seq!['-'] + decimal_digits(index)
}

/// Two instances have the same name only if they are the same instance of
/// the same container.
pub proof fn lemma_instance_name_injective(c1: Seq<char>, i1: nat, c2: Seq<char>, i2: nat)
    requires
        instance_name(c1, i1) == instance_name(c2, i2),
    ensures
        c1 == c2,
        i1 == i2,
{
    let d1 = decimal_digits(i1);
    let d2 = decimal_digits(i2);
    let n1 = instance_name(c1, i1);
    let n2 = instance_name(c2, i2);
    lemma_decimal_digits(i1);
    lemma_decimal_digits(i2);
    assert(n1.len() == c1.len() + 1 + d1.len());
    assert(n2.len() == c2.len() + 1 + d2.len());
    // The hyphen of one name cannot fall among the digits of the other.
    if d1.len() < d2.len() {
        let k = c1.len() as int;
        assert(n1[k] == '-');
        assert(n2[k] == d2[k - c2.len() - 1]);
        assert(false);
    }
    if d2.len() < d1.len() {
        let k = c2.len() as int;
        assert(n2[k] == '-');
        assert(n1[k] == d1[k - c1.len() - 1]);
        assert(false);
    }
    assert(c1.len() == c2.len());
    assert(c1 =~= c2) by {
        assert forall|k: int| 0 <= k < c1.len() implies c1[k] == c2[k] by {
            assert(n1[k] == c1[k]);
            assert(n2[k] == c2[k]);
        }
    }
    assert(d1 =~= d2) by {
        assert forall|k: int| 0 <= k < d1.len() implies d1[k] == d2[k] by {
            assert(n1[c1.len() + 1 + k] == d1[k]);
            assert(n2[c2.len() + 1 + k] == d2[k]);
        }
    }
    lemma_decimal_injective(i1, i2);
}

impl ContainerSpec {
    /// The name of instance `index` of this container.
    pub fn instance_name(&self, index: u32) -> (name: String)
        ensures
            name@ == instance_name(self@.container_name, index as nat),
    {
        let mut name = self.container_name.clone();
        name.append("-");
        proof {
            reveal_strlit("-");
            assert("-"@ =~= seq!['-']);
        }
        push_decimal(&mut name, index as u64);
        name
    }
}

/// How far the convergence of a unit has come.
#[derive(Clone, Copy, Debug, PartialEq, Eq, Structural)]
pub enum ConvergePhase {
    /// The image is to be pulled.
    Pulling,
    /// A container of the instance's name is to be removed.
    Removing,
    /// The new container is to be started.
    Starting,
    /// The running containers are to be listed.
    Checking,
}

/// Where a response leads.
#[derive(Debug)]
pub enum ConvergeStep {
    /// More is to be done, in the given phase.
    Next(ConvergePhase),
    /// The instance runs.
    Converged,
    /// The unit has failed.
    Failed(FailureReason),
}

/// Mathematical value of a [`ConvergeStep`].
pub enum ConvergeStepView {
    Next(ConvergePhase),
    Converged,
    Failed(ReasonView),
}

impl View for ConvergeStep {
    type V = ConvergeStepView;

    open spec fn view(&self) -> ConvergeStepView {
        match self {
            ConvergeStep::Next(p) => ConvergeStepView::Next(*p),
            ConvergeStep::Converged => ConvergeStepView::Converged,
            ConvergeStep::Failed(r) => ConvergeStepView::Failed(r@),
        }
    }
}

impl ConvergePhase {
    /// The command that the phase calls for, for instance `index` of `spec`.
    pub open spec fn request(self, spec: SpecView, index: nat) -> ActionView {
        let name = instance_name(spec.container_name, index);
        match self {
            ConvergePhase::Pulling => ActionView::Pull { image: spec.image_name },
            ConvergePhase::Removing => ActionView::Remove { name },
            ConvergePhase::Starting => ActionView::Run { name, image: spec.image_name },
            ConvergePhase::Checking => ActionView::List { name },
        }
    }

    /// Where the response to the phase's command leads.
    pub open spec fn advance(
        self,
        spec: SpecView,
        index: nat,
        response: Result<Seq<char>, FailureView>,
    ) -> ConvergeStepView {
        match (self, response) {
            (ConvergePhase::Pulling, Ok(_)) => ConvergeStepView::Next(ConvergePhase::Removing),
            (ConvergePhase::Pulling, Err(f)) => ConvergeStepView::Failed(
                ReasonView::ExecFailure(f),
            ),
            (ConvergePhase::Removing, _) => ConvergeStepView::Next(ConvergePhase::Starting),
            (ConvergePhase::Starting, Ok(_)) => ConvergeStepView::Next(ConvergePhase::Checking),
            (ConvergePhase::Starting, Err(f)) => ConvergeStepView::Failed(
                ReasonView::ExecFailure(f),
            ),
            (ConvergePhase::Checking, Ok(listed)) => if trimmed(listed) == instance_name(
                spec.container_name,
                index,
            ) {
                ConvergeStepView::Converged
            } else {
                ConvergeStepView::Failed(ReasonView::ContainerNotRunning(trimmed(listed)))
            },
            (ConvergePhase::Checking, Err(f)) => ConvergeStepView::Failed(
                ReasonView::ExecFailure(f),
            ),
        }
    }

    /// How many commands may still follow the phase's own.
    pub open spec fn remaining(self) -> nat {
        match self {
            ConvergePhase::Pulling => 3,
            ConvergePhase::Removing => 2,
            ConvergePhase::Starting => 1,
            ConvergePhase::Checking => 0,
        }
    }

    /// The command to run in this phase for instance `index` of `spec`.
    pub fn action(&self, spec: &ContainerSpec, index: u32) -> (a: Action)
        ensures
            a@ == self.request(spec@, index as nat),
    {
        match self {
            ConvergePhase::Pulling => Action::Pull { image: spec.image_name.clone() },
            ConvergePhase::Removing => Action::Remove { name: spec.instance_name(index) },
            ConvergePhase::Starting => Action::Run {
                name: spec.instance_name(index),
                image: spec.image_name.clone(),
            },
            ConvergePhase::Checking => Action::List { name: spec.instance_name(index) },
        }
    }

    /// Decides from the response to this phase's command what comes next.
    pub fn step(&self, spec: &ContainerSpec, index: u32, response: Result<String, ExecFailure>) -> (s:
        ConvergeStep)
        ensures
            s@ == self.advance(spec@, index as nat, response_view(response)),
    {
        match self {
            ConvergePhase::Pulling => match response {
                Ok(_) => ConvergeStep::Next(ConvergePhase::Removing),
                Err(f) => ConvergeStep::Failed(FailureReason::ExecFailure(f)),
            },
            ConvergePhase::Removing => ConvergeStep::Next(ConvergePhase::Starting),
            ConvergePhase::Starting => match response {
                Ok(_) => ConvergeStep::Next(ConvergePhase::Checking),
                Err(f) => ConvergeStep::Failed(FailureReason::ExecFailure(f)),
            },
            ConvergePhase::Checking => match response {
                Ok(listed) => {
                    let found = trim(listed.as_str());
                    let wanted = spec.instance_name(index);
                    if found == wanted {
                        ConvergeStep::Converged
                    } else {
                        ConvergeStep::Failed(FailureReason::ContainerNotRunning(found))
                    }
                },
                Err(f) => ConvergeStep::Failed(FailureReason::ExecFailure(f)),
            },
        }
    }
}

/// The outcome that the exchanges `t` establish for instance `index` of
/// `spec` on `target`, starting in `phase`: `Some` where `t` is a complete
/// run of the machine, each command the one its phase calls for, each sent
/// to `target`, the last response a deciding one; `None` for any other
/// sequence.
pub open spec fn converge_run(
    phase: ConvergePhase,
    target: HostView,
    spec: SpecView,
    index: nat,
    t: Seq<Exchange>,
) -> Option<Result<(), ReasonView>>
    decreases t.len(),
{
    if t.len() == 0 {
        None
    } else if t[0].target != target || t[0].command != phase.request(spec, index).argv() {
        None
    } else {
        match phase.advance(spec, index, t[0].response) {
            ConvergeStepView::Next(p) => converge_run(p, target, spec, index, t.drop_first()),
            ConvergeStepView::Converged => if t.len() == 1 {
                Some(Ok(()))
            } else {
                None
            },
            ConvergeStepView::Failed(r) => if t.len() == 1 {
                Some(Err(r))
            } else {
                None
            },
        }
    }
}

/// Brings instance `instance_index` of `spec` to run on `target`.
///
/// Returns `Ok` where the image was pulled, the container was started and
/// the engine then listed it under its name; the failure of the pull, the
/// start or the listing where one of them failed; and
/// `ContainerNotRunning` where the listing succeeded and shows something
/// else. What the removal returned changes nothing. The session's record
/// grows by the one to four commands that were run.
pub fn converge<E: Executor>(
    session: &mut Session<E>,
    target: &HostDescriptor,
    spec: &ContainerSpec,
    instance_index: u32,
) -> (r: Result<(), FailureReason>)
    ensures
        old(session).log().is_prefix_of(final(session).log()),
        converge_run(
            ConvergePhase::Pulling,
            target@,
            spec@,
            instance_index as nat,
            final(session).log().skip(old(session).log().len() as int),
        ) == Some(outcome_view(r)),
{
    let ghost before = session.log();
    let ghost mut done: Seq<Exchange> = Seq::empty();
    let ghost index = instance_index as nat;
    let mut phase = ConvergePhase::Pulling;
    assert(before + done =~= before);
    assert forall|rest: Seq<Exchange>|
        #[trigger] converge_run(ConvergePhase::Pulling, target@, spec@, index, done + rest)
            == converge_run(phase, target@, spec@, index, rest) by {
        assert(done + rest =~= rest);
    }
    loop
        invariant
            before == old(session).log(),
            index == instance_index as nat,
            session.log() == before + done,
            forall|rest: Seq<Exchange>|
                #[trigger] converge_run(ConvergePhase::Pulling, target@, spec@, index, done + rest)
                    == converge_run(phase, target@, spec@, index, rest),
        decreases phase.remaining(),
    {
        let action = phase.action(spec, instance_index);
        let response = session.execute(&action, target);
        let ghost e = Exchange {
            target: target@,
            command: action@.argv(),
            response: response_view(response),
        };
        let ghost grown = done.push(e);
        proof {
            assert(before + grown =~= (before + done).push(e));
            assert forall|rest: Seq<Exchange>|
                #[trigger] converge_run(ConvergePhase::Pulling, target@, spec@, index, grown + rest)
                    == converge_run(phase, target@, spec@, index, seq![e] + rest) by {
                assert(grown + rest =~= done + (seq![e] + rest));
            }
        }
        match phase.step(spec, instance_index, response) {
            ConvergeStep::Next(p) => {
                proof {
                    assert forall|rest: Seq<Exchange>|
                        #[trigger] converge_run(
                            ConvergePhase::Pulling,
                            target@,
                            spec@,
                            index,
                            grown + rest,
                        ) == converge_run(p, target@, spec@, index, rest) by {
                        let t = seq![e] + rest;
                        assert(t[0] == e);
                        assert(t.drop_first() =~= rest);
                    }
                    done = grown;
                }
                phase = p;
            },
            ConvergeStep::Converged => {
                proof {
                    let t = seq![e] + Seq::<Exchange>::empty();
                    assert(t[0] == e);
                    assert(grown + Seq::<Exchange>::empty() =~= grown);
                    assert((before + grown).skip(before.len() as int) =~= grown);
                    assert(before.is_prefix_of(before + grown));
                }
                return Ok(());
            },
            ConvergeStep::Failed(reason) => {
                proof {
                    let t = seq![e] + Seq::<Exchange>::empty();
                    assert(t[0] == e);
                    assert(grown + Seq::<Exchange>::empty() =~= grown);
                    assert((before + grown).skip(before.len() as int) =~= grown);
                    assert(before.is_prefix_of(before + grown));
                }
                return Err(reason);
            },
        }
    }
}

} // verus!
