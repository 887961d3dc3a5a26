//! Readiness of a host: is a container engine there, and if not, can one be
//! installed?
//!
//! The decision is a small state machine. A host starts `Unknown` and is
//! probed. A probe that succeeds makes it ready. A probe that fails makes
//! it `Absent`, and the installation is run. An installation that fails is
//! final. One that succeeds leaves the host `Installed`, and it is probed
//! once more: that second probe decides, and nothing is tried again.

use crate::command::{Action, ActionView};
use crate::exec::{response_view, Exchange, Executor, Session};
use crate::model::{ExecFailure, FailureView, HostDescriptor, HostView};
use vstd::prelude::*;

verus! {

/// What is known of a host while its readiness is being established.
#[derive(Clone, Copy, Debug, PartialEq, Eq, Structural)]
pub enum ReadinessPhase {
    /// Nothing yet: the probe comes next.
    Unknown,
    /// The probe found no engine: the installation comes next.
    Absent,
    /// The installation went through: a second probe comes next.
    Installed,
}

/// Where a response leads.
#[derive(Debug)]
pub enum ReadinessStep {
    /// More is to be done, in the given phase.
    Next(ReadinessPhase),
    /// The host has a working engine.
    Ready,
    /// The host has none and will not get one in this run.
    Failed(ExecFailure),
}

/// Mathematical value of a [`ReadinessStep`].
pub enum ReadinessStepView {
    Next(ReadinessPhase),
    Ready,
    Failed(FailureView),
}

impl View for ReadinessStep {
    type V = ReadinessStepView;

    open spec fn view(&self) -> ReadinessStepView {
        match self {
            ReadinessStep::Next(p) => ReadinessStepView::Next(*p),
            ReadinessStep::Ready => ReadinessStepView::Ready,
            ReadinessStep::Failed(f) => ReadinessStepView::Failed(f@),
        }
    }
}

impl ReadinessPhase {
    /// The command that the phase calls for.
    pub open spec fn request(self) -> ActionView {
        match self {
            ReadinessPhase::Unknown => ActionView::Probe,
            ReadinessPhase::Absent => ActionView::Install,
            ReadinessPhase::Installed => ActionView::Probe,
        }
    }

    /// Where the response to the phase's command leads.
    pub open spec fn advance(self, response: Result<Seq<char>, FailureView>) -> ReadinessStepView {
        match (self, response) {
            (ReadinessPhase::Unknown, Ok(_)) => ReadinessStepView::Ready,
            (ReadinessPhase::Unknown, Err(_)) => ReadinessStepView::Next(ReadinessPhase::Absent),
            (ReadinessPhase::Absent, Ok(_)) => ReadinessStepView::Next(ReadinessPhase::Installed),
            (ReadinessPhase::Absent, Err(f)) => ReadinessStepView::Failed(f),
            (ReadinessPhase::Installed, Ok(_)) => ReadinessStepView::Ready,
            (ReadinessPhase::Installed, Err(f)) => ReadinessStepView::Failed(f),
        }
    }

    /// How many commands may still follow the phase's own.
    pub open spec fn remaining(self) -> nat {
        match self {
            ReadinessPhase::Unknown => 2,
            ReadinessPhase::Absent => 1,
            ReadinessPhase::Installed => 0,
        }
    }

    /// The command to run in this phase.
    pub fn action(&self) -> (a: Action)
        ensures
            a@ == self.request(),
    {
        match self {
            ReadinessPhase::Unknown => Action::Probe,
            ReadinessPhase::Absent => Action::Install,
            ReadinessPhase::Installed => Action::Probe,
        }
    }

    /// Decides from the response to this phase's command what comes next.
    pub fn step(&self, response: Result<String, ExecFailure>) -> (s: ReadinessStep)
        ensures
            s@ == self.advance(response_view(response)),
    {
        match self {
            ReadinessPhase::Unknown => match response {
                Ok(_) => ReadinessStep::Ready,
                Err(_) => ReadinessStep::Next(ReadinessPhase::Absent),
            },
            ReadinessPhase::Absent => match response {
                Ok(_) => ReadinessStep::Next(ReadinessPhase::Installed),
                Err(f) => ReadinessStep::Failed(f),
            },
            ReadinessPhase::Installed => match response {
                Ok(_) => ReadinessStep::Ready,
                Err(f) => ReadinessStep::Failed(f),
            },
        }
    }
}

/// Mathematical value of a readiness result.
pub open spec fn readiness_view(r: Result<(), ExecFailure>) -> Result<(), FailureView> {
    match r {
        Ok(_) => Ok(()),
        Err(f) => Err(f@),
    }
}

/// The result that the exchanges `t` establish for `target`, starting in
/// `phase`: `Some` where `t` is a complete run of the machine, each command
/// the one its phase calls for, each sent to `target`, the last response a
/// deciding one; `None` for any other sequence.
pub open spec fn readiness_run(phase: ReadinessPhase, target: HostView, t: Seq<Exchange>) -> Option<
    Result<(), FailureView>,
>
    decreases t.len(),
{
    if t.len() == 0 {
        None
    } else if t[0].target != target || t[0].command != phase.request().argv() {
        None
    } else {
        match phase.advance(t[0].response) {
            ReadinessStepView::Next(p) => readiness_run(p, target, t.drop_first()),
            ReadinessStepView::Ready => if t.len() == 1 {
                Some(Ok(()))
            } else {
                None
            },
            ReadinessStepView::Failed(f) => if t.len() == 1 {
                Some(Err(f))
            } else {
                None
            },
        }
    }
}

/// Makes sure that `target` has a container engine: probes for it, installs
/// it where the probe fails, and probes once more after an installation.
///
/// Returns `Ok` where a probe succeeded, and otherwise the failure of the
/// installation or of the second probe. The session's record grows by the
/// one to three commands that were run.
pub fn ensure_ready<E: Executor>(session: &mut Session<E>, target: &HostDescriptor) -> (r: Result<
    (),
    ExecFailure,
>)
    ensures
        old(session).log().is_prefix_of(final(session).log()),
        readiness_run(
            ReadinessPhase::Unknown,
            target@,
            final(session).log().skip(old(session).log().len() as int),
        ) == Some(readiness_view(r)),
{
    let ghost before = session.log();
    let ghost mut done: Seq<Exchange> = Seq::empty();
    let mut phase = ReadinessPhase::Unknown;
    assert(before + done =~= before);
    assert forall|rest: Seq<Exchange>|
        #[trigger] readiness_run(ReadinessPhase::Unknown, target@, done + rest) == readiness_run(
            phase,
            target@,
            rest,
        ) by {
        assert(done + rest =~= rest);
    }
    loop
        invariant
            before == old(session).log(),
            session.log() == before + done,
            forall|rest: Seq<Exchange>|
                #[trigger] readiness_run(ReadinessPhase::Unknown, target@, done + rest)
                    == readiness_run(phase, target@, rest),
        decreases phase.remaining(),
    {
        let action = phase.action();
        let response = session.execute(&action, target);
        let ghost e = Exchange {
            target: target@,
            command: action@.argv(),
            response: response_view(response),
        };
        let ghost grown = done.push(e);
        proof {
            assert(before + grown =~= (before + done).push(e));
            assert forall|rest: Seq<Exchange>|
                #[trigger] readiness_run(ReadinessPhase::Unknown, target@, grown + rest)
                    == readiness_run(phase, target@, seq![e] + rest) by {
                assert(grown + rest =~= done + (seq![e] + rest));
            }
        }
        match phase.step(response) {
            ReadinessStep::Next(p) => {
                proof {
                    assert forall|rest: Seq<Exchange>|
                        #[trigger] readiness_run(ReadinessPhase::Unknown, target@, grown + rest)
                            == readiness_run(p, target@, rest) by {
                        let t = seq![e] + rest;
                        assert(t[0] == e);
                        assert(t.drop_first() =~= rest);
                    }
                    done = grown;
                }
                phase = p;
            },
            ReadinessStep::Ready => {
                proof {
                    let t = seq![e] + Seq::<Exchange>::empty();
                    assert(t[0] == e);
                    assert(grown + Seq::<Exchange>::empty() =~= grown);
                    assert((before + grown).skip(before.len() as int) =~= grown);
                    assert(before.is_prefix_of(before + grown));
                }
                return Ok(());
            },
            ReadinessStep::Failed(f) => {
                proof {
                    let t = seq![e] + Seq::<Exchange>::empty();
                    assert(t[0] == e);
                    assert(grown + Seq::<Exchange>::empty() =~= grown);
                    assert((before + grown).skip(before.len() as int) =~= grown);
                    assert(before.is_prefix_of(before + grown));
                }
                return Err(f);
            },
        }
    }
}

} // verus!
