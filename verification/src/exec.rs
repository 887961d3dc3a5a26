//! The boundary to the outside: an [`Executor`] runs one command on one
//! host, and a [`Session`] keeps the record of what was asked of it and
//! what came back.

use crate::command::Action;
use crate::model::{ExecFailure, FailureView, HostDescriptor, HostView};
use vstd::prelude::*;

verus! {

/// Runs commands on hosts.
///
/// `execute` runs the command given as an argument vector on `target`, as a
/// local process where the target is local and through a remote session
/// otherwise, and returns what it printed. A non-zero exit status and a
/// transport failure both come back as an [`ExecFailure`]. Nothing is
/// assumed of an implementation: whatever it returns, the functions of this
/// crate decide from it.
pub trait Executor {
    fn execute(&mut self, command: &Vec<String>, target: &HostDescriptor) -> Result<
        String,
        ExecFailure,
    >;
}

/// Mathematical value of what a command invocation returned.
pub open spec fn response_view(r: Result<String, ExecFailure>) -> Result<Seq<char>, FailureView> {
    match r {
        Ok(out) => Ok(out@),
        Err(f) => Err(f@),
    }
}

/// One command invocation: where it ran, what was run, what came back.
pub struct Exchange {
    pub target: HostView,
    pub command: Seq<Seq<char>>,
    pub response: Result<Seq<char>, FailureView>,
}

/// An executor together with the record of every command run through it.
///
/// The record only grows, by one entry for each call of
/// [`Session::execute`], and nothing else reaches the executor: so what a
/// function says of the record's growth is what it asked of the executor.
pub struct Session<E: Executor> {
    executor: E,
    log: Ghost<Seq<Exchange>>,
}

impl<E: Executor> Session<E> {
    /// Every command run through this session so far, oldest first.
    pub closed spec fn log(&self) -> Seq<Exchange> {
        self.log@
    }

    /// The executor as it is now.
    pub closed spec fn inner(&self) -> E {
        self.executor
    }

    /// A session on `executor` with an empty record.
    pub fn new(executor: E) -> (s: Self)
        ensures
            s.log() == Seq::<Exchange>::empty(),
            s.inner() == executor,
    {
        Session { executor, log: Ghost(Seq::empty()) }
    }

    /// The executor, to read what it has gathered.
    pub fn executor(&self) -> (e: &E)
        ensures
            *e == self.inner(),
    {
        &self.executor
    }

    /// Ends the session and hands the executor back.
    pub fn into_executor(self) -> (e: E)
        ensures
            e == self.inner(),
    {
        self.executor
    }

    /// Runs `action` on `target` and records the exchange.
    pub fn execute(&mut self, action: &Action, target: &HostDescriptor) -> (r: Result<
        String,
        ExecFailure,
    >)
        ensures
            final(self).log() == old(self).log().push(
                Exchange { target: target@, command: action@.argv(), response: response_view(r) },
            ),
    {
        let command = action.argv();
        let r = self.executor.execute(&command, target);
        proof {
            self.log@ = self.log@.push(
                Exchange { target: target@, command: action@.argv(), response: response_view(r) },
            );
        }
        r
    }
}

} // verus!
