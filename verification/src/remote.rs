//! How a command reaches its host: as it stands where the host is local,
//! through a secure-shell session where it is not.
//!
//! A password never becomes part of an argument vector, where every user
//! of the machine could read it from the process list. It is handed back
//! beside the arguments, for the caller to pass to the session through its
//! environment.

use crate::command::{clone_args, push_arg, push_literal, strings_view};
use crate::exec::response_view;
use crate::model::{
    Credential, CredentialView, ExecFailure, FailureCause, FailureView, HostDescriptor, HostView,
};
use crate::shell::{command_line, render_command_line};
use crate::text::{decimal_digits, push_decimal};
use vstd::prelude::*;
use vstd::string::StringExecFns;

verus! {

/// A process to start: its argument vector, and the password that the
/// session asks for, if it asks for one.
#[derive(Debug)]
pub struct Invocation {
    pub argv: Vec<String>,
    pub password: Option<String>,
}

/// Mathematical value of an [`Invocation`].
pub struct InvocationView {
    pub argv: Seq<Seq<char>>,
    pub password: Option<Seq<char>>,
}

impl View for Invocation {
    type V = InvocationView;

    open spec fn view(&self) -> InvocationView {
        InvocationView {
            argv: strings_view(self.argv@),
            password: match self.password {
                Some(p) => Some(p@),
                None => None,
            },
        }
    }
}

/// The port option of a session: the port where the host names one.
pub open spec fn port_args(host: HostView) -> Seq<Seq<char>> {
    match host.ssh_port {
        Some(p) => seq!["-p"@, decimal_digits(p as nat)],
        None => Seq::empty(),
    }
}

/// Where a session goes: the user, an at sign, the address.
pub open spec fn destination(host: HostView) -> Seq<char> {
    host.username + seq!['@'] + host.address
}

/// The arguments that open a session to `host`, up to and including the
/// destination. With a key file the key is named; with a password the
/// session is started through `sshpass`, which takes the password from its
/// environment.
pub open spec fn session_args(host: HostView) -> Seq<Seq<char>> {
    match host.auth {
        CredentialView::Password(_) => seq!["sshpass"@, "-e"@, "ssh"@] + port_args(host) + seq![
            "-o"@,
            "StrictHostKeyChecking=no"@,
            destination(host),
        ],
        CredentialView::KeyFile(key) => seq!["ssh"@, "-i"@, key] + port_args(host) + seq![
            destination(host),
        ],
    }
}

/// The password that a session to `host` asks for.
pub open spec fn session_password(host: HostView) -> Option<Seq<char>> {
    match host.auth {
        CredentialView::Password(p) => Some(p),
        CredentialView::KeyFile(_) => None,
    }
}

/// The process that runs `command` on `host`: the command itself on the
/// local host; elsewhere a session whose last argument is the command as
/// one quoted line.
pub open spec fn invocation_of(command: Seq<Seq<char>>, host: HostView) -> InvocationView {
    if host.is_local() {
        InvocationView { argv: command, password: None }
    } else {
        InvocationView {
            argv: session_args(host).push(command_line(command)),
            password: session_password(host),
        }
    }
}

/// The password of a host stays out of the argument vector: two hosts that
/// differ in nothing but their passwords are reached by the same
/// arguments.
pub proof fn lemma_password_stays_out(
    command: Seq<Seq<char>>,
    host: HostView,
    first: Seq<char>,
    second: Seq<char>,
)
    ensures
        invocation_of(command, HostView { auth: CredentialView::Password(first), ..host }).argv
            == invocation_of(
            command,
            HostView { auth: CredentialView::Password(second), ..host },
        ).argv,
{
}

/// The arguments that open a session to `host`, up to and including the
/// destination.
pub fn build_ssh_command(host: &HostDescriptor) -> (argv: Vec<String>)
    ensures
        strings_view(argv@) == session_args(host@),
{
    let mut argv: Vec<String> = Vec::new();
    assert(strings_view(argv@) =~= Seq::<Seq<char>>::empty());
    match &host.auth {
        Credential::Password(_) => {
            push_literal(&mut argv, "sshpass");
            push_literal(&mut argv, "-e");
            push_literal(&mut argv, "ssh");
        },
        Credential::KeyFile(key) => {
            push_literal(&mut argv, "ssh");
            push_literal(&mut argv, "-i");
            push_arg(&mut argv, key.clone());
        },
    }
    match host.ssh_port {
        Some(p) => {
            push_literal(&mut argv, "-p");
            let mut digits = String::new();
            push_decimal(&mut digits, p as u64);
            assert(Seq::<char>::empty() + decimal_digits(p as nat) =~= decimal_digits(p as nat));
            push_arg(&mut argv, digits);
        },
        None => {},
    }
    match &host.auth {
        Credential::Password(_) => {
            push_literal(&mut argv, "-o");
            push_literal(&mut argv, "StrictHostKeyChecking=no");
        },
        Credential::KeyFile(_) => {},
    }
    let mut to = host.username.clone();
    to.append("@");
    proof {
        reveal_strlit("@");
        assert("@"@ =~= seq!['@']);
    }
    to.append(host.address.as_str());
    push_arg(&mut argv, to);
    assert(strings_view(argv@) =~= session_args(host@));
    argv
}

/// The process that runs `command` on the remote `host`: a session whose
/// last argument is the command as one quoted line, together with the
/// password, if the host's credential is one.
pub fn ssh_invocation(command: &Vec<String>, host: &HostDescriptor) -> (inv: Invocation)
    ensures
        inv@.argv == session_args(host@).push(command_line(strings_view(command@))),
        inv@.password == session_password(host@),
{
    let mut argv = build_ssh_command(host);
    push_arg(&mut argv, render_command_line(command));
    let password = match &host.auth {
        Credential::Password(p) => Some(p.clone()),
        Credential::KeyFile(_) => None,
    };
    Invocation { argv, password }
}

/// The process that runs `command` on `host`, local or remote.
pub fn invocation(command: &Vec<String>, host: &HostDescriptor) -> (inv: Invocation)
    ensures
        inv@ == invocation_of(strings_view(command@), host@),
{
    if host.is_local() {
        Invocation { argv: clone_args(command), password: None }
    } else {
        ssh_invocation(command, host)
    }
}

/// What a process that ran to its end says of the command on `host`:
/// success with what it printed where it ended with status zero, a
/// failure otherwise. The failure is one of transport where the command
/// went through a session and the process ended with status 255, which is
/// how a session ends that could not be set up or broke; any other ending,
/// one without a status among them, is the command's own.
pub open spec fn response_of(
    host: HostView,
    status: Option<i32>,
    stdout: Seq<char>,
    stderr: Seq<char>,
) -> Result<Seq<char>, FailureView> {
    if status == Some(0i32) {
        Ok(stdout)
    } else {
        Err(
            FailureView {
                stdout,
                stderr,
                cause: if !host.is_local() && status == Some(255i32) {
                    FailureCause::Transport
                } else {
                    FailureCause::NonZeroExit
                },
            },
        )
    }
}

/// Turns the end of a process into the response to the command it ran on
/// `host`. `status` is the exit status, `None` where the process ended
/// without one.
pub fn response(host: &HostDescriptor, status: Option<i32>, stdout: String, stderr: String) -> (r:
    Result<String, ExecFailure>)
    ensures
        response_view(r) == response_of(host@, status, stdout@, stderr@),
{
    match status {
        Some(0) => Ok(stdout),
        Some(255) => {
            let cause = if host.is_local() {
                FailureCause::NonZeroExit
            } else {
                FailureCause::Transport
            };
            Err(ExecFailure { stdout, stderr, cause })
        },
        _ => Err(ExecFailure { stdout, stderr, cause: FailureCause::NonZeroExit }),
    }
}

/// The response to a command whose process could not be started:
/// a failure of transport that carries `message` as its error text.
pub fn not_started(message: String) -> (r: Result<String, ExecFailure>)
    ensures
        response_view(r) == Err::<Seq<char>, FailureView>(
            FailureView {
                stdout: Seq::empty(),
                stderr: message@,
                cause: FailureCause::Transport,
            },
        ),
{
    Err(ExecFailure { stdout: String::new(), stderr: message, cause: FailureCause::Transport })
}

} // verus!
