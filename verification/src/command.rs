//! The commands a deployment issues, each as an argument vector.
//!
//! A command is never assembled into one string here: every value taken
//! from configuration is an argument of its own, so nothing in it can be
//! read as shell syntax.

use vstd::prelude::*;
use vstd::string::StringExecFns;

verus! {

/// The characters of each string of `v`.
pub open spec fn strings_view(v: Seq<String>) -> Seq<Seq<char>> {
    v.map_values(|s: String| s@)
}

/// Appends `s` to the argument vector `v`.
pub fn push_arg(v: &mut Vec<String>, s: String)
    ensures
        strings_view(final(v)@) == strings_view(old(v)@).push(s@),
{
    v.push(s);
    assert(strings_view(v@) =~= strings_view(old(v)@).push(s@));
}

/// Appends the literal `s` to the argument vector `v`.
pub fn push_literal(v: &mut Vec<String>, s: &str)
    ensures
        strings_view(final(v)@) == strings_view(old(v)@).push(s@),
{
    push_arg(v, s.to_owned());
}

/// A copy of the argument vector `v`.
pub fn clone_args(v: &Vec<String>) -> (r: Vec<String>)
    ensures
        strings_view(r@) == strings_view(v@),
{
    let mut r: Vec<String> = Vec::new();
    let mut i: usize = 0;
    assert(strings_view(r@) =~= strings_view(v@).take(0));
    while i < v.len()
        invariant
            i <= v.len(),
            strings_view(r@) == strings_view(v@).take(i as int),
        decreases v.len() - i,
    {
        push_arg(&mut r, v[i].clone());
        assert(strings_view(v@).take(i + 1) =~= strings_view(v@).take(i as int).push(v@[i as int]@));
        i += 1;
    }
    assert(strings_view(v@).take(v.len() as int) =~= strings_view(v@));
    r
}

/// The shell script that installs the container engine on a host.
pub open spec fn install_script() -> Seq<char> {
    "curl -fsSL https://get.docker.com -o get-docker.sh && sudo sh get-docker.sh && sudo usermod -aG docker $USER"@
}

/// One request to a host: a readiness command, or one of the four
/// primitives that convergence needs from a container engine.
#[derive(Debug)]
pub enum Action {
    /// Ask the engine for its version, to see whether it is there.
    Probe,
    /// Install the engine.
    Install,
    /// Fetch an image.
    Pull { image: String },
    /// Remove the container of that name, running or not.
    Remove { name: String },
    /// Start a detached container of that name from an image.
    Run { name: String, image: String },
    /// List the names of the running containers that the name filter keeps.
    List { name: String },
}

/// Mathematical value of an [`Action`].
pub enum ActionView {
    Probe,
    Install,
    Pull { image: Seq<char> },
    Remove { name: Seq<char> },
    Run { name: Seq<char>, image: Seq<char> },
    List { name: Seq<char> },
}

impl View for Action {
    type V = ActionView;

    open spec fn view(&self) -> ActionView {
        match self {
            Action::Probe => ActionView::Probe,
            Action::Install => ActionView::Install,
            Action::Pull { image } => ActionView::Pull { image: image@ },
            Action::Remove { name } => ActionView::Remove { name: name@ },
            Action::Run { name, image } => ActionView::Run { name: name@, image: image@ },
            Action::List { name } => ActionView::List { name: name@ },
        }
    }
}

impl ActionView {
    /// The argument vector that carries out the action: program first.
    pub open spec fn argv(self) -> Seq<Seq<char>> {
        match self {
            ActionView::Probe => seq!["docker"@, "--version"@],
            ActionView::Install => seq!["sh"@, "-c"@, install_script()],
            ActionView::Pull { image } => seq!["docker"@, "pull"@, image],
            ActionView::Remove { name } => seq!["docker"@, "rm"@, "-f"@, name],
            ActionView::Run { name, image } => seq![
                "docker"@,
                "run"@,
                "-d"@,
                "--name"@,
                name,
                image,
            ],
            ActionView::List { name } => seq![
                "docker"@,
                "ps"@,
                "--filter"@,
                "name="@ + name,
                "--format"@,
                "{{.Names}}"@,
            ],
        }
    }
}

impl Action {
    /// The argument vector that carries out the action: the program, then
    /// its arguments, each configured value an argument of its own.
    pub fn argv(&self) -> (v: Vec<String>)
        ensures
            strings_view(v@) == self@.argv(),
    {
        let mut v: Vec<String> = Vec::new();
        assert(strings_view(v@) =~= Seq::<Seq<char>>::empty());
        match self {
            Action::Probe => {
                push_literal(&mut v, "docker");
                push_literal(&mut v, "--version");
            },
            Action::Install => {
                push_literal(&mut v, "sh");
                push_literal(&mut v, "-c");
                push_literal(
                    &mut v,
                    "curl -fsSL https://get.docker.com -o get-docker.sh && sudo sh get-docker.sh && sudo usermod -aG docker $USER",
                );
            },
            Action::Pull { image } => {
                push_literal(&mut v, "docker");
                push_literal(&mut v, "pull");
                push_arg(&mut v, image.clone());
            },
            Action::Remove { name } => {
                push_literal(&mut v, "docker");
                push_literal(&mut v, "rm");
                push_literal(&mut v, "-f");
                push_arg(&mut v, name.clone());
            },
            Action::Run { name, image } => {
                push_literal(&mut v, "docker");
                push_literal(&mut v, "run");
                push_literal(&mut v, "-d");
                push_literal(&mut v, "--name");
                push_arg(&mut v, name.clone());
                push_arg(&mut v, image.clone());
            },
            Action::List { name } => {
                push_literal(&mut v, "docker");
                push_literal(&mut v, "ps");
                push_literal(&mut v, "--filter");
                let mut filter = "name=".to_owned();
                filter.append(name.as_str());
                push_arg(&mut v, filter);
                push_literal(&mut v, "--format");
                push_literal(&mut v, "{{.Names}}");
            },
        }
        assert(strings_view(v@) =~= self@.argv());
        v
    }
}

} // verus!
