//! The summary of a run in words: the counts, and a line for each failure
//! that names the host, the instance and what went wrong.

use crate::command::{push_arg, strings_view};
use crate::converge::instance_name;
use crate::model::{DeploymentUnit, FailureCause, FailureReason, ReasonView, UnitView};
use crate::report::{failures_view, DeploymentReport, ReportView};
use crate::text::{decimal_digits, push_decimal};
use vstd::prelude::*;
use vstd::string::StringExecFns;

verus! {

/// A cause in words.
pub open spec fn cause_label(cause: FailureCause) -> Seq<char> {
    match cause {
        FailureCause::NonZeroExit => "non-zero exit"@,
        FailureCause::Transport => "transport failure"@,
    }
}

/// The line for one failure: the address of the host and the name of the
/// instance, then what went wrong and what the failing command printed on
/// its error stream, or what the engine listed in place of the instance.
pub open spec fn failure_line(unit: UnitView, reason: ReasonView) -> Seq<char> {
    let head = "  - "@ + unit.host.address + " "@ + instance_name(
        unit.spec.container_name,
        unit.instance_index,
    ) + ": "@;
    match reason {
        ReasonView::ToolchainMissing(f) => head + "no container engine ("@ + cause_label(f.cause)
            + "): "@ + f.stderr,
        ReasonView::ExecFailure(f) => head + "command failed ("@ + cause_label(f.cause) + "): "@
            + f.stderr,
        ReasonView::ContainerNotRunning(listed) => head + "container is not running; listed: "@
            + listed,
    }
}

/// A line that sets a count against the total.
pub open spec fn count_line(label: Seq<char>, count: nat, total: nat) -> Seq<char> {
    label + decimal_digits(count) + "/"@ + decimal_digits(total)
}

/// The summary of a report: a heading, the successes and the failures
/// against the total, and a line for each failure in the order of the
/// report.
pub open spec fn summary_lines(report: ReportView) -> Seq<Seq<char>> {
    seq![
        "Deployment Results:"@,
        count_line("  - Successful: "@, report.succeeded, report.total),
        count_line("  - Failed: "@, report.failed.len(), report.total),
    ] + report.failed.map_values(|f: (UnitView, ReasonView)| failure_line(f.0, f.1))
}

/// A cause in words.
fn cause_text(cause: FailureCause) -> (s: &'static str)
    ensures
        s@ == cause_label(cause),
{
    match cause {
        FailureCause::NonZeroExit => "non-zero exit",
        FailureCause::Transport => "transport failure",
    }
}

/// The line for one failure.
pub fn describe_failure(unit: &DeploymentUnit, reason: &FailureReason) -> (line: String)
    ensures
        line@ == failure_line(unit@, reason@),
{
    let mut line = "  - ".to_owned();
    line.append(unit.host.address.as_str());
    line.append(" ");
    let name = unit.spec.instance_name(unit.instance_index);
    line.append(name.as_str());
    line.append(": ");
    match reason {
        FailureReason::ToolchainMissing(f) => {
            line.append("no container engine (");
            line.append(cause_text(f.cause));
            line.append("): ");
            line.append(f.stderr.as_str());
        },
        FailureReason::ExecFailure(f) => {
            line.append("command failed (");
            line.append(cause_text(f.cause));
            line.append("): ");
            line.append(f.stderr.as_str());
        },
        FailureReason::ContainerNotRunning(listed) => {
            line.append("container is not running; listed: ");
            line.append(listed.as_str());
        },
    }
    line
}

/// A line that sets a count against the total.
fn counted(label: &str, count: usize, total: usize) -> (line: String)
    ensures
        line@ == count_line(label@, count as nat, total as nat),
{
    let mut line = label.to_owned();
    push_decimal(&mut line, count as u64);
    line.append("/");
    push_decimal(&mut line, total as u64);
    line
}

/// The summary of a run, line by line: the counts, then each failure with
/// its host, its instance and what went wrong.
pub fn deployment_summary(report: &DeploymentReport) -> (lines: Vec<String>)
    ensures
        strings_view(lines@) == summary_lines(report@),
{
    let failed = report.failed();
    let mut lines: Vec<String> = Vec::new();
    assert(strings_view(lines@) =~= Seq::<Seq<char>>::empty());
    push_arg(&mut lines, "Deployment Results:".to_owned());
    push_arg(&mut lines, counted("  - Successful: ", report.succeeded(), report.total()));
    push_arg(&mut lines, counted("  - Failed: ", failed.len(), report.total()));
    let ghost head = strings_view(lines@);
    let ghost rest = report@.failed.map_values(|f: (UnitView, ReasonView)| failure_line(f.0, f.1));
    let mut i: usize = 0;
    assert(head + rest.take(0) =~= head);
    while i < failed.len()
        invariant
            i <= failed.len(),
            failures_view(failed@) == report@.failed,
            rest == report@.failed.map_values(
                |f: (UnitView, ReasonView)| failure_line(f.0, f.1),
            ),
            strings_view(lines@) == head + rest.take(i as int),
        decreases failed.len() - i,
    {
        let line = describe_failure(&failed[i].0, &failed[i].1);
        push_arg(&mut lines, line);
        proof {
            assert(report@.failed[i as int] == (failed@[i as int].0@, failed@[i as int].1@));
            assert(rest[i as int] == line@);
            assert((head + rest.take(i as int)).push(line@) =~= head + rest.take(i + 1));
        }
        i += 1;
    }
    proof {
        assert(rest.take(failed.len() as int) =~= rest);
        assert(head =~= seq![
            "Deployment Results:"@,
            count_line("  - Successful: "@, report@.succeeded, report@.total),
            count_line("  - Failed: "@, report@.failed.len(), report@.total),
        ]);
    }
    lines
}

} // verus!
