//! Whether a command can be found on the host.
//!
//! The host's own lookup utility answers the question: `where` on Windows,
//! `command` elsewhere. The name is handed to it as its only argument, as it
//! is. Android and iOS are taken to have no such utility.

use vstd::prelude::*;
use crate::process::{check_of, Check, CheckPlan, CommandLine, Invocation, Outcome};
use crate::text::same_text;

verus! {

/// Whether the system that identifies itself as `os` is taken to have no
/// lookup utility.
pub open spec fn is_mobile(os: Seq<char>) -> bool {
    os == "android"@ || os == "ios"@
}

/// The lookup utility of the system `os`.
pub open spec fn lookup_program(os: Seq<char>) -> Seq<char> {
    if os == "windows"@ {
        "where"@
    } else {
        "command"@
    }
}

/// The next step towards knowing whether `command` exists on the system `os`,
/// where `outcome` tells how the lookup ended, if it was run.
pub open spec fn command_check(
    os: Seq<char>,
    command: Seq<char>,
    outcome: Option<Outcome>,
) -> CheckPlan {
    if is_mobile(os) {
        CheckPlan::Answer(false)
    } else {
        check_of(CommandLine { program: lookup_program(os), argument: command }, outcome)
    }
}

/// Whether `command` exists, as `command` tells it.
fn check_command_unix<'a>(command: &'a str, outcome: Option<Outcome>) -> (step: Check<'a>)
    ensures
        step@ == check_of(CommandLine { program: "command"@, argument: command@ }, outcome),
{
    Invocation { program: "command", argument: command }.check(outcome)
}

/// Whether `command` exists, as `where` tells it.
fn check_command_windows<'a>(command: &'a str, outcome: Option<Outcome>) -> (step: Check<'a>)
    ensures
        step@ == check_of(CommandLine { program: "where"@, argument: command@ }, outcome),
{
    Invocation { program: "where", argument: command }.check(outcome)
}

/// The next step towards knowing whether `command` exists on the system that
/// identifies itself as `os`.
///
/// The embedding program first passes no outcome. Where it is handed an
/// invocation, it runs it and passes how it ended; the answer is then whether
/// the lookup was started and exited with code zero. On Android and iOS the
/// answer is `false` at once, whatever the command, and nothing is run.
pub fn check_command<'a>(os: &str, command: &'a str, outcome: Option<Outcome>) -> (step: Check<'a>)
    ensures
        step@ == command_check(os@, command@, outcome),
        is_mobile(os@) ==> step@ == CheckPlan::Answer(false),
        step@ is Run ==> outcome is None,
{
    if same_text(os, "android") || same_text(os, "ios") {
        Check::Answer(false)
    } else if same_text(os, "windows") {
        check_command_windows(command, outcome)
    } else {
        check_command_unix(command, outcome)
    }
}

} // verus!
