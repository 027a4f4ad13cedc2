//! The boundary to other programs: what to run, and how a run ended.

use vstd::prelude::*;

verus! {

/// How one attempt to run a program ended.
#[derive(Clone, Copy, Debug, PartialEq, Eq, Structural)]
pub enum Outcome {
    /// The program could not be started.
    NotStarted,
    /// The program was started and ended without an exit code.
    Interrupted,
    /// The program was started and exited with this code.
    Exited(i32),
}

impl Outcome {
    /// An attempt counts as a success only when the program was started and
    /// exited with code zero. A program that could not be started counts like
    /// one that exited with another code.
    pub open spec fn succeeded(self) -> bool {
        self == Outcome::Exited(0)
    }

    /// Whether the attempt was a success.
    pub fn success(&self) -> (ok: bool)
        ensures
            ok == self.succeeded(),
    {
        match *self {
            Outcome::Exited(code) => code == 0,
            _ => false,
        }
    }
}

/// A program to run with a single argument.
#[derive(Clone, Copy, Debug, PartialEq, Eq)]
pub struct Invocation<'a> {
    /// The name of the program, resolved by the host when it is run.
    pub program: &'a str,
    /// The only argument, handed over as it is.
    pub argument: &'a str,
}

/// The text of an [`Invocation`].
pub struct CommandLine {
    pub program: Seq<char>,
    pub argument: Seq<char>,
}

impl<'a> View for Invocation<'a> {
    type V = CommandLine;

    open spec fn view(&self) -> CommandLine {
        CommandLine { program: self.program@, argument: self.argument@ }
    }
}

/// What to do about a question that one run of a program answers.
#[derive(Clone, Copy, Debug, PartialEq, Eq)]
pub enum Check<'a> {
    /// Run this invocation and report how it ended.
    Run(Invocation<'a>),
    /// The question is answered.
    Answer(bool),
}

/// The text of a [`Check`].
pub enum CheckPlan {
    Run(CommandLine),
    Answer(bool),
}

impl<'a> View for Check<'a> {
    type V = CheckPlan;

    open spec fn view(&self) -> CheckPlan {
        match *self {
            Check::Run(invocation) => CheckPlan::Run(invocation@),
            Check::Answer(answer) => CheckPlan::Answer(answer),
        }
    }
}

/// A question that running `line` answers: until there is an outcome the
/// program is to be run, and its success is the answer.
pub open spec fn check_of(line: CommandLine, outcome: Option<Outcome>) -> CheckPlan {
    match outcome {
        None => CheckPlan::Run(line),
        Some(ended) => CheckPlan::Answer(ended.succeeded()),
    }
}

impl<'a> Invocation<'a> {
    /// Asks for this invocation to be run, or judges how it ended.
    pub fn check(self, outcome: Option<Outcome>) -> (step: Check<'a>)
        ensures
            step@ == check_of(self@, outcome),
    {
        match outcome {
            None => Check::Run(self),
            Some(ended) => Check::Answer(ended.success()),
        }
    }
}

} // verus!
