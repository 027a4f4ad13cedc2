//! Which package manager a host offers.
//!
//! Some systems are taken to have one fixed package manager. On the others a
//! short list of candidates is tried in order: each is asked for its version,
//! and the first that answers with success is the result.

use vstd::prelude::*;
use crate::process::{check_of, Check, CommandLine, Invocation, Outcome};
use crate::text::same_text;

verus! {

/// The argument that asks a package manager for its version.
pub const VERSION_FLAG: &'static str = "--version";

/// The result when no package manager is known or none answered.
pub const NOT_FOUND: &'static str = "No package manager found.";

/// What to do next while looking for a package manager.
#[derive(Clone, Copy, Debug, PartialEq, Eq)]
pub enum ManagerStep {
    /// Run this invocation and report how it ended.
    Probe(Invocation<'static>),
    /// The search is over, with this name.
    Done(&'static str),
}

/// The text of a [`ManagerStep`].
pub enum ManagerPlan {
    Probe(CommandLine),
    Done(Seq<char>),
}

impl View for ManagerStep {
    type V = ManagerPlan;

    open spec fn view(&self) -> ManagerPlan {
        match *self {
            ManagerStep::Probe(query) => ManagerPlan::Probe(query@),
            ManagerStep::Done(name) => ManagerPlan::Done(name@),
        }
    }
}

/// How many attempts failed before the first success, or before the end of
/// `outcomes` where none succeeded.
pub open spec fn leading_failures(outcomes: Seq<Outcome>) -> nat
    decreases outcomes.len(),
{
    if outcomes.len() == 0 || outcomes[0].succeeded() {
        0
    } else {
        1 + leading_failures(outcomes.drop_first())
    }
}

/// The next step of a search through `candidates`, where `outcomes[i]` tells
/// how asking `candidates[i]` for its version ended.
///
/// The first candidate that succeeded is the result. While none has, the next
/// untried candidate is to be asked; once all have failed, the search ends
/// with [`NOT_FOUND`].
pub open spec fn search(candidates: Seq<Seq<char>>, outcomes: Seq<Outcome>) -> ManagerPlan {
    let failed = leading_failures(outcomes);
    if failed >= candidates.len() {
        ManagerPlan::Done(NOT_FOUND@)
    } else if failed < outcomes.len() {
        ManagerPlan::Done(candidates[failed as int])
    } else {
        ManagerPlan::Probe(
            CommandLine { program: candidates[failed as int], argument: VERSION_FLAG@ },
        )
    }
}

/// The candidates on Windows.
pub open spec fn windows_candidates() -> Seq<Seq<char>> {
    seq!["winget"@]
}

/// The candidates on macOS, in the order in which they are tried.
pub open spec fn mac_candidates() -> Seq<Seq<char>> {
    seq!["brew"@, "port"@, "fink"@]
}

/// The candidates on Linux, in the order in which they are tried.
pub open spec fn linux_candidates() -> Seq<Seq<char>> {
    seq!["apt"@, "dnf"@, "zypper"@, "pacman"@, "emerge"@, "nix-env"@]
}

/// The texts of a list of names.
spec fn texts(names: Seq<&'static str>) -> Seq<Seq<char>> {
    Seq::new(names.len(), |i: int| names[i]@)
}

/// How the package manager of a system is found.
pub enum Strategy {
    /// The system is taken to have this package manager. Nothing is run to
    /// confirm it.
    Fixed(Seq<char>),
    /// These candidates are tried in order.
    Probe(Seq<Seq<char>>),
    /// No package manager is known for the system.
    Unknown,
}

/// The strategy for the system that identifies itself as `os`.
pub open spec fn strategy(os: Seq<char>) -> Strategy {
    if os == "windows"@ {
        Strategy::Probe(windows_candidates())
    } else if os == "freebsd"@ || os == "dragonfly"@ || os == "solaris"@ {
        Strategy::Fixed("pkg"@)
    } else if os == "openbsd"@ {
        Strategy::Fixed("pkg_add"@)
    } else if os == "netbsd"@ {
        Strategy::Fixed("pkgsrc"@)
    } else if os == "macos"@ {
        Strategy::Probe(mac_candidates())
    } else if os == "linux"@ {
        Strategy::Probe(linux_candidates())
    } else {
        Strategy::Unknown
    }
}

/// The next step on the system `os` after the attempts in `outcomes`.
pub open spec fn resolution(os: Seq<char>, outcomes: Seq<Outcome>) -> ManagerPlan {
    match strategy(os) {
        Strategy::Fixed(name) => ManagerPlan::Done(name),
        Strategy::Probe(candidates) => search(candidates, outcomes),
        Strategy::Unknown => ManagerPlan::Done(NOT_FOUND@),
    }
}

/// Whether `name` is a candidate on some system.
pub open spec fn is_candidate(name: Seq<char>) -> bool {
    windows_candidates().contains(name) || mac_candidates().contains(name)
        || linux_candidates().contains(name)
}

/// Whether `name` is the fixed package manager of some system.
pub open spec fn is_fixed_name(name: Seq<char>) -> bool {
    name == "pkg"@ || name == "pkg_add"@ || name == "pkgsrc"@
}

/// Whether a search can end with `name`.
pub open spec fn is_result_name(name: Seq<char>) -> bool {
    is_candidate(name) || is_fixed_name(name) || name == NOT_FOUND@
}

/// `leading_failures` counts exactly the attempts before the first success.
pub proof fn lemma_leading_failures(outcomes: Seq<Outcome>)
    ensures
        leading_failures(outcomes) <= outcomes.len(),
        forall|i: int|
            0 <= i < leading_failures(outcomes) ==> !(#[trigger] outcomes[i]).succeeded(),
        leading_failures(outcomes) < outcomes.len() ==> outcomes[leading_failures(
            outcomes,
        ) as int].succeeded(),
    decreases outcomes.len(),
{
    if outcomes.len() == 0 || outcomes[0].succeeded() {
    } else {
        let rest = outcomes.drop_first();
        lemma_leading_failures(rest);
        assert forall|i: int| 0 <= i < leading_failures(outcomes) implies !(
        #[trigger] outcomes[i]).succeeded() by {
            if i > 0 {
                assert(outcomes[i] == rest[i - 1]);
            }
        }
    }
}

/// Where `outcomes` holds `n` failures followed by either nothing or a success,
/// `leading_failures` is `n`.
pub proof fn lemma_leading_failures_is(outcomes: Seq<Outcome>, n: int)
    requires
        0 <= n <= outcomes.len(),
        forall|i: int| 0 <= i < n ==> !(#[trigger] outcomes[i]).succeeded(),
        n < outcomes.len() ==> outcomes[n].succeeded(),
    ensures
        leading_failures(outcomes) == n,
{
    lemma_leading_failures(outcomes);
    let k = leading_failures(outcomes) as int;
    if k < n {
        assert(!outcomes[k].succeeded());
    } else if n < k {
        assert(outcomes[n].succeeded());
    }
}

/// Whether the package manager `pm` answers when asked for its version.
fn check_version_pm(pm: &'static str, outcome: Option<Outcome>) -> (step: Check<'static>)
    ensures
        step@ == check_of(CommandLine { program: pm@, argument: VERSION_FLAG@ }, outcome),
{
    Invocation { program: pm, argument: VERSION_FLAG }.check(outcome)
}

/// The next step of a search through `candidates`.
fn first_responding(candidates: &[&'static str], outcomes: &[Outcome]) -> (step: ManagerStep)
    ensures
        step@ == search(texts(candidates@), outcomes@),
{
    let mut i: usize = 0;
    while i < candidates.len()
        invariant
            i <= candidates.len(),
            i <= outcomes.len(),
            forall|j: int| 0 <= j < i ==> !(#[trigger] outcomes@[j]).succeeded(),
        decreases candidates.len() - i,
    {
        let seen = if i < outcomes.len() {
            Some(outcomes[i])
        } else {
            None
        };
        match check_version_pm(candidates[i], seen) {
            Check::Run(query) => {
                proof {
                    lemma_leading_failures_is(outcomes@, i as int);
                }
                return ManagerStep::Probe(query);
            },
            Check::Answer(true) => {
                proof {
                    lemma_leading_failures_is(outcomes@, i as int);
                }
                return ManagerStep::Done(candidates[i]);
            },
            Check::Answer(false) => {},
        }
        i += 1;
    }
    proof {
        lemma_leading_failures(outcomes@);
        let failed = leading_failures(outcomes@) as int;
        if failed < i {
            assert(!outcomes@[failed].succeeded());
        }
    }
    ManagerStep::Done(NOT_FOUND)
}

/// The next step of the search on Windows, where `winget` is the only
/// candidate.
pub fn check_windows(outcomes: &[Outcome]) -> (step: ManagerStep)
    ensures
        step@ == search(windows_candidates(), outcomes@),
{
    let packages: [&'static str; 1] = ["winget"];
    assert(texts(packages@) =~= windows_candidates());
    first_responding(packages.as_slice(), outcomes)
}

/// The next step of the search on Linux.
pub fn check_linux(outcomes: &[Outcome]) -> (step: ManagerStep)
    ensures
        step@ == search(linux_candidates(), outcomes@),
{
    let packages: [&'static str; 6] = ["apt", "dnf", "zypper", "pacman", "emerge", "nix-env"];
    assert(texts(packages@) =~= linux_candidates());
    first_responding(packages.as_slice(), outcomes)
}

/// The next step of the search on macOS.
pub fn check_mac(outcomes: &[Outcome]) -> (step: ManagerStep)
    ensures
        step@ == search(mac_candidates(), outcomes@),
{
    let packages: [&'static str; 3] = ["brew", "port", "fink"];
    assert(texts(packages@) =~= mac_candidates());
    first_responding(packages.as_slice(), outcomes)
}

/// The next step towards the package manager of the system that identifies
/// itself as `os`, where `outcomes` tells how the probes asked for so far
/// ended, in the order in which they were asked for.
///
/// The embedding program starts with no outcomes, runs each probe it is
/// handed, appends how it ended and asks again, until the step is `Done`.
/// Nothing is remembered between calls: a host that changes between two
/// searches may give two different results.
pub fn package_manager(os: &str, outcomes: &[Outcome]) -> (step: ManagerStep)
    ensures
        step@ == resolution(os@, outcomes@),
        step@ matches ManagerPlan::Done(name) ==> name.len() > 0 && is_result_name(name),
{
    proof {
        lemma_result_is_known(os@, outcomes@);
    }
    if same_text(os, "windows") {
        check_windows(outcomes)
    } else if same_text(os, "freebsd") || same_text(os, "dragonfly") || same_text(os, "solaris") {
        ManagerStep::Done("pkg")
    } else if same_text(os, "openbsd") {
        ManagerStep::Done("pkg_add")
    } else if same_text(os, "netbsd") {
        ManagerStep::Done("pkgsrc")
    } else if same_text(os, "macos") {
        check_mac(outcomes)
    } else if same_text(os, "linux") {
        check_linux(outcomes)
    } else {
        ManagerStep::Done(NOT_FOUND)
    }
}

/// A search through `candidates` ends with one of them or with [`NOT_FOUND`],
/// and asks only candidates for their version.
pub proof fn lemma_search_stays_in_list(candidates: Seq<Seq<char>>, outcomes: Seq<Outcome>)
    ensures
        match search(candidates, outcomes) {
            ManagerPlan::Done(name) => candidates.contains(name) || name == NOT_FOUND@,
            ManagerPlan::Probe(query) => candidates.contains(query.program)
                && query.argument == VERSION_FLAG@,
        },
{
    let failed = leading_failures(outcomes) as int;
    if failed < candidates.len() {
        // The candidate at `failed` is the witness that the list holds it.
        assert(candidates.contains(candidates[failed]));
    }
}

/// On every system and after any attempts, a finished search gives a name that
/// is not empty and is a candidate, a fixed package manager or [`NOT_FOUND`];
/// and only candidates are ever run.
pub proof fn lemma_result_is_known(os: Seq<char>, outcomes: Seq<Outcome>)
    ensures
        match resolution(os, outcomes) {
            ManagerPlan::Done(name) => name.len() > 0 && is_result_name(name),
            ManagerPlan::Probe(query) => is_candidate(query.program)
                && query.argument == VERSION_FLAG@,
        },
{
    reveal_strlit("winget");
    reveal_strlit("brew");
    reveal_strlit("port");
    reveal_strlit("fink");
    reveal_strlit("apt");
    reveal_strlit("dnf");
    reveal_strlit("zypper");
    reveal_strlit("pacman");
    reveal_strlit("emerge");
    reveal_strlit("nix-env");
    reveal_strlit("pkg");
    reveal_strlit("pkg_add");
    reveal_strlit("pkgsrc");
    reveal_strlit("No package manager found.");
    match strategy(os) {
        Strategy::Probe(candidates) => {
            lemma_search_stays_in_list(candidates, outcomes);
        },
        _ => {},
    }
}

/// The first candidate that answered with success is the result, whatever the
/// candidates after it did.
pub proof fn lemma_first_success_wins(
    candidates: Seq<Seq<char>>,
    outcomes: Seq<Outcome>,
    first: int,
)
    requires
        0 <= first < candidates.len(),
        first < outcomes.len(),
        outcomes[first].succeeded(),
        forall|i: int| 0 <= i < first ==> !(#[trigger] outcomes[i]).succeeded(),
    ensures
        search(candidates, outcomes) == ManagerPlan::Done(candidates[first]),
{
    lemma_leading_failures_is(outcomes, first);
}

/// A probe is asked for only on a system with candidates, only while every
/// attempt so far has failed, and it is the probe of the next candidate. So a
/// search through `n` candidates runs at most `n` programs, and a system with a
/// fixed or no package manager runs none.
pub proof fn lemma_probe_is_next_untried(os: Seq<char>, outcomes: Seq<Outcome>)
    requires
        resolution(os, outcomes) is Probe,
    ensures
        strategy(os) matches Strategy::Probe(candidates) && outcomes.len() < candidates.len()
            && resolution(os, outcomes)->Probe_0.program == candidates[outcomes.len() as int],
        forall|i: int| 0 <= i < outcomes.len() ==> !(#[trigger] outcomes[i]).succeeded(),
{
    lemma_leading_failures(outcomes);
}

/// The name that a search through `candidates` ends with on a host where
/// `responds` tells which programs answer a version query with success.
pub open spec fn found(
    candidates: Seq<Seq<char>>,
    responds: spec_fn(Seq<char>) -> bool,
) -> Seq<char>
    decreases candidates.len(),
{
    if candidates.len() == 0 {
        NOT_FOUND@
    } else if responds(candidates[0]) {
        candidates[0]
    } else {
        found(candidates.drop_first(), responds)
    }
}

/// Whether `outcomes` is what the host described by `responds` answers when
/// the candidates are asked in order.
pub open spec fn faithful(
    candidates: Seq<Seq<char>>,
    responds: spec_fn(Seq<char>) -> bool,
    outcomes: Seq<Outcome>,
) -> bool {
    forall|i: int|
        0 <= i < outcomes.len() && i < candidates.len() ==> (#[trigger] outcomes[i]).succeeded()
            == responds(candidates[i])
}

/// Where several candidates would answer, their order in the list decides:
/// the result is the first of them.
pub proof fn lemma_found_is_first_responding(
    candidates: Seq<Seq<char>>,
    responds: spec_fn(Seq<char>) -> bool,
    first: int,
)
    requires
        0 <= first < candidates.len(),
        responds(candidates[first]),
        forall|i: int| 0 <= i < first ==> !responds(#[trigger] candidates[i]),
    ensures
        found(candidates, responds) == candidates[first],
    decreases candidates.len(),
{
    if first > 0 {
        assert(!responds(candidates[0]));
        let rest = candidates.drop_first();
        assert forall|i: int| 0 <= i < first - 1 implies !responds(#[trigger] rest[i]) by {
            assert(rest[i] == candidates[i + 1]);
        }
        lemma_found_is_first_responding(rest, responds, first - 1);
    }
}

/// Where no candidate would answer, the result is [`NOT_FOUND`].
pub proof fn lemma_found_none_responding(
    candidates: Seq<Seq<char>>,
    responds: spec_fn(Seq<char>) -> bool,
)
    requires
        forall|i: int| 0 <= i < candidates.len() ==> !responds(#[trigger] candidates[i]),
    ensures
        found(candidates, responds) == NOT_FOUND@,
    decreases candidates.len(),
{
    if candidates.len() > 0 {
        assert(!responds(candidates[0]));
        let rest = candidates.drop_first();
        assert forall|i: int| 0 <= i < rest.len() implies !responds(#[trigger] rest[i]) by {
            assert(rest[i] == candidates[i + 1]);
        }
        lemma_found_none_responding(rest, responds);
    }
}

/// A search that is fed what the host answers ends with the name that the
/// host's answers determine.
pub proof fn lemma_search_finds(
    candidates: Seq<Seq<char>>,
    responds: spec_fn(Seq<char>) -> bool,
    outcomes: Seq<Outcome>,
)
    requires
        faithful(candidates, responds, outcomes),
        search(candidates, outcomes) is Done,
    ensures
        search(candidates, outcomes) == ManagerPlan::Done(found(candidates, responds)),
{
    lemma_leading_failures(outcomes);
    let failed = leading_failures(outcomes) as int;
    if failed >= candidates.len() {
        assert forall|i: int| 0 <= i < candidates.len() implies !responds(
            #[trigger] candidates[i],
        ) by {
            assert(!outcomes[i].succeeded());
        }
        lemma_found_none_responding(candidates, responds);
    } else {
        assert(outcomes[failed].succeeded());
        assert forall|i: int| 0 <= i < failed implies !responds(#[trigger] candidates[i]) by {
            assert(!outcomes[i].succeeded());
        }
        lemma_found_is_first_responding(candidates, responds, failed);
    }
}

/// The package manager of the system `os` on a host where `responds` tells
/// which programs answer a version query with success.
pub open spec fn manager_of(os: Seq<char>, responds: spec_fn(Seq<char>) -> bool) -> Seq<char> {
    match strategy(os) {
        Strategy::Fixed(name) => name,
        Strategy::Probe(candidates) => found(candidates, responds),
        Strategy::Unknown => NOT_FOUND@,
    }
}

/// The result is a function of the system's identifier and of which candidates
/// respond: every search that is fed what the host answers ends with
/// `manager_of`.
pub proof fn lemma_resolution_finds(
    os: Seq<char>,
    responds: spec_fn(Seq<char>) -> bool,
    outcomes: Seq<Outcome>,
)
    requires
        strategy(os) matches Strategy::Probe(candidates) ==> faithful(
            candidates,
            responds,
            outcomes,
        ),
        resolution(os, outcomes) is Done,
    ensures
        resolution(os, outcomes) == ManagerPlan::Done(manager_of(os, responds)),
{
    match strategy(os) {
        Strategy::Probe(candidates) => {
            lemma_search_finds(candidates, responds, outcomes);
        },
        _ => {},
    }
}

} // verus!
