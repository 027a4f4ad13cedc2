use pak_command::{
    check_linux, check_mac, check_windows, package_manager, Invocation, ManagerStep, Outcome,
    NOT_FOUND, VERSION_FLAG,
};

const SYSTEMS: [&str; 11] = [
    "windows", "freebsd", "dragonfly", "solaris", "openbsd", "netbsd", "macos", "linux", "android",
    "ios", "haiku",
];

const NAMES: [&str; 14] = [
    "winget", "pkg", "pkg_add", "pkgsrc", "brew", "port", "fink", "apt", "dnf", "zypper", "pacman",
    "emerge", "nix-env", "No package manager found.",
];

/// Runs a search to its end on a host where `responds` tells which programs
/// answer. Gives the result and the programs that were run.
fn search_on(os: &str, responds: &dyn Fn(&str) -> bool) -> (&'static str, Vec<&'static str>) {
    let mut outcomes: Vec<Outcome> = Vec::new();
    let mut ran: Vec<&'static str> = Vec::new();
    loop {
        assert!(ran.len() <= 6, "the search ran more programs than there are candidates");
        match package_manager(os, &outcomes) {
            ManagerStep::Probe(query) => {
                assert_eq!(query.argument, "--version");
                ran.push(query.program);
                outcomes.push(if responds(query.program) {
                    Outcome::Exited(0)
                } else {
                    Outcome::NotStarted
                });
            }
            ManagerStep::Done(name) => return (name, ran),
        }
    }
}

#[test]
fn it_works() {
    for os in SYSTEMS {
        let (pm, _) = search_on(os, &|_| false);
        assert!(!pm.is_empty());
        let (pm, _) = search_on(os, &|_| true);
        assert!(!pm.is_empty());
    }
}

#[test]
fn result_is_a_known_name() {
    for os in SYSTEMS {
        for mask in 0u32..64 {
            let responds = |name: &str| {
                let at = NAMES.iter().position(|n| *n == name).unwrap_or(0);
                mask & (1 << (at % 6)) != 0
            };
            let (pm, _) = search_on(os, &responds);
            assert!(!pm.is_empty());
            assert!(NAMES.contains(&pm), "{} on {}", pm, os);
        }
    }
}

#[test]
fn fixed_systems_run_nothing() {
    for (os, name) in [
        ("freebsd", "pkg"),
        ("dragonfly", "pkg"),
        ("solaris", "pkg"),
        ("openbsd", "pkg_add"),
        ("netbsd", "pkgsrc"),
    ] {
        assert_eq!(package_manager(os, &[]), ManagerStep::Done(name));
        assert_eq!(search_on(os, &|_| false), (name, vec![]));
        assert_eq!(search_on(os, &|_| true), (name, vec![]));
        assert_eq!(package_manager(os, &[Outcome::Exited(0)]), ManagerStep::Done(name));
    }
}

#[test]
fn unknown_systems_have_no_package_manager() {
    for os in ["android", "ios", "haiku", "", "Linux", "linux ", "win"] {
        assert_eq!(package_manager(os, &[]), ManagerStep::Done("No package manager found."));
        assert_eq!(search_on(os, &|_| true), ("No package manager found.", vec![]));
    }
    assert_eq!(NOT_FOUND, "No package manager found.");
}

#[test]
fn windows_asks_winget_only() {
    assert_eq!(
        package_manager("windows", &[]),
        ManagerStep::Probe(Invocation { program: "winget", argument: "--version" })
    );
    assert_eq!(search_on("windows", &|_| true), ("winget", vec!["winget"]));
    assert_eq!(search_on("windows", &|_| false), ("No package manager found.", vec!["winget"]));
    assert_eq!(check_windows(&[Outcome::Exited(0)]), ManagerStep::Done("winget"));
    assert_eq!(check_windows(&[Outcome::Exited(1)]), ManagerStep::Done(NOT_FOUND));
}

#[test]
fn linux_candidates_are_tried_in_order() {
    let all = vec!["apt", "dnf", "zypper", "pacman", "emerge", "nix-env"];
    assert_eq!(search_on("linux", &|_| false), ("No package manager found.", all.clone()));
    for (at, name) in all.iter().enumerate() {
        let only = |program: &str| program == *name;
        assert_eq!(search_on("linux", &only), (*name, all[..=at].to_vec()));
    }
}

#[test]
fn mac_candidates_are_tried_in_order() {
    let all = vec!["brew", "port", "fink"];
    assert_eq!(search_on("macos", &|_| false), ("No package manager found.", all.clone()));
    for (at, name) in all.iter().enumerate() {
        let only = |program: &str| program == *name;
        assert_eq!(search_on("macos", &only), (*name, all[..=at].to_vec()));
    }
}

#[test]
fn first_of_two_responding_candidates_wins() {
    assert_eq!(search_on("linux", &|p| p == "apt" || p == "dnf"), ("apt", vec!["apt"]));
    assert_eq!(search_on("linux", &|p| p == "dnf" || p == "pacman"), ("dnf", vec!["apt", "dnf"]));
    assert_eq!(search_on("macos", &|p| p == "port" || p == "fink"), ("port", vec!["brew", "port"]));
    // Later outcomes do not change what an earlier success decided.
    let ok = Outcome::Exited(0);
    let no = Outcome::Exited(1);
    assert_eq!(check_linux(&[ok, ok]), ManagerStep::Done("apt"));
    assert_eq!(check_linux(&[no, ok, ok]), ManagerStep::Done("dnf"));
    assert_eq!(check_linux(&[no, no, no, ok, no, ok]), ManagerStep::Done("pacman"));
    assert_eq!(check_mac(&[no, ok, ok]), ManagerStep::Done("port"));
    assert_eq!(check_mac(&[ok, no, no, ok]), ManagerStep::Done("brew"));
}

#[test]
fn next_probe_follows_the_failures() {
    let no = Outcome::Exited(1);
    let version = |program| ManagerStep::Probe(Invocation { program, argument: VERSION_FLAG });
    assert_eq!(check_linux(&[]), version("apt"));
    assert_eq!(check_linux(&[no]), version("dnf"));
    assert_eq!(check_linux(&[no, no]), version("zypper"));
    assert_eq!(check_linux(&[no, no, no]), version("pacman"));
    assert_eq!(check_linux(&[no, no, no, no]), version("emerge"));
    assert_eq!(check_linux(&[no, no, no, no, no]), version("nix-env"));
    assert_eq!(check_linux(&[no; 6]), ManagerStep::Done("No package manager found."));
    assert_eq!(check_linux(&[no; 9]), ManagerStep::Done("No package manager found."));
    assert_eq!(check_mac(&[]), version("brew"));
    assert_eq!(check_mac(&[no]), version("port"));
    assert_eq!(check_mac(&[no, no]), version("fink"));
    assert_eq!(check_mac(&[no, no, no]), ManagerStep::Done("No package manager found."));
    assert_eq!(check_windows(&[]), version("winget"));
    assert_eq!(VERSION_FLAG, "--version");
}

#[test]
fn a_probe_that_did_not_start_counts_as_failed() {
    for failed in [
        Outcome::NotStarted,
        Outcome::Interrupted,
        Outcome::Exited(1),
        Outcome::Exited(-1),
        Outcome::Exited(127),
    ] {
        assert_eq!(
            check_linux(&[failed]),
            ManagerStep::Probe(Invocation { program: "dnf", argument: "--version" })
        );
        assert_eq!(check_windows(&[failed]), ManagerStep::Done("No package manager found."));
        assert_eq!(check_linux(&[failed, Outcome::Exited(0)]), ManagerStep::Done("dnf"));
    }
}

#[test]
fn a_success_past_the_list_is_not_a_candidate() {
    let no = Outcome::Exited(1);
    let ok = Outcome::Exited(0);
    assert_eq!(check_windows(&[no, ok]), ManagerStep::Done("No package manager found."));
    assert_eq!(check_mac(&[no, no, no, ok]), ManagerStep::Done("No package manager found."));
    assert_eq!(
        check_linux(&[no, no, no, no, no, no, ok]),
        ManagerStep::Done("No package manager found.")
    );
}

#[test]
fn same_observations_give_the_same_step() {
    let seen = [Outcome::Exited(1), Outcome::NotStarted];
    assert_eq!(package_manager("linux", &seen), package_manager("linux", &seen));
    assert_eq!(search_on("linux", &|p| p == "zypper"), search_on("linux", &|p| p == "zypper"));
    // A host that changes between two searches gives two results.
    assert_ne!(search_on("linux", &|p| p == "zypper").0, search_on("linux", &|p| p == "apt").0);
}
