use file_sweep::collect::collect_directories;
use file_sweep::config::{checking_line, directory_line, Config};
use file_sweep::model::{Entry, EntryKind, Failure, FailureKind, Listing, Move};
use file_sweep::plan::{checked_path, decide_entry, plan_directory, Plan};
use file_sweep::run::{plan_run, Scan, Step};

fn file(name: &str) -> Entry {
    Entry { name: Some(name.to_string()), kind: EntryKind::File }
}

fn dir(name: &str) -> Entry {
    Entry { name: Some(name.to_string()), kind: EntryKind::Directory }
}

fn other(name: &str) -> Entry {
    Entry { name: Some(name.to_string()), kind: EntryKind::Other }
}

fn unnamed(kind: EntryKind) -> Entry {
    Entry { name: None, kind }
}

fn mv(source: &str, destination: &str, into: &str) -> Move {
    Move { source: source.to_string(), destination: destination.to_string(), into: into.to_string() }
}

fn paths(texts: &[&str]) -> Vec<String> {
    texts.iter().map(|t| t.to_string()).collect()
}

fn failure(kind: FailureKind, path: &str) -> Failure {
    Failure { kind, path: path.to_string() }
}

#[test]
fn collect_gives_the_root_then_its_subdirectories_in_listing_order() {
    let listing = Listing::Entries(vec![file("a.txt"), dir("zeta"), other("pipe"), dir("alpha"), file("b.log")]);
    assert_eq!(
        collect_directories("root", &listing),
        Ok(vec!["root".to_string(), "root/zeta".to_string(), "root/alpha".to_string()])
    );
}

#[test]
fn collect_of_a_directory_without_subdirectories_is_the_root_alone() {
    assert_eq!(collect_directories(".", &Listing::Entries(Vec::new())), Ok(vec![".".to_string()]));
    assert_eq!(
        collect_directories("r", &Listing::Entries(vec![file("x"), file("y")])),
        Ok(vec!["r".to_string()])
    );
}

#[test]
fn collect_fails_on_an_unreadable_root() {
    assert_eq!(
        collect_directories("missing", &Listing::Unreadable),
        Err(failure(FailureKind::DirectoryUnreadable, "missing"))
    );
}

#[test]
fn collect_fails_on_a_subdirectory_whose_name_is_no_text() {
    let listing = Listing::Entries(vec![dir("sub"), unnamed(EntryKind::Directory)]);
    assert_eq!(
        collect_directories("root", &listing),
        Err(failure(FailureKind::FileNameInvalid, "root"))
    );
}

#[test]
fn collect_passes_over_a_file_whose_name_is_no_text() {
    let listing = Listing::Entries(vec![unnamed(EntryKind::File), dir("sub"), unnamed(EntryKind::Other)]);
    assert_eq!(
        collect_directories("root", &listing),
        Ok(vec!["root".to_string(), "root/sub".to_string()])
    );
}

#[test]
fn decide_moves_a_file_whose_name_contains_the_pattern() {
    assert_eq!(
        decide_entry("root/sub", &file("a.txt"), "a", "out"),
        Ok(Some(mv("root/sub/a.txt", "out/a.txt", "out")))
    );
}

#[test]
fn decide_leaves_a_file_whose_name_lacks_the_pattern() {
    assert_eq!(decide_entry("root", &file("b.log"), "a", "out"), Ok(None));
}

#[test]
fn decide_matches_on_the_base_name_and_not_on_the_path() {
    assert_eq!(decide_entry("archive", &file("b.log"), "a", "out"), Ok(None));
    assert_eq!(decide_entry("root", &file("b.log"), "root", "out"), Ok(None));
}

#[test]
fn decide_leaves_directories_and_other_entries() {
    assert_eq!(decide_entry("root", &dir("a"), "a", "out"), Ok(None));
    assert_eq!(decide_entry("root", &other("a"), "a", "out"), Ok(None));
    assert_eq!(decide_entry("root", &unnamed(EntryKind::Directory), "a", "out"), Ok(None));
    assert_eq!(decide_entry("root", &unnamed(EntryKind::Other), "", "out"), Ok(None));
}

#[test]
fn decide_fails_on_a_file_whose_name_is_no_text() {
    assert_eq!(
        decide_entry("root", &unnamed(EntryKind::File), "", "out"),
        Err(failure(FailureKind::FileNameInvalid, "root"))
    );
}

#[test]
fn decide_with_the_empty_target_moves_into_the_working_directory() {
    assert_eq!(
        decide_entry("root", &file("a.txt"), "a", ""),
        Ok(Some(mv("root/a.txt", "a.txt", "")))
    );
}

#[test]
fn plan_moves_the_matching_files_in_listing_order() {
    let listing = Listing::Entries(vec![file("a.txt"), file("b.log"), dir("sub"), file("data.csv")]);
    let plan = plan_directory("root", &listing, "a", "out/");
    assert_eq!(
        plan,
        Plan {
            checked: paths(&["root/a.txt", "root/b.log", "root/data.csv"]),
            moves: vec![mv("root/a.txt", "out/a.txt", "out/"), mv("root/data.csv", "out/data.csv", "out/")],
            failure: None,
        }
    );
}

#[test]
fn plan_with_the_empty_pattern_moves_every_file() {
    let listing = Listing::Entries(vec![file("x"), file("y"), file("z")]);
    let plan = plan_directory("d", &listing, "", "t");
    assert_eq!(
        plan,
        Plan {
            checked: paths(&["d/x", "d/y", "d/z"]),
            moves: vec![mv("d/x", "t/x", "t"), mv("d/y", "t/y", "t"), mv("d/z", "t/z", "t")],
            failure: None,
        }
    );
}

#[test]
fn plan_of_an_unreadable_directory_moves_nothing_and_reports_it() {
    let plan = plan_directory("locked", &Listing::Unreadable, "", "out");
    assert_eq!(
        plan,
        Plan {
            checked: Vec::new(),
            moves: Vec::new(),
            failure: Some(failure(FailureKind::DirectoryUnreadable, "locked")),
        }
    );
}

#[test]
fn plan_stops_at_the_first_file_whose_name_is_no_text() {
    let listing = Listing::Entries(vec![file("a1"), unnamed(EntryKind::File), file("a2")]);
    let plan = plan_directory("d", &listing, "a", "t");
    assert_eq!(
        plan,
        Plan {
            checked: paths(&["d/a1"]),
            moves: vec![mv("d/a1", "t/a1", "t")],
            failure: Some(failure(FailureKind::FileNameInvalid, "d")),
        }
    );
}

#[test]
fn plan_of_an_empty_directory_is_empty() {
    let plan = plan_directory("d", &Listing::Entries(Vec::new()), "", "t");
    assert_eq!(plan, Plan { checked: Vec::new(), moves: Vec::new(), failure: None });
}

#[test]
fn plan_flattens_every_source_directory_into_the_target() {
    let listing = Listing::Entries(vec![file("deep.txt")]);
    let plan = plan_directory("root/one", &listing, "deep", "out");
    assert_eq!(plan.moves.len(), 1);
    assert_eq!(plan.moves[0].destination, "out/deep.txt");
    assert_eq!(plan.moves[0].into, "out");
}

#[test]
fn second_scan_after_the_moves_finds_nothing_to_move() {
    let first = vec![file("a.txt"), file("b.log"), dir("sub"), file("data.csv")];
    let plan = plan_directory("root", &Listing::Entries(first.clone()), "a", "out");
    assert_eq!(plan.moves.len(), 2);
    let moved: Vec<String> = plan.moves.iter().map(|m| m.source.clone()).collect();
    let left: Vec<Entry> = first
        .into_iter()
        .filter(|e| match &e.name {
            Some(n) => !moved.contains(&format!("root/{}", n)),
            None => true,
        })
        .collect();
    assert_eq!(left, vec![file("b.log"), dir("sub")]);
    let again = plan_directory("root", &Listing::Entries(left), "a", "out");
    assert_eq!(again, Plan { checked: paths(&["root/b.log"]), moves: Vec::new(), failure: None });
}

#[test]
fn run_over_a_small_tree_moves_both_files_named_alike_and_leaves_the_rest() {
    let root = Listing::Entries(vec![file("a.txt"), file("b.log"), dir("sub")]);
    let dirs = collect_directories("root", &root).unwrap();
    assert_eq!(dirs, vec!["root".to_string(), "root/sub".to_string()]);
    let scans = vec![
        Scan { directory: dirs[0].clone(), listing: root },
        Scan { directory: dirs[1].clone(), listing: Listing::Entries(vec![file("a.txt")]) },
    ];
    let plan = plan_run(&scans, "a", "out/");
    assert_eq!(
        plan,
        Plan {
            checked: paths(&["root/a.txt", "root/b.log", "root/sub/a.txt"]),
            moves: vec![mv("root/a.txt", "out/a.txt", "out/"), mv("root/sub/a.txt", "out/a.txt", "out/")],
            failure: None,
        }
    );
    assert!(plan.moves.iter().all(|m| m.source != "root/b.log"));
}

#[test]
fn run_never_reaches_below_the_subdirectories_of_the_root() {
    let root = Listing::Entries(vec![dir("sub")]);
    let dirs = collect_directories("root", &root).unwrap();
    assert_eq!(dirs, vec!["root".to_string(), "root/sub".to_string()]);
    let scans = vec![
        Scan { directory: dirs[0].clone(), listing: root },
        Scan { directory: dirs[1].clone(), listing: Listing::Entries(vec![dir("deeper"), file("near.txt")]) },
    ];
    let plan = plan_run(&scans, "", "out");
    assert_eq!(
        plan,
        Plan {
            checked: paths(&["root/sub/near.txt"]),
            moves: vec![mv("root/sub/near.txt", "out/near.txt", "out")],
            failure: None,
        }
    );
}

#[test]
fn run_ends_with_the_first_failure_after_the_moves_before_it() {
    let scans = vec![
        Scan { directory: "r".to_string(), listing: Listing::Entries(vec![file("a1"), dir("s"), dir("t")]) },
        Scan { directory: "r/s".to_string(), listing: Listing::Unreadable },
        Scan { directory: "r/t".to_string(), listing: Listing::Entries(vec![file("a2")]) },
    ];
    let plan = plan_run(&scans, "a", "out");
    assert_eq!(
        plan,
        Plan {
            checked: paths(&["r/a1"]),
            moves: vec![mv("r/a1", "out/a1", "out")],
            failure: Some(failure(FailureKind::DirectoryUnreadable, "r/s")),
        }
    );
}

#[test]
fn run_keeps_the_moves_of_a_directory_that_fails_on_a_later_entry() {
    let scans = vec![
        Scan { directory: "r".to_string(), listing: Listing::Entries(vec![file("a1"), unnamed(EntryKind::File)]) },
        Scan { directory: "r/t".to_string(), listing: Listing::Entries(vec![file("a2")]) },
    ];
    let plan = plan_run(&scans, "a", "out");
    assert_eq!(
        plan,
        Plan {
            checked: paths(&["r/a1"]),
            moves: vec![mv("r/a1", "out/a1", "out")],
            failure: Some(failure(FailureKind::FileNameInvalid, "r")),
        }
    );
}

#[test]
fn run_over_no_directory_is_empty() {
    assert_eq!(
        plan_run(&Vec::new(), "a", "out"),
        Plan { checked: Vec::new(), moves: Vec::new(), failure: None }
    );
}

#[test]
fn steps_rename_at_once_where_the_target_exists() {
    let m = mv("root/a.txt", "out/a.txt", "out");
    assert_eq!(m.steps(true), vec![Step::Rename("root/a.txt".to_string(), "out/a.txt".to_string())]);
}

#[test]
fn steps_make_a_missing_target_before_the_rename() {
    let m = mv("root/a.txt", "out/deep/a.txt", "out/deep");
    assert_eq!(
        m.steps(false),
        vec![
            Step::CreateDirectories("out/deep".to_string()),
            Step::Rename("root/a.txt".to_string(), "out/deep/a.txt".to_string()),
        ]
    );
}

#[test]
fn a_failed_step_reports_its_kind_and_path() {
    assert_eq!(
        Step::CreateDirectories("out".to_string()).failure(),
        failure(FailureKind::DirectoryCreateFailed, "out")
    );
    assert_eq!(
        Step::Rename("root/a.txt".to_string(), "out/a.txt".to_string()).failure(),
        failure(FailureKind::MoveFailed, "root/a.txt")
    );
}

#[test]
fn failure_messages_name_the_operation_and_the_path() {
    assert_eq!(failure(FailureKind::DirectoryUnreadable, "root").message(), "cannot list directory: root");
    assert_eq!(
        failure(FailureKind::FileNameInvalid, "root").message(),
        "cannot read an entry's name as text in: root"
    );
    assert_eq!(failure(FailureKind::MoveFailed, "root/a").message(), "cannot move file: root/a");
    assert_eq!(failure(FailureKind::DirectoryCreateFailed, "out").message(), "cannot create directory: out");
    assert_eq!(failure(FailureKind::MoveFailed, "x").operation(), "cannot move file");
}

#[test]
fn default_config_selects_everything_below_the_working_directory() {
    let c = Config::default();
    assert_eq!(c.pattern, "");
    assert_eq!(c.source_path, ".");
    assert_eq!(c.target_path, "");
}

#[test]
fn config_lines_echo_the_three_settings() {
    let c = Config { pattern: "a".to_string(), source_path: "root".to_string(), target_path: "out".to_string() };
    assert_eq!(
        c.lines(),
        vec!["Pattern: a".to_string(), "Source Path: root".to_string(), "Target Path: out".to_string()]
    );
}

#[test]
fn console_lines_name_what_is_looked_at_and_moved() {
    assert_eq!(directory_line("root/sub"), "Path: root/sub");
    assert_eq!(checking_line("root/a.txt"), "Checking file: root/a.txt");
    assert_eq!(mv("root/a.txt", "out/a.txt", "out").moving_line(), "Moving file: root/a.txt to out");
}

#[test]
fn only_regular_files_with_readable_names_are_looked_at() {
    assert_eq!(checked_path("root", &file("b.log")), Some("root/b.log".to_string()));
    assert_eq!(checked_path("root", &dir("sub")), None);
    assert_eq!(checked_path("root", &other("pipe")), None);
    assert_eq!(checked_path("root", &unnamed(EntryKind::File)), None);
}

#[test]
fn second_run_over_the_same_directories_moves_nothing() {
    let first = vec![
        Scan { directory: "root".to_string(), listing: Listing::Entries(vec![file("a.txt"), file("b.log"), dir("sub")]) },
        Scan { directory: "root/sub".to_string(), listing: Listing::Entries(vec![file("a.txt"), file("c")]) },
    ];
    let plan = plan_run(&first, "a", "out");
    assert_eq!(plan.failure, None);
    assert_eq!(plan.moves.len(), 2);
    let second = vec![
        Scan { directory: "root".to_string(), listing: Listing::Entries(vec![file("b.log"), dir("sub")]) },
        Scan { directory: "root/sub".to_string(), listing: Listing::Entries(vec![file("c")]) },
    ];
    let again = plan_run(&second, "a", "out");
    assert_eq!(
        again,
        Plan { checked: paths(&["root/b.log", "root/sub/c"]), moves: Vec::new(), failure: None }
    );
}

#[test]
fn steps_into_the_empty_target_make_the_empty_path_first() {
    let m = mv("root/a.txt", "a.txt", "");
    assert_eq!(
        m.steps(false),
        vec![
            Step::CreateDirectories(String::new()),
            Step::Rename("root/a.txt".to_string(), "a.txt".to_string()),
        ]
    );
}
