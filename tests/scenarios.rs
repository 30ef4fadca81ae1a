use asimov_cli::status::{EX_OK, EX_SOFTWARE, EX_UNAVAILABLE};
use asimov_cli::{
    locate_subcommand, ChildOutput, EntryInfo, External, ExternalCommands, FileMeta, Help,
    PollAction, Probe, PortableStatus, SubcommandsProvider, Termination,
};
use std::collections::BTreeSet;
use std::path::PathBuf;

fn entry(dir: &str, name: &str, mode: u32) -> EntryInfo {
    EntryInfo {
        path: PathBuf::from(dir).join(name),
        file_name: Some(name.to_string()),
        metadata: Some(FileMeta { is_file: true, mode, attributes: 0 }),
    }
}

fn test_dir(dir: &str) -> Vec<EntryInfo> {
    vec![
        entry(dir, "prefix-hello", 0o755),
        entry(dir, "prefix-two-levels-deep", 0o755),
        entry(dir, "other-test", 0o755),
    ]
}

fn names(p: &SubcommandsProvider) -> Vec<String> {
    p.iter().map(|c| c.name.clone()).collect()
}

#[test]
fn scenario_a_hello_is_found_and_run() {
    let cands = vec![Some(entry("/d", "prefix-hello", 0o755))];
    let found = SubcommandsProvider::find(&Probe::Posix, "prefix-", "hello", &cands).unwrap();
    assert_eq!(found.name, "hello");
    assert_eq!(found.path, PathBuf::from("/d/prefix-hello"));

    let ext = External { is_debug: false, pipe_output: true };
    let run = ChildOutput {
        status: Termination::Exited(0),
        stdout: b"Hello, world!\n".to_vec(),
        stderr: vec![],
    };
    let r = ext.finish(Some(run)).unwrap();
    assert_eq!(r.code, PortableStatus::Exit(EX_OK));
    assert!(r.code.is_success());
    let out = String::from_utf8(r.stdout.unwrap()).unwrap();
    assert!(out.contains("Hello, world!"));
    assert_eq!(r.stderr, Some(vec![]));
}

#[test]
fn scenario_b_level_filters_nested_names() {
    let dirs = vec![test_dir("/d")];
    let one = SubcommandsProvider::collect(&Probe::Posix, "prefix-", 1, &dirs);
    assert_eq!(names(&one), vec!["hello".to_string()]);
    let three = SubcommandsProvider::collect(&Probe::Posix, "prefix-", 3, &dirs);
    assert_eq!(names(&three), vec!["hello".to_string(), "two-levels-deep".to_string()]);
    let two = SubcommandsProvider::collect(&Probe::Posix, "prefix-", 2, &dirs);
    assert_eq!(names(&two), vec!["hello".to_string()]);
    let zero = SubcommandsProvider::collect(&Probe::Posix, "prefix-", 0, &dirs);
    assert_eq!(names(&zero), Vec::<String>::new());
}

#[test]
fn scenario_c_other_prefix_never_appears() {
    let dirs = vec![test_dir("/d")];
    for level in 0..5 {
        let all = SubcommandsProvider::collect(&Probe::Posix, "prefix-", level, &dirs);
        assert!(all.iter().all(|c| c.path != PathBuf::from("/d/other-test")));
    }
    let cands = vec![Some(entry("/d", "other-test", 0o755))];
    assert!(SubcommandsProvider::find(&Probe::Posix, "prefix-", "test", &cands).is_none());
    assert!(SubcommandsProvider::find(&Probe::Posix, "other-", "test", &cands).is_some());
}

#[test]
fn scenario_d_slow_child_is_killed_and_left_out() {
    let deadline: u64 = 1_000_000_000;
    assert_eq!(Help::poll_action(Some(true), 10, deadline), PollAction::Wait);
    assert_eq!(Help::poll_action(Some(true), deadline, deadline), PollAction::Wait);
    assert_eq!(Help::poll_action(Some(true), deadline + 1, deadline), PollAction::Kill);
    assert_eq!(Help::poll_action(Some(false), deadline + 1, deadline), PollAction::Collect);
    assert_eq!(Help::poll_action(None, 0, deadline), PollAction::Abandon);
}

#[test]
fn first_directory_wins_on_resolution() {
    let cands = vec![
        None,
        Some(entry("/second", "prefix-hello", 0o644)),
        Some(entry("/third", "prefix-hello", 0o755)),
        Some(entry("/fourth", "prefix-hello", 0o755)),
    ];
    let found = SubcommandsProvider::find(&Probe::Posix, "prefix-", "hello", &cands).unwrap();
    assert_eq!(found.path, PathBuf::from("/third/prefix-hello"));
    assert!(SubcommandsProvider::find(&Probe::Posix, "prefix-", "hello", &vec![None, None]).is_none());
    assert!(SubcommandsProvider::find(&Probe::Posix, "prefix-", "hello", &vec![]).is_none());
}

#[test]
fn duplicates_across_directories_are_kept() {
    let dirs = vec![vec![entry("/a", "prefix-x", 0o755)], vec![entry("/b", "prefix-x", 0o755)]];
    let all = SubcommandsProvider::collect(&Probe::Posix, "prefix-", 1, &dirs);
    let paths: Vec<PathBuf> = all.iter().map(|c| c.path.clone()).collect();
    assert_eq!(paths, vec![PathBuf::from("/a/prefix-x"), PathBuf::from("/b/prefix-x")]);
}

#[test]
fn enumeration_ignores_listing_order() {
    let mut reversed = test_dir("/d");
    reversed.reverse();
    reversed.push(entry("/d", "prefix-again", 0o711));
    let mut forward = test_dir("/d");
    forward.insert(0, entry("/d", "prefix-again", 0o711));
    let a = SubcommandsProvider::collect(&Probe::Posix, "prefix-", 4, &vec![forward]);
    let b = SubcommandsProvider::collect(&Probe::Posix, "prefix-", 4, &vec![reversed]);
    let sa: BTreeSet<(String, PathBuf)> = a.iter().map(|c| (c.name.clone(), c.path.clone())).collect();
    let sb: BTreeSet<(String, PathBuf)> = b.iter().map(|c| (c.name.clone(), c.path.clone())).collect();
    assert_eq!(sa, sb);
    assert_eq!(sa.len(), 3);
}

#[test]
fn empty_search_path_lists_nothing() {
    let none = SubcommandsProvider::collect(&Probe::Posix, "prefix-", 9, &vec![]);
    assert_eq!(none.iter().count(), 0);
    let empty_dirs = SubcommandsProvider::collect(&Probe::Posix, "prefix-", 9, &vec![vec![], vec![]]);
    assert_eq!(empty_dirs.iter().count(), 0);
}

#[test]
fn external_commands_find_by_name() {
    let dirs = vec![vec![entry("/a", "prefix-x", 0o755)], vec![entry("/b", "prefix-x", 0o755)]];
    let cmds = ExternalCommands::collect(&Probe::Posix, "prefix-", 1, &dirs);
    assert_eq!(cmds.iter().count(), 2);
    let x = cmds.find("x").unwrap();
    assert_eq!(x.path, PathBuf::from("/a/prefix-x"));
    assert!(cmds.find("y").is_none());
    assert!(cmds.find("prefix-x").is_none());
}

#[test]
fn locate_prefers_private_directory() {
    let libexec = vec![entry("/libexec", "prefix-hello", 0o644)];
    let cands = vec![Some(entry("/bin", "prefix-hello", 0o755))];
    let c = locate_subcommand(&Probe::Posix, "prefix-", "hello", &libexec, &cands).unwrap();
    assert_eq!(c.name, "hello");
    assert_eq!(c.path, PathBuf::from("/libexec/prefix-hello"));
}

#[test]
fn locate_falls_back_to_search_path() {
    let libexec = vec![entry("/libexec", "prefix-other", 0o755)];
    let cands = vec![None, Some(entry("/bin", "prefix-hello", 0o755))];
    let c = locate_subcommand(&Probe::Posix, "prefix-", "hello", &libexec, &cands).unwrap();
    assert_eq!(c.path, PathBuf::from("/bin/prefix-hello"));
}

#[test]
fn locate_reports_unavailable() {
    let r = locate_subcommand(&Probe::Posix, "prefix-", "hello", &vec![], &vec![None]);
    assert_eq!(r.unwrap_err(), PortableStatus::Exit(EX_UNAVAILABLE));
}

#[test]
fn passthrough_run_carries_no_output() {
    let ext = External { is_debug: false, pipe_output: false };
    let run = ChildOutput { status: Termination::Exited(0), stdout: vec![], stderr: vec![] };
    let r = ext.finish(Some(run)).unwrap();
    assert!(r.stdout.is_none());
    assert!(r.stderr.is_none());
}

#[test]
fn spawn_failure_is_software_error() {
    let ext = External { is_debug: false, pipe_output: true };
    assert_eq!(ext.finish(None).unwrap_err(), PortableStatus::Exit(EX_SOFTWARE));
}
