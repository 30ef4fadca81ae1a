use asimov_cli::path_ext::{path_exts, resolution_candidates, set_extension};
use asimov_cli::probe::{extension, filter_file};
use asimov_cli::{EntryInfo, FileMeta, Probe, SubcommandsProvider};
use std::path::PathBuf;

fn win_entry(name: &str, attributes: u32) -> EntryInfo {
    EntryInfo {
        path: PathBuf::from("C:/bin").join(name),
        file_name: Some(name.to_string()),
        metadata: Some(FileMeta { is_file: true, mode: 0, attributes }),
    }
}

fn strings(v: &[&str]) -> Vec<String> {
    v.iter().map(|s| s.to_string()).collect()
}

#[test]
fn pathext_is_split_and_lowered() {
    assert_eq!(path_exts(".COM;.EXE;.BAT;.CMD"), strings(&["com", "exe", "bat", "cmd"]));
    assert_eq!(path_exts(".Exe"), strings(&["exe"]));
    assert_eq!(path_exts(""), strings(&[""]));
    assert_eq!(path_exts(".EXE;"), strings(&["exe", ""]));
}

#[test]
fn extensions_of_names() {
    assert_eq!(extension("asimov-hello.BAT").as_deref(), Some("BAT"));
    assert_eq!(extension("asimov-hello"), None);
    assert_eq!(extension(".profile"), None);
    assert_eq!(extension("a.b.c").as_deref(), Some("c"));
}

#[test]
fn windows_probe_checks_extension_case_insensitively() {
    let probe = Probe::Windows(Some(strings(&["bat", "cmd", "exe"])));
    assert!(filter_file(&probe, "asimov-", &win_entry("asimov-hello.BAT", 0)));
    assert!(filter_file(&probe, "asimov-", &win_entry("asimov-hola.cmd", 0)));
    assert!(!filter_file(&probe, "asimov-", &win_entry("asimov-notes.txt", 0)));
    assert!(!filter_file(&probe, "asimov-", &win_entry("asimov-noext", 0)));
    assert!(!filter_file(&probe, "asimov-", &win_entry("other-test.bat", 0)));
}

#[test]
fn windows_probe_skips_hidden_files() {
    let probe = Probe::Windows(Some(strings(&["bat"])));
    assert!(!filter_file(&probe, "asimov-", &win_entry("asimov-hello.bat", 2)));
    assert!(!filter_file(&Probe::Windows(None), "asimov-", &win_entry("asimov-hello", 2)));
    assert!(filter_file(&Probe::Windows(None), "asimov-", &win_entry("asimov-hello", 0)));
}

#[test]
fn windows_listing_strips_extension() {
    let probe = Probe::Windows(Some(strings(&["bat", "cmd"])));
    let dirs = vec![vec![win_entry("asimov-hello.bat", 0), win_entry("asimov-hola.cmd", 0)]];
    let all = SubcommandsProvider::collect(&probe, "asimov-", 1, &dirs);
    let names: Vec<String> = all.iter().map(|c| c.name.clone()).collect();
    assert_eq!(names, strings(&["hello", "hola"]));
}

#[test]
fn set_extension_replaces_or_removes() {
    assert_eq!(set_extension("asimov-hello", "exe"), "asimov-hello.exe");
    assert_eq!(set_extension("asimov-hello.v1", "exe"), "asimov-hello.exe");
    assert_eq!(set_extension("asimov-hello.v1", ""), "asimov-hello");
}

#[test]
fn resolution_tries_name_then_each_extension() {
    let exts = strings(&["exe", "bat"]);
    assert_eq!(
        resolution_candidates("asimov-hello", &exts),
        strings(&["asimov-hello.exe", "asimov-hello.bat"])
    );
    assert_eq!(
        resolution_candidates("asimov-hello.cmd", &exts),
        strings(&["asimov-hello.cmd"])
    );
    assert_eq!(resolution_candidates("asimov-hello", &vec![]), Vec::<String>::new());
}

#[test]
fn listed_extensions_match_exactly() {
    let exts = strings(&["bat", "cmd"]);
    assert!(asimov_cli::probe::extension_listed(&exts, &"cmd".to_string()));
    assert!(!asimov_cli::probe::extension_listed(&exts, &"CMD".to_string()));
    assert!(!asimov_cli::probe::extension_listed(&vec![], &"bat".to_string()));
}
