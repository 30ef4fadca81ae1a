use asimov_cli::status::EX_OK;
use asimov_cli::{
    locate_subcommand, ChildOutput, EntryInfo, FileMeta, HelpCmd, PortableStatus, Probe,
    Termination,
};
use std::path::PathBuf;

pub type Result<T> = std::result::Result<T, Box<dyn std::error::Error>>;

pub struct TestFile {
    pub name: &'static str,
    pub content: &'static str,
    pub help: &'static str,
}

pub const TEST_PREFIX: &str = "asimov-";

pub const TEST_FILES: &[TestFile] = &[
    TestFile {
        name: "asimov-hello",
        content: "Hello, world!",
        help: "Prints 'Hello, world!'",
    },
    TestFile {
        name: "asimov-two-levels",
        content: "Should be filtered out!",
        help: "This file is not listed",
    },
    TestFile {
        name: "abcdefg-test",
        content: "Shouldn't appear!",
        help: "This file is not listed too",
    },
];

/// The directory that holds the test files, each an executable script.
fn test_dir() -> PathBuf {
    PathBuf::from("/tmp/asimov-cli-test")
}

/// What the search path holds at `prefix` + `name`: the test file of that
/// name, if there is one.
fn candidates(prefix: &str, name: &str) -> Vec<Option<EntryInfo>> {
    let file_name = format!("{}{}", prefix, name);
    let found = TEST_FILES.iter().find(|file| file.name == file_name).map(|file| EntryInfo {
        path: test_dir().join(file.name),
        file_name: Some(file.name.to_string()),
        metadata: Some(FileMeta { is_file: true, mode: 0o755, attributes: 0 }),
    });
    vec![found]
}

/// What the script of `file` prints, given `--help` or not.
fn script_output(file: &TestFile, help: bool) -> ChildOutput {
    let text = if help { file.help } else { file.content };
    ChildOutput {
        status: Termination::Exited(0),
        stdout: format!("{}\n", text).into_bytes(),
        stderr: vec![],
    }
}

#[test]
pub fn test_execute_help_cmd() -> Result<()> {
    for file in TEST_FILES.iter() {
        println!("{}: ", file.name);

        let external_cmd = HelpCmd { is_debug: false };

        let cd_name = file.name.trim_start_matches(TEST_PREFIX);
        let located = locate_subcommand(
            &Probe::Posix,
            TEST_PREFIX,
            cd_name,
            &vec![],
            &candidates(TEST_PREFIX, cd_name),
        );
        assert_eq!(located.is_ok(), file.name.starts_with(TEST_PREFIX));
        let result = located.and_then(|_| external_cmd.finish(Some(script_output(file, true))));

        if let Ok(result) = result {
            assert_eq!(result.code, PortableStatus::Exit(EX_OK));

            assert_eq!(
                std::str::from_utf8(&result.output).unwrap().trim(),
                file.help
            );
        }
    }

    Ok(())
}
