use stubr::cli::{Cli, FolderEntry};

fn cli(dir: Option<&str>, root_dir: Option<&str>) -> Cli {
    Cli {
        dir: dir.map(|d| d.to_string()),
        root_dir: root_dir.map(|d| d.to_string()),
        port: None,
    }
}

#[test]
fn stubs_dir_appends_dir_to_current_dir() {
    let c = cli(Some("tests/stubs/cli"), None);
    assert_eq!(c.stubs_dir("/work", false), "/work/tests/stubs/cli");
}

#[test]
fn stubs_dir_defaults_to_current_dir() {
    let c = cli(None, None);
    assert_eq!(c.stubs_dir("/work", false), "/work");
}

#[test]
fn root_dir_has_precedence_over_dir() {
    let c = cli(Some("tests/stubs"), Some("tests/stubs/cli"));
    assert_eq!(c.stubs_dir("/work", true), "/work/tests/stubs/cli/mappings");
}

#[test]
fn root_dir_without_mappings_folder_is_ignored() {
    let c = cli(Some("tests/stubs"), Some("tests/stubs/cli"));
    assert_eq!(c.stubs_dir("/work", false), "/work/tests/stubs");
}

#[test]
fn mappings_folder_is_recognised_among_entries() {
    let entries = vec![
        FolderEntry { name: "README".to_string(), is_dir: false },
        FolderEntry { name: "mappings".to_string(), is_dir: true },
    ];
    assert!(Cli::does_contains_mappings_folder(&entries));
}

#[test]
fn a_mappings_file_is_not_a_mappings_folder() {
    let entries = vec![FolderEntry { name: "mappings".to_string(), is_dir: false }];
    assert!(!Cli::does_contains_mappings_folder(&entries));
    assert!(!Cli::does_contains_mappings_folder(&vec![]));
}

#[test]
fn config_takes_only_the_port() {
    let mut c = cli(None, None);
    c.port = Some(8080);
    let cfg = c.config();
    assert_eq!(cfg.port, Some(8080));
    assert!(cfg.global_delay.is_none());
    assert!(cfg.latency.is_none());
    assert!(!cfg.verify);
}
