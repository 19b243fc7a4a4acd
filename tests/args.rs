use tmbliss::args::ArgsError;
use tmbliss::{Args, Command};

#[test]
fn it_parses_paths() {
    let args = Args::parse_from(&["tmbliss", "run", "--path", "./1", "--path", "./2"]).unwrap();
    assert_eq!(
        args.command,
        Command::Run {
            path: [String::from("./1"), String::from("./2")].to_vec(),
            dry_run: false,
            allowlist_glob: vec![],
            allowlist_path: vec![],
            skip_glob: vec![],
            skip_path: vec![],
            skip_errors: false,
            exclude_path: vec![],
        }
    );
}

#[test]
fn it_parses_excludes() {
    let args = Args::parse_from(&[
        "tmbliss",
        "run",
        "--path",
        "./",
        "--dry-run",
        "--allowlist-glob",
        ".env",
        "--allowlist-glob",
        ".env.*",
    ])
    .unwrap();
    assert_eq!(
        args.command,
        Command::Run {
            path: [String::from("./")].to_vec(),
            dry_run: true,
            allowlist_glob: vec![String::from(".env"), String::from(".env.*")],
            allowlist_path: vec![],
            skip_glob: vec![],
            skip_path: vec![],
            skip_errors: false,
            exclude_path: vec![],
        }
    );
}

#[test]
fn it_parses_allowlist_paths() {
    let args = Args::parse_from(&[
        "tmbliss",
        "run",
        "--path",
        "./",
        "--dry-run",
        "--allowlist-path",
        "./1",
        "--allowlist-path",
        "./2",
    ])
    .unwrap();
    assert_eq!(
        args.command,
        Command::Run {
            path: [String::from("./")].to_vec(),
            dry_run: true,
            allowlist_glob: vec![],
            allowlist_path: vec![String::from("./1"), String::from("./2")],
            skip_glob: vec![],
            skip_path: vec![],
            skip_errors: false,
            exclude_path: vec![],
        }
    );
}

#[test]
fn it_overrides_dry_run_in_conf_mode() {
    let args = Args::parse_from(&["tmbliss", "conf", "--path", "./conf.json"]).unwrap();
    assert_eq!(
        args.command,
        Command::Conf {
            path: "./conf.json".to_string(),
            dry_run: None
        }
    );
    {
        let args = Args::parse_from(&[
            "tmbliss",
            "conf",
            "--path",
            "./conf.json",
            "--dry-run",
            "true",
        ])
        .unwrap();
        assert_eq!(
            args.command,
            Command::Conf {
                path: "./conf.json".to_string(),
                dry_run: Some(true)
            }
        );
    }
}

#[test]
fn parses_skip_rules_and_explicit_paths() {
    let args = Args::parse_from(&[
        "tmbliss",
        "run",
        "--path",
        "/r",
        "--skip-glob",
        "**/node_modules",
        "--skip-path",
        "/r/vendor",
        "--skip-errors",
        "--exclude-path",
        "/r/big.iso",
    ])
    .unwrap();
    assert_eq!(
        args.command,
        Command::Run {
            path: vec!["/r".to_string()],
            dry_run: false,
            allowlist_glob: vec![],
            allowlist_path: vec![],
            skip_glob: vec!["**/node_modules".to_string()],
            skip_path: vec!["/r/vendor".to_string()],
            skip_errors: true,
            exclude_path: vec!["/r/big.iso".to_string()],
        }
    );
}

#[test]
fn parses_reset_show_excluded_list_and_service() {
    let reset = Args::parse_from(&["tmbliss", "reset", "--path", "/r", "--dry-run", "--allowlist-glob", "*.txt"]);
    assert_eq!(
        reset.unwrap().command,
        Command::Reset {
            path: "/r".to_string(),
            dry_run: true,
            allowlist_glob: vec!["*.txt".to_string()],
            allowlist_path: vec![],
        }
    );
    let show = Args::parse_from(&["tmbliss", "show-excluded", "--path", "/r", "--allowlist-path", "/r/a"]);
    assert_eq!(
        show.unwrap().command,
        Command::ShowExcluded {
            path: "/r".to_string(),
            allowlist_glob: vec![],
            allowlist_path: vec!["/r/a".to_string()],
        }
    );
    let list = Args::parse_from(&["tmbliss", "list", "--path", "/r"]);
    assert_eq!(
        list.unwrap().command,
        Command::List {
            path: vec!["/r".to_string()],
            allowlist_glob: vec![],
            allowlist_path: vec![],
            skip_glob: vec![],
            skip_path: vec![],
            skip_errors: false,
            exclude_path: vec![],
        }
    );
    let service = Args::parse_from(&["tmbliss", "service", "--path", "c.json", "--dry-run", "false"]);
    assert_eq!(
        service.unwrap().command,
        Command::Service { path: "c.json".to_string(), dry_run: Some(false) }
    );
    let help = Args::parse_from(&["tmbliss", "markdown-help"]);
    assert_eq!(help.unwrap().command, Command::MarkdownHelp);
}

#[test]
fn refuses_bad_command_lines() {
    assert_eq!(Args::parse_from(&["tmbliss"]), Err(ArgsError::MissingCommand));
    assert_eq!(
        Args::parse_from(&["tmbliss", "jump"]),
        Err(ArgsError::UnknownCommand("jump".to_string()))
    );
    assert_eq!(
        Args::parse_from(&["tmbliss", "list", "--dry-run"]),
        Err(ArgsError::UnknownOption("--dry-run".to_string()))
    );
    assert_eq!(
        Args::parse_from(&["tmbliss", "run", "stray"]),
        Err(ArgsError::UnknownOption("stray".to_string()))
    );
    assert_eq!(
        Args::parse_from(&["tmbliss", "run", "--path"]),
        Err(ArgsError::MissingValue("--path".to_string()))
    );
    assert_eq!(
        Args::parse_from(&["tmbliss", "conf", "--path", "c", "--dry-run", "yes"]),
        Err(ArgsError::InvalidBool("yes".to_string()))
    );
    assert_eq!(
        Args::parse_from(&["tmbliss", "reset", "--path", "a", "--path", "b"]),
        Err(ArgsError::Repeated("--path".to_string()))
    );
    assert_eq!(Args::parse_from(&["tmbliss", "reset"]), Err(ArgsError::MissingPath));
}

#[test]
fn accepts_values_written_inline() {
    let args = Args::parse_from(&["tmbliss", "run", "--path=./1", "--skip-glob=a=b", "--path", "./2"]).unwrap();
    assert_eq!(
        args.command,
        Command::Run {
            path: vec!["./1".to_string(), "./2".to_string()],
            dry_run: false,
            allowlist_glob: vec![],
            allowlist_path: vec![],
            skip_glob: vec!["a=b".to_string()],
            skip_path: vec![],
            skip_errors: false,
            exclude_path: vec![],
        }
    );
    let conf = Args::parse_from(&["tmbliss", "conf", "--path=c.json", "--dry-run=false"]).unwrap();
    assert_eq!(conf.command, Command::Conf { path: "c.json".to_string(), dry_run: Some(false) });
    assert_eq!(
        Args::parse_from(&["tmbliss", "run", "--dry-run=true"]),
        Err(ArgsError::UnknownOption("--dry-run=true".to_string()))
    );
    assert_eq!(
        Args::parse_from(&["tmbliss", "run", "--nope=1"]),
        Err(ArgsError::UnknownOption("--nope=1".to_string()))
    );
}
