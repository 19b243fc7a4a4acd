use tmbliss::overrides::override_globs;
use tmbliss::{Conf, Git, LogEvent, LogFilter, Logger, TMBliss, TimeMachine, TimeMachineError};

fn strings(v: &[&str]) -> Vec<String> {
    v.iter().map(|s| s.to_string()).collect()
}

#[test]
fn is_inside_respects_component_boundaries() {
    assert!(!TMBliss::is_inside("/foo", "/foobar"));
    assert!(TMBliss::is_inside("/foo", "/foo/bar"));
    assert!(TMBliss::is_inside("/foo", "/foo"));
    assert!(!TMBliss::is_inside("/foo/bar", "/foo"));
    assert!(TMBliss::is_inside("/", "/etc"));
}

#[test]
fn it_check_if_directory_is_git() {
    assert!(Git::is_git("/home/user/project/.git"));
}

#[test]
fn it_check_if_directory_is_not_git() {
    assert!(!Git::is_git("/home/user/project/tests"));
    assert!(!Git::is_git("/home/user/project/tests.git"));
}

#[test]
fn override_lines_become_scoped_globs() {
    let globs = override_globs("/r", "sec*.txt\n/secret.txt\n\n# note\n  \nsub\r\n");
    assert_eq!(globs, strings(&["/r/**/sec*.txt", "/r/secret.txt", "/r/**/sub"]));
    assert_eq!(override_globs("/", "/a\nb"), strings(&["/a", "/**/b"]));
    assert!(override_globs("/r", "").is_empty());
}

#[test]
fn root_reduction_drops_descendants() {
    let conf = Conf::default();
    let raw = Some(strings(&["/r/a", "/r/a/b", "/r/c", "/r/ab", "/r/c"]));
    let got = TMBliss::get_git_excludes(&conf, &vec![], "/r", &raw);
    assert_eq!(got, strings(&["/r/a", "/r/c", "/r/ab"]));
    assert!(TMBliss::get_git_excludes(&conf, &vec![], "/r", &None).is_empty());
}

#[test]
fn candidates_follow_skip_and_allow_rules() {
    let mut conf = Conf::default();
    conf.skip_glob = strings(&["**/*.log"]);
    conf.skip_path = strings(&["/r/vendor"]);
    conf.allowlist_glob = strings(&["**/.env"]);
    conf.allowlist_path = strings(&["/r/keep"]);
    let local = strings(&["/r/**/cache"]);
    let raw = Some(strings(&[
        "/r/a.log",
        "/r/vendor/x",
        "/r/.env",
        "/r/keep/y",
        "/r/cache/z",
        "/r/.git",
        "/r/sub/.gitignore",
        "/r/build",
        "/r/sub/cache",
    ]));
    let got = TMBliss::get_git_excludes(&conf, &local, "/r", &raw);
    assert_eq!(got, strings(&["/r/build"]));
}

#[test]
fn status_codes_map_to_error_kinds() {
    assert_eq!(TimeMachine::parse_status_code("Error (-43) while attempting to change exclusion setting."), -43);
    assert_eq!(TimeMachine::parse_status_code("nothing useful"), 0);
    assert_eq!(TimeMachine::parse_status_code("Error (abc) while attempting"), 0);
    assert_eq!(TimeMachine::status_from_group(Some("+12".to_string())), 12);
    assert_eq!(TimeMachine::status_from_group(Some("99999999999999999999".to_string())), 0);
    assert_eq!(TimeMachine::status_from_group(None), 0);
    assert_eq!(TimeMachine::parse_error("Error (-43) while attempting"), TimeMachineError::FileNotFound);
    assert_eq!(TimeMachine::parse_error("Error (100002) while attempting"), TimeMachineError::FileNotFound);
    assert_eq!(TimeMachine::parse_error("Error (-50) while attempting"), TimeMachineError::FileInaccessible);
    assert_eq!(TimeMachine::parse_error("Error (-20) while attempting"), TimeMachineError::FileInaccessible);
    assert_eq!(
        TimeMachine::parse_error("Error (7) while attempting"),
        TimeMachineError::Unknown("Unknown error with status 7".to_string())
    );
    assert_eq!(
        TimeMachine::error_from_status(-5),
        TimeMachineError::Unknown("Unknown error with status -5".to_string())
    );
}

#[test]
fn errors_read_as_text() {
    assert_eq!(TimeMachineError::FileNotFound.message(), "File not found");
    assert_eq!(TimeMachineError::FileInaccessible.message(), "File inaccessible");
    assert_eq!(TimeMachineError::Unknown("x".to_string()).message(), "Unknown error: x");
    assert_eq!(TimeMachineError::Unknown("x".to_string()).description(), "Unknown error");
}

#[test]
fn default_conf_is_an_empty_dry_run() {
    let c = Conf::default();
    assert!(c.dry_run);
    assert!(!c.skip_errors);
    assert!(c.paths.is_empty() && c.skip_glob.is_empty() && c.exclude_paths.is_empty());
}

#[test]
fn logger_filters_by_label() {
    let all = Logger { filter: LogFilter::All };
    let service = Logger { filter: LogFilter::ExcludedOnly };
    let new = LogEvent { label: "new".to_string(), message: "/r/a".to_string() };
    let old = LogEvent { label: "excluded".to_string(), message: "/r/b".to_string() };
    assert_eq!(all.line(&new), Some("new: /r/a".to_string()));
    assert_eq!(service.line(&new), None);
    assert_eq!(service.line(&old), Some("excluded: /r/b".to_string()));
}

#[test]
fn reset_allowlist_matches_paths_and_globs() {
    let globs = strings(&["**/.env"]);
    let paths = strings(&["/r/keep"]);
    assert!(TMBliss::reset_keeps(&globs, &paths, "/r/.env"));
    assert!(TMBliss::reset_keeps(&globs, &paths, "/r/keep/x"));
    assert!(!TMBliss::reset_keeps(&globs, &paths, "/r/other"));
    assert!(!TMBliss::reset_keeps(&vec![], &vec![], "/r/other"));
}

#[test]
fn command_lines_give_rules() {
    let run = tmbliss::Command::Run {
        path: strings(&["/r"]),
        dry_run: false,
        allowlist_glob: vec![],
        allowlist_path: vec![],
        skip_glob: strings(&["*.o"]),
        skip_path: vec![],
        skip_errors: true,
        exclude_path: strings(&["/r/x"]),
    };
    let conf = Conf::from_command(&run).unwrap();
    assert_eq!(conf.paths, strings(&["/r"]));
    assert_eq!(conf.skip_glob, strings(&["*.o"]));
    assert_eq!(conf.exclude_paths, strings(&["/r/x"]));
    assert!(conf.skip_errors);
    assert!(!conf.dry_run);
    let list = tmbliss::Command::List {
        path: strings(&["/r"]),
        allowlist_glob: vec![],
        allowlist_path: vec![],
        skip_glob: vec![],
        skip_path: vec![],
        skip_errors: false,
        exclude_path: vec![],
    };
    assert!(Conf::from_command(&list).unwrap().dry_run);
    let reset = tmbliss::Command::Reset {
        path: "/r".to_string(),
        dry_run: false,
        allowlist_glob: vec![],
        allowlist_path: vec![],
    };
    assert!(Conf::from_command(&reset).is_none());
    assert!(!Conf::default().with_dry_run(Some(false)).dry_run);
    assert!(Conf::default().with_dry_run(None).dry_run);
}

#[test]
fn trailing_separators_name_no_component() {
    assert!(TMBliss::is_inside("/foo/", "/foo"));
    assert!(TMBliss::is_inside("/foo", "/foo/"));
    assert!(TMBliss::is_inside("/foo/", "/foo/bar/"));
    assert!(!TMBliss::is_inside("/foo/", "/foobar"));
    assert!(Git::is_git("/r/.git/"));
    assert!(!Git::is_git("/r/tests.git/"));
    let conf = Conf::default();
    let raw = Some(strings(&["/r/a/", "/r/a/b", "/r/a"]));
    assert_eq!(TMBliss::get_git_excludes(&conf, &vec![], "/r", &raw), strings(&["/r/a/", "/r/a"]));
}

#[test]
fn override_directory_names_are_literal() {
    assert_eq!(override_globs("/r/a*[b]", "x\n"), strings(&["/r/a\\*\\[b\\]/**/x"]));
    let mut conf = Conf::default();
    conf.dry_run = false;
    let local = override_globs("/r/{a}", "/x");
    assert_eq!(local, strings(&["/r/\\{a\\}/x"]));
    let raw = Some(strings(&["/r/{a}/x", "/r/a/x"]));
    assert_eq!(TMBliss::get_git_excludes(&conf, &local, "/r", &raw), strings(&["/r/a/x"]));
}

#[test]
fn status_numbers_read_and_written_at_the_limits() {
    assert_eq!(TimeMachine::status_from_group(Some("-9223372036854775808".to_string())), i64::MIN);
    assert_eq!(TimeMachine::status_from_group(Some("9223372036854775807".to_string())), i64::MAX);
    assert_eq!(TimeMachine::status_from_group(Some("9223372036854775808".to_string())), 0);
    assert_eq!(TimeMachine::status_from_group(Some("-".to_string())), 0);
    assert_eq!(TimeMachine::status_from_group(Some("".to_string())), 0);
    assert_eq!(TimeMachine::status_from_group(Some("1 2".to_string())), 0);
    assert_eq!(TimeMachine::status_from_group(Some("007".to_string())), 7);
    assert_eq!(
        TimeMachine::error_from_status(i64::MIN),
        TimeMachineError::Unknown("Unknown error with status -9223372036854775808".to_string())
    );
    assert_eq!(
        TimeMachine::error_from_status(0),
        TimeMachineError::Unknown("Unknown error with status 0".to_string())
    );
}
