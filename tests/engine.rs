use std::collections::{BTreeMap, BTreeSet};

use tmbliss::{Conf, Entry, Request, Reset, ResetRequest, RunError, TMBliss, TimeMachineError};

/// A file system in memory, with markers, override files and the ignore
/// provider's answers.
#[derive(Clone, Default)]
struct World {
    dirs: BTreeSet<String>,
    files: BTreeSet<String>,
    marked: BTreeSet<String>,
    overrides: BTreeMap<String, String>,
    ignored: BTreeMap<String, Vec<String>>,
    check_fails: BTreeMap<String, TimeMachineError>,
    set_fails: BTreeMap<String, TimeMachineError>,
    list_fails: BTreeSet<String>,
    checks: Vec<String>,
    sets: Vec<String>,
}

fn parent(p: &str) -> &str {
    match p.rfind('/') {
        Some(0) => "/",
        Some(i) => &p[..i],
        None => "",
    }
}

impl World {
    fn dir(mut self, p: &str) -> Self {
        self.dirs.insert(p.to_string());
        self
    }
    fn file(mut self, p: &str) -> Self {
        self.files.insert(p.to_string());
        self
    }
    fn mark(mut self, p: &str) -> Self {
        self.marked.insert(p.to_string());
        self
    }
    fn with_override(mut self, d: &str, content: &str) -> Self {
        self.files.insert(format!("{}/.tmbliss", d));
        self.overrides.insert(d.to_string(), content.to_string());
        self
    }
    fn ignoring(mut self, d: &str, paths: &[&str]) -> Self {
        self.ignored.insert(d.to_string(), paths.iter().map(|s| s.to_string()).collect());
        self
    }

    fn canonical(&self, p: &str) -> Result<String, String> {
        let p = if p.len() > 1 { p.trim_end_matches('/') } else { p };
        if self.dirs.contains(p) || self.files.contains(p) {
            Ok(p.to_string())
        } else {
            Err("No such file or directory".to_string())
        }
    }

    fn entries(&self, d: &str) -> Vec<Entry> {
        let mut out = Vec::new();
        for p in self.dirs.iter().chain(self.files.iter()) {
            if p != d && parent(p) == d {
                out.push(Entry { path: p.clone(), is_dir: self.dirs.contains(p), is_symlink: false });
            }
        }
        out
    }
}

/// Runs the engine over `world` and returns the reported events.
fn drive(world: &mut World, conf: Conf) -> (Vec<(String, String)>, Result<(), RunError>) {
    let mut engine = TMBliss::new(conf);
    let mut step = engine.start();
    let mut logs = Vec::new();
    loop {
        for l in &step.logs {
            logs.push((l.label.clone(), l.message.clone()));
        }
        step = match step.request {
            Request::CanonicalizePath { path } => engine.process(world.canonical(&path)),
            Request::CanonicalizeDirectory { path } => engine.process_directory(world.canonical(&path)),
            Request::ReadOverride { dir } => engine.on_override(world.overrides.get(&dir).cloned()),
            Request::CheckMark { path } => {
                world.checks.push(path.clone());
                match world.check_fails.get(&path) {
                    Some(e) => engine.on_mark_checked(Err(e.clone())),
                    None => engine.on_mark_checked(Ok(world.marked.contains(&path))),
                }
            }
            Request::SetMark { path } => {
                world.sets.push(path.clone());
                match world.set_fails.get(&path) {
                    Some(e) => engine.on_mark_set(Err(e.clone())),
                    None => {
                        world.marked.insert(path);
                        engine.on_mark_set(Ok(()))
                    }
                }
            }
            Request::ListIgnored { dir } => engine.on_ignored(world.ignored.get(&dir).cloned()),
            Request::ListEntries { dir } => {
                if world.list_fails.contains(&dir) {
                    engine.on_entries(Err("denied".to_string()))
                } else {
                    engine.on_entries(Ok(world.entries(&dir)))
                }
            }
            Request::Finished => return (logs, Ok(())),
            Request::Failed { error } => return (logs, Err(error)),
        };
    }
}

fn conf_for(roots: &[&str]) -> Conf {
    let mut c = Conf::default();
    c.dry_run = false;
    c.paths = roots.iter().map(|s| s.to_string()).collect();
    c
}

fn ev(label: &str, message: &str) -> (String, String) {
    (label.to_string(), message.to_string())
}

fn glob_exclusion_world(case: &str) -> World {
    World::default()
        .dir("/w")
        .file("/w/.gitignore")
        .with_override("/w", &format!("{}\nsub\n", case))
        .file("/w/devfile.txt")
        .file("/w/secret.txt")
        .dir("/w/sub")
        .file("/w/sub/devfile.txt")
        .ignoring("/w", &["/w/devfile.txt", "/w/secret.txt", "/w/sub/devfile.txt"])
}

fn check_glob_exclusion(case: &str) {
    let mut world = glob_exclusion_world(case);
    let (_, result) = drive(&mut world, conf_for(&["/w"]));
    result.unwrap();
    assert!(world.marked.contains("/w/devfile.txt"), "Devfile is not excluded");
    assert!(!world.marked.contains("/w/secret.txt"), "Secret file is excluded, but it should not be");
    assert!(!world.marked.contains("/w/sub/devfile.txt"), "Sub/devfile is excluded, but it should not be");
}

#[test]
fn glob_exclusion_with_wildcard() {
    check_glob_exclusion("sec*.txt");
}

#[test]
fn glob_exclusion_with_anchored_wildcard() {
    check_glob_exclusion("/sec*.txt");
}

#[test]
fn glob_exclusion_with_anchored_name() {
    check_glob_exclusion("/secret.txt");
}

#[test]
fn glob_exclusion_with_name() {
    check_glob_exclusion("secret.txt");
}

#[test]
fn test_tmbliss_glob_exclusion_2() {
    let mut world = World::default()
        .dir("/w")
        .file("/w/.gitignore")
        .with_override("/w", "sub\n")
        .file("/w/devfile.txt")
        .dir("/w/sub")
        .file("/w/sub/devfile.txt")
        .ignoring("/w", &["/w/devfile.txt", "/w/sub"]);
    let (_, result) = drive(&mut world, conf_for(&["/w"]));
    result.unwrap();
    assert!(world.marked.contains("/w/devfile.txt"), "Devfile is not excluded");
    assert!(!world.marked.contains("/w/sub"), "Sub directory is excluded, but it should not be");
    assert!(!world.marked.contains("/w/sub/devfile.txt"), "Sub/devfile is excluded, but it should not be");
}

#[test]
fn wet_run_then_dry_runs() {
    let fresh = World::default()
        .dir("/r")
        .file("/r/a")
        .file("/r/b")
        .with_override("/r", "b\n")
        .ignoring("/r", &["/r/a", "/r/b"]);
    let mut wet = fresh.clone();
    let (wet_logs, r) = drive(&mut wet, conf_for(&["/r"]));
    r.unwrap();
    assert!(wet.marked.contains("/r/a"));
    assert!(!wet.marked.contains("/r/b"));
    assert_eq!(wet_logs, vec![ev("new", "/r/a")]);

    let mut dry_conf = conf_for(&["/r"]);
    dry_conf.dry_run = true;
    let mut dry = fresh.clone();
    let (dry_logs, r) = drive(&mut dry, dry_conf.clone());
    r.unwrap();
    assert_eq!(dry_logs, wet_logs);
    assert!(dry.marked.is_empty());

    let before = wet.marked.clone();
    let (again, r) = drive(&mut wet, dry_conf);
    r.unwrap();
    assert_eq!(wet.marked, before);
    assert_eq!(again, vec![ev("excluded", "/r/a")]);
}

#[test]
fn each_path_is_decided_once() {
    let mut world = World::default()
        .dir("/r")
        .dir("/r/d")
        .file("/r/d/x")
        .ignoring("/r", &["/r/d/x"])
        .ignoring("/r/d", &["/r/d/x"]);
    let mut conf = conf_for(&["/r", "/r/d", "/r/"]);
    conf.exclude_paths = vec!["/r/d/x".to_string(), "/r/d/x".to_string()];
    let (logs, r) = drive(&mut world, conf);
    r.unwrap();
    assert_eq!(world.checks.iter().filter(|p| p.as_str() == "/r/d/x").count(), 1);
    assert_eq!(world.sets, vec!["/r/d/x".to_string()]);
    assert_eq!(logs, vec![ev("new", "/r/d/x")]);
}

#[test]
fn skipped_directories_are_pruned() {
    let mut world = World::default()
        .dir("/r")
        .dir("/r/node_modules")
        .dir("/r/node_modules/pkg")
        .file("/r/node_modules/pkg/build.o")
        .dir("/r/vendor")
        .file("/r/vendor/lib.o")
        .dir("/r/.git")
        .ignoring("/r", &["/r/node_modules/pkg/build.o", "/r/vendor/lib.o"])
        .ignoring("/r/node_modules", &["/r/node_modules/pkg/build.o"])
        .ignoring("/r/vendor", &["/r/vendor/lib.o"]);
    let mut conf = conf_for(&["/r"]);
    conf.skip_glob = vec!["**/node_modules".to_string()];
    conf.skip_path = vec!["/r/vendor".to_string()];
    let (logs, r) = drive(&mut world, conf);
    r.unwrap();
    assert!(logs.is_empty());
    assert!(world.marked.is_empty());
    assert_eq!(world.checks, vec!["/r".to_string()]);
}

#[test]
fn allowlisted_paths_stay_unmarked_but_are_scanned() {
    let mut world = World::default()
        .dir("/r")
        .dir("/r/keep")
        .file("/r/keep/cache.bin")
        .ignoring("/r", &["/r/keep"])
        .ignoring("/r/keep", &["/r/keep/cache.bin"]);
    let mut conf = conf_for(&["/r"]);
    conf.allowlist_glob = vec!["**/keep".to_string()];
    let (_, r) = drive(&mut world, conf);
    r.unwrap();
    assert!(!world.marked.contains("/r/keep"));
    assert!(world.marked.contains("/r/keep/cache.bin"));
}

#[test]
fn override_applies_below_its_directory_only() {
    let mut world = World::default()
        .dir("/r")
        .dir("/r/a")
        .file("/r/a/tmp.txt")
        .dir("/r/a/deep")
        .file("/r/a/deep/tmp.txt")
        .with_override("/r/a", "tmp.txt\n")
        .dir("/r/b")
        .file("/r/b/tmp.txt")
        .file("/r/tmp.txt")
        .ignoring("/r", &["/r/tmp.txt"])
        .ignoring("/r/a", &["/r/a/deep/tmp.txt", "/r/a/tmp.txt"])
        .ignoring("/r/a/deep", &["/r/a/deep/tmp.txt"])
        .ignoring("/r/b", &["/r/b/tmp.txt"]);
    let (_, r) = drive(&mut world, conf_for(&["/r"]));
    r.unwrap();
    assert!(world.marked.contains("/r/tmp.txt"));
    assert!(world.marked.contains("/r/b/tmp.txt"));
    assert!(!world.marked.contains("/r/a/tmp.txt"));
    assert!(!world.marked.contains("/r/a/deep/tmp.txt"));
}

#[test]
fn marked_directory_is_not_expanded() {
    let mut world = World::default()
        .dir("/r")
        .dir("/r/big")
        .file("/r/big/x")
        .mark("/r/big")
        .ignoring("/r/big", &["/r/big/x"]);
    let (logs, r) = drive(&mut world, conf_for(&["/r"]));
    r.unwrap();
    assert_eq!(logs, vec![ev("excluded", "/r/big")]);
    assert!(!world.marked.contains("/r/big/x"));
}

#[test]
fn marker_errors_stop_the_run_or_are_reported() {
    let base = World::default().dir("/r").file("/r/x").ignoring("/r", &["/r/x"]);
    let mut w1 = base.clone();
    w1.check_fails.insert("/r/x".to_string(), TimeMachineError::FileInaccessible);
    let (_, r) = drive(&mut w1, conf_for(&["/r"]));
    assert_eq!(
        r,
        Err(RunError::Marker { path: "/r/x".to_string(), error: TimeMachineError::FileInaccessible })
    );

    let mut w2 = base.clone();
    w2.check_fails.insert("/r/x".to_string(), TimeMachineError::FileInaccessible);
    let mut conf = conf_for(&["/r"]);
    conf.skip_errors = true;
    let (logs, r) = drive(&mut w2, conf.clone());
    r.unwrap();
    assert_eq!(logs, vec![ev("error_checking", "/r/x, File inaccessible")]);

    let mut w3 = base.clone();
    w3.set_fails.insert("/r/x".to_string(), TimeMachineError::FileNotFound);
    let (logs, r) = drive(&mut w3, conf);
    r.unwrap();
    assert_eq!(logs, vec![ev("new", "/r/x"), ev("error_excluding", "/r/x, File not found")]);

    let mut w4 = base.clone();
    w4.set_fails.insert("/r/x".to_string(), TimeMachineError::Unknown("boom".to_string()));
    let (_, r) = drive(&mut w4, conf_for(&["/r"]));
    assert_eq!(
        r,
        Err(RunError::Marker { path: "/r/x".to_string(), error: TimeMachineError::Unknown("boom".to_string()) })
    );
}

#[test]
fn unresolved_paths_and_listing_failures() {
    let mut world = World::default().dir("/r");
    let (_, r) = drive(&mut world, conf_for(&["/missing"]));
    assert_eq!(
        r,
        Err(RunError::Canonicalize {
            path: "/missing".to_string(),
            reason: "No such file or directory".to_string()
        })
    );

    let mut conf = conf_for(&[]);
    conf.exclude_paths = vec!["/nope".to_string()];
    conf.skip_errors = true;
    let (logs, r) = drive(&mut world, conf);
    r.unwrap();
    assert_eq!(logs, vec![ev("error_checking", "/nope, No such file or directory")]);

    let mut failing = World::default().dir("/r");
    failing.list_fails.insert("/r".to_string());
    let (_, r) = drive(&mut failing, conf_for(&["/r"]));
    assert_eq!(r, Err(RunError::List { path: "/r".to_string(), reason: "denied".to_string() }));
}

#[test]
fn failed_ignore_lookup_is_not_fatal() {
    let mut world = World::default().dir("/r").dir("/r/s").file("/r/s/x").ignoring("/r/s", &["/r/s/x"]);
    let (_, r) = drive(&mut world, conf_for(&["/r"]));
    r.unwrap();
    assert!(world.marked.contains("/r/s/x"));
}

#[test]
fn explicit_paths_come_first() {
    let mut world = World::default().dir("/r").file("/r/x").file("/r/y").ignoring("/r", &["/r/x"]);
    let mut conf = conf_for(&["/r"]);
    conf.exclude_paths = vec!["/r/y".to_string()];
    let (logs, r) = drive(&mut world, conf);
    r.unwrap();
    assert_eq!(logs, vec![ev("new", "/r/y"), ev("new", "/r/x")]);
}

/// Runs a reset walk below `root` over `world` and returns the reported events.
fn drive_reset(world: &mut World, root: &str, dry_run: bool, globs: &[&str], paths: &[&str]) -> (Vec<(String, String)>, Result<(), RunError>) {
    let mut walk = Reset::new(
        root.to_string(),
        dry_run,
        globs.iter().map(|s| s.to_string()).collect(),
        paths.iter().map(|s| s.to_string()).collect(),
    );
    let mut step = walk.start();
    let mut logs = Vec::new();
    loop {
        for l in &step.logs {
            logs.push((l.label.clone(), l.message.clone()));
        }
        step = match step.request {
            ResetRequest::ListEntries { dir } => {
                if world.list_fails.contains(&dir) {
                    walk.on_entries(Err("denied".to_string()))
                } else {
                    walk.on_entries(Ok(world.entries(&dir)))
                }
            }
            ResetRequest::CheckMark { path } => {
                world.checks.push(path.clone());
                match world.check_fails.get(&path) {
                    Some(e) => walk.on_mark_checked(Err(e.clone())),
                    None => walk.on_mark_checked(Ok(world.marked.contains(&path))),
                }
            }
            ResetRequest::ClearMark { path } => {
                world.marked.remove(&path);
                walk.on_mark_cleared(Ok(()))
            }
            ResetRequest::Finished => return (logs, Ok(())),
            ResetRequest::Failed { error } => return (logs, Err(error)),
        };
    }
}

fn reset_world() -> World {
    World::default()
        .dir("/r")
        .dir("/r/a")
        .file("/r/a/x")
        .dir("/r/keep")
        .file("/r/keep/y")
        .file("/r/.env")
        .mark("/r/a")
        .mark("/r/a/x")
        .mark("/r/keep/y")
        .mark("/r/.env")
}

#[test]
fn reset_clears_marks_outside_the_allowlist() {
    let mut world = reset_world();
    let (logs, r) = drive_reset(&mut world, "/r", false, &["**/.env"], &["/r/keep"]);
    r.unwrap();
    assert!(!world.marked.contains("/r/a"));
    assert!(!world.marked.contains("/r/a/x"), "a marked directory must not hide its marked children");
    assert!(world.marked.contains("/r/keep/y"));
    assert!(world.marked.contains("/r/.env"));
    let mut got = logs.clone();
    got.sort();
    assert_eq!(got, vec![ev("excluded", "/r/a"), ev("excluded", "/r/a/x")]);
}

#[test]
fn show_excluded_changes_nothing() {
    let mut world = reset_world();
    let before = world.marked.clone();
    let (logs, r) = drive_reset(&mut world, "/r", true, &[], &[]);
    r.unwrap();
    assert_eq!(world.marked, before);
    assert_eq!(logs.len(), 4);
}

#[test]
fn run_then_reset_restores_unmarked_paths() {
    let mut world = World::default()
        .dir("/r")
        .dir("/r/build")
        .file("/r/build/out.o")
        .file("/r/notes.txt")
        .ignoring("/r", &["/r/build"]);
    let (_, r) = drive(&mut world, conf_for(&["/r"]));
    r.unwrap();
    assert!(world.marked.contains("/r/build"));
    let (_, r) = drive_reset(&mut world, "/r", false, &[], &[]);
    r.unwrap();
    assert!(world.marked.is_empty());
}

#[test]
fn reset_stops_on_marker_errors() {
    let mut world = reset_world();
    world.check_fails.insert("/r/a".to_string(), TimeMachineError::FileInaccessible);
    let (_, r) = drive_reset(&mut world, "/r", false, &[], &[]);
    assert_eq!(
        r,
        Err(RunError::Marker { path: "/r/a".to_string(), error: TimeMachineError::FileInaccessible })
    );
    let mut failing = reset_world();
    failing.list_fails.insert("/r".to_string());
    let (_, r) = drive_reset(&mut failing, "/r", false, &[], &[]);
    assert_eq!(r, Err(RunError::List { path: "/r".to_string(), reason: "denied".to_string() }));
}

#[test]
fn unreadable_directory_marker_is_reported_with_skip_errors() {
    let base = World::default()
        .dir("/r")
        .dir("/r/d")
        .file("/r/d/x")
        .file("/r/y")
        .ignoring("/r", &["/r/y"])
        .ignoring("/r/d", &["/r/d/x"]);
    let mut w1 = base.clone();
    w1.check_fails.insert("/r/d".to_string(), TimeMachineError::FileInaccessible);
    let (_, r) = drive(&mut w1, conf_for(&["/r"]));
    assert_eq!(
        r,
        Err(RunError::Marker { path: "/r/d".to_string(), error: TimeMachineError::FileInaccessible })
    );
    let mut w2 = base.clone();
    w2.check_fails.insert("/r/d".to_string(), TimeMachineError::FileInaccessible);
    let mut conf = conf_for(&["/r"]);
    conf.skip_errors = true;
    let (logs, r) = drive(&mut w2, conf);
    r.unwrap();
    assert!(logs.contains(&ev("error_checking", "/r/d, File inaccessible")));
    assert!(w2.marked.contains("/r/y"));
    assert!(!w2.marked.contains("/r/d/x"));
}
