//! The command line: a subcommand and its long options, each option either a
//! flag or followed by its value.
use vstd::prelude::*;
use crate::overrides::views;
use crate::paths::equal_at_whole;

verus! {

/// The parsed command line.
#[derive(Debug, Clone, PartialEq)]
pub struct Args {
    pub command: Command,
}

/// What the program is asked to do.
#[derive(Debug, Clone, PartialEq)]
pub enum Command {
    /// Marks the paths under the given roots that should not be backed up.
    Run {
        path: Vec<String>,
        dry_run: bool,
        allowlist_glob: Vec<String>,
        allowlist_path: Vec<String>,
        skip_glob: Vec<String>,
        skip_path: Vec<String>,
        skip_errors: bool,
        exclude_path: Vec<String>,
    },
    /// Shows what `run` would mark: `run` as a dry run.
    List {
        path: Vec<String>,
        allowlist_glob: Vec<String>,
        allowlist_path: Vec<String>,
        skip_glob: Vec<String>,
        skip_path: Vec<String>,
        skip_errors: bool,
        exclude_path: Vec<String>,
    },
    /// Runs with the rules of a configuration file.
    Conf { path: String, dry_run: Option<bool> },
    /// Runs with the rules of a configuration file, reporting only paths
    /// that are marked already.
    Service { path: String, dry_run: Option<bool> },
    /// Clears the markers below a directory.
    Reset { path: String, dry_run: bool, allowlist_glob: Vec<String>, allowlist_path: Vec<String> },
    /// Shows the marked paths below a directory: `reset` as a dry run.
    ShowExcluded { path: String, allowlist_glob: Vec<String>, allowlist_path: Vec<String> },
    /// Prints the command-line help as markdown.
    MarkdownHelp,
}

/// Why a command line was refused.
#[derive(Debug, Clone, PartialEq)]
pub enum ArgsError {
    /// No subcommand was given.
    MissingCommand,
    /// The subcommand is not known.
    UnknownCommand(String),
    /// An argument is not an option of the subcommand.
    UnknownOption(String),
    /// An option that takes a value came last.
    MissingValue(String),
    /// The value of a yes/no option is neither `true` nor `false`.
    InvalidBool(String),
    /// An option that is allowed once was given again.
    Repeated(String),
    /// The subcommand needs `--path`.
    MissingPath,
}

/// The subcommands.
#[derive(Debug, Clone, Copy, PartialEq, Eq)]
pub enum Sub {
    Run,
    List,
    Conf,
    Service,
    Reset,
    ShowExcluded,
    MarkdownHelp,
}

/// The options.
#[derive(Debug, Clone, Copy, PartialEq, Eq)]
pub enum Field {
    Path,
    DryRun,
    AllowlistGlob,
    AllowlistPath,
    SkipGlob,
    SkipPath,
    SkipErrors,
    ExcludePath,
}

/// The subcommand named `s`.
pub open spec fn sub_of(s: Seq<char>) -> Option<Sub> {
    if s == seq!['r', 'u', 'n'] {
        Some(Sub::Run)
    } else if s == seq!['l', 'i', 's', 't'] {
        Some(Sub::List)
    } else if s == seq!['c', 'o', 'n', 'f'] {
        Some(Sub::Conf)
    } else if s == seq!['s', 'e', 'r', 'v', 'i', 'c', 'e'] {
        Some(Sub::Service)
    } else if s == seq!['r', 'e', 's', 'e', 't'] {
        Some(Sub::Reset)
    } else if s == seq!['s', 'h', 'o', 'w', '-', 'e', 'x', 'c', 'l', 'u', 'd', 'e', 'd'] {
        Some(Sub::ShowExcluded)
    } else if s == seq!['m', 'a', 'r', 'k', 'd', 'o', 'w', 'n', '-', 'h', 'e', 'l', 'p'] {
        Some(Sub::MarkdownHelp)
    } else {
        None
    }
}

/// The option written `--` followed by `s`.
pub open spec fn field_of(s: Seq<char>) -> Option<Field> {
    if s == seq!['-', '-', 'p', 'a', 't', 'h'] {
        Some(Field::Path)
    } else if s == seq!['-', '-', 'd', 'r', 'y', '-', 'r', 'u', 'n'] {
        Some(Field::DryRun)
    } else if s == seq!['-', '-', 'a', 'l', 'l', 'o', 'w', 'l', 'i', 's', 't', '-', 'g', 'l', 'o', 'b'] {
        Some(Field::AllowlistGlob)
    } else if s == seq!['-', '-', 'a', 'l', 'l', 'o', 'w', 'l', 'i', 's', 't', '-', 'p', 'a', 't', 'h'] {
        Some(Field::AllowlistPath)
    } else if s == seq!['-', '-', 's', 'k', 'i', 'p', '-', 'g', 'l', 'o', 'b'] {
        Some(Field::SkipGlob)
    } else if s == seq!['-', '-', 's', 'k', 'i', 'p', '-', 'p', 'a', 't', 'h'] {
        Some(Field::SkipPath)
    } else if s == seq!['-', '-', 's', 'k', 'i', 'p', '-', 'e', 'r', 'r', 'o', 'r', 's'] {
        Some(Field::SkipErrors)
    } else if s == seq!['-', '-', 'e', 'x', 'c', 'l', 'u', 'd', 'e', '-', 'p', 'a', 't', 'h'] {
        Some(Field::ExcludePath)
    } else {
        None
    }
}

/// Whether subcommand `sub` has option `f`.
pub open spec fn allowed(sub: Sub, f: Field) -> bool {
    match sub {
        Sub::Run => true,
        Sub::List => f != Field::DryRun,
        Sub::Conf | Sub::Service => f == Field::Path || f == Field::DryRun,
        Sub::Reset => f == Field::Path || f == Field::DryRun || f == Field::AllowlistGlob || f
            == Field::AllowlistPath,
        Sub::ShowExcluded => f == Field::Path || f == Field::AllowlistGlob || f == Field::AllowlistPath,
        Sub::MarkdownHelp => false,
    }
}

/// Whether option `f` of `sub` is a flag, written without a value.
pub open spec fn is_flag(sub: Sub, f: Field) -> bool {
    f == Field::SkipErrors || (f == Field::DryRun && sub != Sub::Conf && sub != Sub::Service)
}

/// Whether `sub` takes one `--path` rather than several.
pub open spec fn single_path(sub: Sub) -> bool {
    sub != Sub::Run && sub != Sub::List
}

/// The options read so far.
pub struct Options {
    pub path: Vec<String>,
    pub dry_run: bool,
    pub dry_run_value: Option<bool>,
    pub allowlist_glob: Vec<String>,
    pub allowlist_path: Vec<String>,
    pub skip_glob: Vec<String>,
    pub skip_path: Vec<String>,
    pub skip_errors: bool,
    pub exclude_path: Vec<String>,
}

/// The mathematical value of [`Options`].
pub struct OptionsView {
    pub path: Seq<Seq<char>>,
    pub dry_run: bool,
    pub dry_run_value: Option<bool>,
    pub allowlist_glob: Seq<Seq<char>>,
    pub allowlist_path: Seq<Seq<char>>,
    pub skip_glob: Seq<Seq<char>>,
    pub skip_path: Seq<Seq<char>>,
    pub skip_errors: bool,
    pub exclude_path: Seq<Seq<char>>,
}

impl View for Options {
    type V = OptionsView;

    open spec fn view(&self) -> OptionsView {
        OptionsView {
            path: views(self.path@),
            dry_run: self.dry_run,
            dry_run_value: self.dry_run_value,
            allowlist_glob: views(self.allowlist_glob@),
            allowlist_path: views(self.allowlist_path@),
            skip_glob: views(self.skip_glob@),
            skip_path: views(self.skip_path@),
            skip_errors: self.skip_errors,
            exclude_path: views(self.exclude_path@),
        }
    }
}

/// The mathematical value of an [`ArgsError`].
pub enum ArgsErrorView {
    MissingCommand,
    UnknownCommand(Seq<char>),
    UnknownOption(Seq<char>),
    MissingValue(Seq<char>),
    InvalidBool(Seq<char>),
    Repeated(Seq<char>),
    MissingPath,
}

impl View for ArgsError {
    type V = ArgsErrorView;

    open spec fn view(&self) -> ArgsErrorView {
        match self {
            ArgsError::MissingCommand => ArgsErrorView::MissingCommand,
            ArgsError::UnknownCommand(s) => ArgsErrorView::UnknownCommand(s@),
            ArgsError::UnknownOption(s) => ArgsErrorView::UnknownOption(s@),
            ArgsError::MissingValue(s) => ArgsErrorView::MissingValue(s@),
            ArgsError::InvalidBool(s) => ArgsErrorView::InvalidBool(s@),
            ArgsError::Repeated(s) => ArgsErrorView::Repeated(s@),
            ArgsError::MissingPath => ArgsErrorView::MissingPath,
        }
    }
}

/// No option read yet.
pub open spec fn no_options() -> OptionsView {
    OptionsView {
        path: Seq::empty(),
        dry_run: false,
        dry_run_value: None,
        allowlist_glob: Seq::empty(),
        allowlist_path: Seq::empty(),
        skip_glob: Seq::empty(),
        skip_path: Seq::empty(),
        skip_errors: false,
        exclude_path: Seq::empty(),
    }
}

/// The yes/no value written `v`.
pub open spec fn bool_of(v: Seq<char>) -> Option<bool> {
    if v == seq!['t', 'r', 'u', 'e'] {
        Some(true)
    } else if v == seq!['f', 'a', 'l', 's', 'e'] {
        Some(false)
    } else {
        None
    }
}

/// Reading option `f` (written `name`) with value `v` into `o`.
pub open spec fn apply_spec(sub: Sub, o: OptionsView, f: Field, name: Seq<char>, v: Seq<char>) -> Result<OptionsView, ArgsErrorView> {
    match f {
        Field::Path => if single_path(sub) && o.path.len() > 0 {
            Err(ArgsErrorView::Repeated(name))
        } else {
            Ok(OptionsView { path: o.path.push(v), ..o })
        },
        Field::DryRun => if is_flag(sub, f) {
            Ok(OptionsView { dry_run: true, ..o })
        } else if o.dry_run_value is Some {
            Err(ArgsErrorView::Repeated(name))
        } else {
            match bool_of(v) {
                Some(b) => Ok(OptionsView { dry_run_value: Some(b), ..o }),
                None => Err(ArgsErrorView::InvalidBool(v)),
            }
        },
        Field::AllowlistGlob => Ok(OptionsView { allowlist_glob: o.allowlist_glob.push(v), ..o }),
        Field::AllowlistPath => Ok(OptionsView { allowlist_path: o.allowlist_path.push(v), ..o }),
        Field::SkipGlob => Ok(OptionsView { skip_glob: o.skip_glob.push(v), ..o }),
        Field::SkipPath => Ok(OptionsView { skip_path: o.skip_path.push(v), ..o }),
        Field::SkipErrors => Ok(OptionsView { skip_errors: true, ..o }),
        Field::ExcludePath => Ok(OptionsView { exclude_path: o.exclude_path.push(v), ..o }),
    }
}

/// The index of the first `=` in `s` from index `i` on, or -1.
pub open spec fn first_eq(s: Seq<char>, i: int) -> int
    decreases s.len() - i,
{
    if i < 0 || i >= s.len() {
        -1
    } else if s[i] == '=' {
        i
    } else {
        first_eq(s, i + 1)
    }
}

/// Whether `tok` is an option written with its value, `--name=value`.
pub open spec fn is_inline(tok: Seq<char>) -> bool {
    first_eq(tok, 0) >= 0 && field_of(tok.subrange(0, first_eq(tok, 0))) is Some
}

/// Reading the arguments from index `i` on into `o`. An option that takes a
/// value is followed by it, or written `--name=value`.
pub open spec fn options_spec(sub: Sub, argv: Seq<Seq<char>>, i: int, o: OptionsView) -> Result<OptionsView, ArgsErrorView>
    decreases argv.len() - i,
{
    if i >= argv.len() || i < 0 {
        Ok(o)
    } else if is_inline(argv[i]) {
        let tok = argv[i];
        let k = first_eq(tok, 0);
        let name = tok.subrange(0, k);
        let f = field_of(name)->Some_0;
        if !allowed(sub, f) || is_flag(sub, f) {
            Err(ArgsErrorView::UnknownOption(tok))
        } else {
            match apply_spec(sub, o, f, name, tok.subrange(k + 1, tok.len() as int)) {
                Ok(o2) => options_spec(sub, argv, i + 1, o2),
                Err(e) => Err(e),
            }
        }
    } else {
        let name = argv[i];
        match field_of(name) {
            Some(f) => if !allowed(sub, f) {
                Err(ArgsErrorView::UnknownOption(name))
            } else if is_flag(sub, f) {
                match apply_spec(sub, o, f, name, Seq::empty()) {
                    Ok(o2) => options_spec(sub, argv, i + 1, o2),
                    Err(e) => Err(e),
                }
            } else if i + 1 >= argv.len() {
                Err(ArgsErrorView::MissingValue(name))
            } else {
                match apply_spec(sub, o, f, name, argv[i + 1]) {
                    Ok(o2) => options_spec(sub, argv, i + 2, o2),
                    Err(e) => Err(e),
                }
            },
            None => Err(ArgsErrorView::UnknownOption(name)),
        }
    }
}

/// The mathematical value of a [`Command`].
pub enum CommandView {
    Run {
        path: Seq<Seq<char>>,
        dry_run: bool,
        allowlist_glob: Seq<Seq<char>>,
        allowlist_path: Seq<Seq<char>>,
        skip_glob: Seq<Seq<char>>,
        skip_path: Seq<Seq<char>>,
        skip_errors: bool,
        exclude_path: Seq<Seq<char>>,
    },
    List {
        path: Seq<Seq<char>>,
        allowlist_glob: Seq<Seq<char>>,
        allowlist_path: Seq<Seq<char>>,
        skip_glob: Seq<Seq<char>>,
        skip_path: Seq<Seq<char>>,
        skip_errors: bool,
        exclude_path: Seq<Seq<char>>,
    },
    Conf { path: Seq<char>, dry_run: Option<bool> },
    Service { path: Seq<char>, dry_run: Option<bool> },
    Reset { path: Seq<char>, dry_run: bool, allowlist_glob: Seq<Seq<char>>, allowlist_path: Seq<Seq<char>> },
    ShowExcluded { path: Seq<char>, allowlist_glob: Seq<Seq<char>>, allowlist_path: Seq<Seq<char>> },
    MarkdownHelp,
}

impl View for Command {
    type V = CommandView;

    open spec fn view(&self) -> CommandView {
        match self {
            Command::Run {
                path,
                dry_run,
                allowlist_glob,
                allowlist_path,
                skip_glob,
                skip_path,
                skip_errors,
                exclude_path,
            } => CommandView::Run {
                path: views(path@),
                dry_run: *dry_run,
                allowlist_glob: views(allowlist_glob@),
                allowlist_path: views(allowlist_path@),
                skip_glob: views(skip_glob@),
                skip_path: views(skip_path@),
                skip_errors: *skip_errors,
                exclude_path: views(exclude_path@),
            },
            Command::List {
                path,
                allowlist_glob,
                allowlist_path,
                skip_glob,
                skip_path,
                skip_errors,
                exclude_path,
            } => CommandView::List {
                path: views(path@),
                allowlist_glob: views(allowlist_glob@),
                allowlist_path: views(allowlist_path@),
                skip_glob: views(skip_glob@),
                skip_path: views(skip_path@),
                skip_errors: *skip_errors,
                exclude_path: views(exclude_path@),
            },
            Command::Conf { path, dry_run } => CommandView::Conf { path: path@, dry_run: *dry_run },
            Command::Service { path, dry_run } => CommandView::Service { path: path@, dry_run: *dry_run },
            Command::Reset { path, dry_run, allowlist_glob, allowlist_path } => CommandView::Reset {
                path: path@,
                dry_run: *dry_run,
                allowlist_glob: views(allowlist_glob@),
                allowlist_path: views(allowlist_path@),
            },
            Command::ShowExcluded { path, allowlist_glob, allowlist_path } => CommandView::ShowExcluded {
                path: path@,
                allowlist_glob: views(allowlist_glob@),
                allowlist_path: views(allowlist_path@),
            },
            Command::MarkdownHelp => CommandView::MarkdownHelp,
        }
    }
}

/// The command that subcommand `sub` with options `o` stands for.
pub open spec fn finish_spec(sub: Sub, o: OptionsView) -> Result<CommandView, ArgsErrorView> {
    if single_path(sub) && sub != Sub::MarkdownHelp && o.path.len() == 0 {
        Err(ArgsErrorView::MissingPath)
    } else {
        Ok(
            match sub {
                Sub::Run => CommandView::Run {
                    path: o.path,
                    dry_run: o.dry_run,
                    allowlist_glob: o.allowlist_glob,
                    allowlist_path: o.allowlist_path,
                    skip_glob: o.skip_glob,
                    skip_path: o.skip_path,
                    skip_errors: o.skip_errors,
                    exclude_path: o.exclude_path,
                },
                Sub::List => CommandView::List {
                    path: o.path,
                    allowlist_glob: o.allowlist_glob,
                    allowlist_path: o.allowlist_path,
                    skip_glob: o.skip_glob,
                    skip_path: o.skip_path,
                    skip_errors: o.skip_errors,
                    exclude_path: o.exclude_path,
                },
                Sub::Conf => CommandView::Conf { path: o.path[0], dry_run: o.dry_run_value },
                Sub::Service => CommandView::Service { path: o.path[0], dry_run: o.dry_run_value },
                Sub::Reset => CommandView::Reset {
                    path: o.path[0],
                    dry_run: o.dry_run,
                    allowlist_glob: o.allowlist_glob,
                    allowlist_path: o.allowlist_path,
                },
                Sub::ShowExcluded => CommandView::ShowExcluded {
                    path: o.path[0],
                    allowlist_glob: o.allowlist_glob,
                    allowlist_path: o.allowlist_path,
                },
                Sub::MarkdownHelp => CommandView::MarkdownHelp,
            },
        )
    }
}

/// The views of a sequence of string slices.
pub open spec fn strs(v: Seq<&str>) -> Seq<Seq<char>> {
    v.map_values(|s: &str| s@)
}

/// What the command line `argv` (the program's name first) stands for.
pub open spec fn parse_spec(argv: Seq<Seq<char>>) -> Result<CommandView, ArgsErrorView> {
    if argv.len() < 2 {
        Err(ArgsErrorView::MissingCommand)
    } else {
        match sub_of(argv[1]) {
            None => Err(ArgsErrorView::UnknownCommand(argv[1])),
            Some(sub) => match options_spec(sub, argv, 2, no_options()) {
                Err(e) => Err(e),
                Ok(o) => finish_spec(sub, o),
            },
        }
    }
}

/// The subcommand named `s`.
fn sub_from(s: &str) -> (r: Option<Sub>)
    ensures
        r == sub_of(s@),
{
    proof {
        reveal_strlit("run");
        reveal_strlit("list");
        reveal_strlit("conf");
        reveal_strlit("service");
        reveal_strlit("reset");
        reveal_strlit("show-excluded");
        reveal_strlit("markdown-help");
    }
    assert("run"@ =~= seq!['r', 'u', 'n']);
    assert("list"@ =~= seq!['l', 'i', 's', 't']);
    assert("conf"@ =~= seq!['c', 'o', 'n', 'f']);
    assert("service"@ =~= seq!['s', 'e', 'r', 'v', 'i', 'c', 'e']);
    assert("reset"@ =~= seq!['r', 'e', 's', 'e', 't']);
    assert("show-excluded"@ =~= seq!['s', 'h', 'o', 'w', '-', 'e', 'x', 'c', 'l', 'u', 'd', 'e', 'd']);
    assert("markdown-help"@ =~= seq!['m', 'a', 'r', 'k', 'd', 'o', 'w', 'n', '-', 'h', 'e', 'l', 'p']);
    if equal_at_whole(s, "run") {
        Some(Sub::Run)
    } else if equal_at_whole(s, "list") {
        Some(Sub::List)
    } else if equal_at_whole(s, "conf") {
        Some(Sub::Conf)
    } else if equal_at_whole(s, "service") {
        Some(Sub::Service)
    } else if equal_at_whole(s, "reset") {
        Some(Sub::Reset)
    } else if equal_at_whole(s, "show-excluded") {
        Some(Sub::ShowExcluded)
    } else if equal_at_whole(s, "markdown-help") {
        Some(Sub::MarkdownHelp)
    } else {
        None
    }
}

/// The option written `s`.
fn field_from(s: &str) -> (r: Option<Field>)
    ensures
        r == field_of(s@),
{
    proof {
        reveal_strlit("--path");
        reveal_strlit("--dry-run");
        reveal_strlit("--allowlist-glob");
        reveal_strlit("--allowlist-path");
        reveal_strlit("--skip-glob");
        reveal_strlit("--skip-path");
        reveal_strlit("--skip-errors");
        reveal_strlit("--exclude-path");
    }
    assert("--path"@ =~= seq!['-', '-', 'p', 'a', 't', 'h']);
    assert("--dry-run"@ =~= seq!['-', '-', 'd', 'r', 'y', '-', 'r', 'u', 'n']);
    assert("--allowlist-glob"@ =~= seq!['-', '-', 'a', 'l', 'l', 'o', 'w', 'l', 'i', 's', 't', '-', 'g', 'l', 'o', 'b']);
    assert("--allowlist-path"@ =~= seq!['-', '-', 'a', 'l', 'l', 'o', 'w', 'l', 'i', 's', 't', '-', 'p', 'a', 't', 'h']);
    assert("--skip-glob"@ =~= seq!['-', '-', 's', 'k', 'i', 'p', '-', 'g', 'l', 'o', 'b']);
    assert("--skip-path"@ =~= seq!['-', '-', 's', 'k', 'i', 'p', '-', 'p', 'a', 't', 'h']);
    assert("--skip-errors"@ =~= seq!['-', '-', 's', 'k', 'i', 'p', '-', 'e', 'r', 'r', 'o', 'r', 's']);
    assert("--exclude-path"@ =~= seq!['-', '-', 'e', 'x', 'c', 'l', 'u', 'd', 'e', '-', 'p', 'a', 't', 'h']);
    if equal_at_whole(s, "--path") {
        Some(Field::Path)
    } else if equal_at_whole(s, "--dry-run") {
        Some(Field::DryRun)
    } else if equal_at_whole(s, "--allowlist-glob") {
        Some(Field::AllowlistGlob)
    } else if equal_at_whole(s, "--allowlist-path") {
        Some(Field::AllowlistPath)
    } else if equal_at_whole(s, "--skip-glob") {
        Some(Field::SkipGlob)
    } else if equal_at_whole(s, "--skip-path") {
        Some(Field::SkipPath)
    } else if equal_at_whole(s, "--skip-errors") {
        Some(Field::SkipErrors)
    } else if equal_at_whole(s, "--exclude-path") {
        Some(Field::ExcludePath)
    } else {
        None
    }
}

/// The index of the first `=` in `s`.
fn first_eq_index(s: &str) -> (r: Option<usize>)
    ensures
        match r {
            Some(k) => first_eq(s@, 0) == k && k < s@.len(),
            None => first_eq(s@, 0) < 0,
        },
{
    let n = s.unicode_len();
    let mut i: usize = 0;
    while i < n
        invariant
            n == s@.len(),
            i <= n,
            first_eq(s@, 0) == first_eq(s@, i as int),
        decreases n - i,
    {
        if s.get_char(i) == '=' {
            return Some(i);
        }
        i = i + 1;
    }
    None
}

/// The yes/no value written `v`.
fn bool_from(v: &str) -> (r: Option<bool>)
    ensures
        r == bool_of(v@),
{
    proof {
        reveal_strlit("true");
        reveal_strlit("false");
    }
    assert("true"@ =~= seq!['t', 'r', 'u', 'e']);
    assert("false"@ =~= seq!['f', 'a', 'l', 's', 'e']);
    if equal_at_whole(v, "true") {
        Some(true)
    } else if equal_at_whole(v, "false") {
        Some(false)
    } else {
        None
    }
}

/// Whether subcommand `sub` has option `f`.
fn allows(sub: Sub, f: Field) -> (r: bool)
    ensures
        r == allowed(sub, f),
{
    match sub {
        Sub::Run => true,
        Sub::List => !matches!(f, Field::DryRun),
        Sub::Conf | Sub::Service => matches!(f, Field::Path | Field::DryRun),
        Sub::Reset => matches!(f, Field::Path | Field::DryRun | Field::AllowlistGlob | Field::AllowlistPath),
        Sub::ShowExcluded => matches!(f, Field::Path | Field::AllowlistGlob | Field::AllowlistPath),
        Sub::MarkdownHelp => false,
    }
}

/// Whether option `f` of `sub` is a flag.
fn flag(sub: Sub, f: Field) -> (r: bool)
    ensures
        r == is_flag(sub, f),
{
    match f {
        Field::SkipErrors => true,
        Field::DryRun => !matches!(sub, Sub::Conf | Sub::Service),
        _ => false,
    }
}

/// Appends `v` to `list`.
fn push_value(list: &mut Vec<String>, v: &str)
    ensures
        views(final(list)@) == views(old(list)@).push(v@),
{
    list.push(String::from_str(v));
    assert(views(final(list)@) =~= views(old(list)@).push(v@));
}

impl Options {
    /// Reads option `f`, written `name`, with value `v` (empty for a flag).
    fn apply(&mut self, sub: Sub, f: Field, name: &str, v: &str) -> (r: Result<(), ArgsError>)
        ensures
            match apply_spec(sub, old(self)@, f, name@, v@) {
                Ok(o) => r is Ok && final(self)@ == o,
                Err(e) => r is Err && r->Err_0@ == e,
            },
    {
        match f {
            Field::Path => {
                if (!matches!(sub, Sub::Run | Sub::List)) && self.path.len() > 0 {
                    Err(ArgsError::Repeated(String::from_str(name)))
                } else {
                    push_value(&mut self.path, v);
                    Ok(())
                }
            },
            Field::DryRun => {
                if flag(sub, f) {
                    self.dry_run = true;
                    Ok(())
                } else if self.dry_run_value.is_some() {
                    Err(ArgsError::Repeated(String::from_str(name)))
                } else {
                    match bool_from(v) {
                        Some(b) => {
                            self.dry_run_value = Some(b);
                            Ok(())
                        },
                        None => Err(ArgsError::InvalidBool(String::from_str(v))),
                    }
                }
            },
            Field::AllowlistGlob => {
                push_value(&mut self.allowlist_glob, v);
                Ok(())
            },
            Field::AllowlistPath => {
                push_value(&mut self.allowlist_path, v);
                Ok(())
            },
            Field::SkipGlob => {
                push_value(&mut self.skip_glob, v);
                Ok(())
            },
            Field::SkipPath => {
                push_value(&mut self.skip_path, v);
                Ok(())
            },
            Field::SkipErrors => {
                self.skip_errors = true;
                Ok(())
            },
            Field::ExcludePath => {
                push_value(&mut self.exclude_path, v);
                Ok(())
            },
        }
    }
}

/// The command that subcommand `sub` with options `o` stands for.
fn finish(sub: Sub, o: Options) -> (r: Result<Command, ArgsError>)
    ensures
        match finish_spec(sub, o@) {
            Ok(c) => r is Ok && r->Ok_0@ == c,
            Err(e) => r is Err && r->Err_0@ == e,
        },
{
    if !matches!(sub, Sub::Run | Sub::List | Sub::MarkdownHelp) && o.path.len() == 0 {
        return Err(ArgsError::MissingPath);
    }
    match sub {
        Sub::Run => Ok(
            Command::Run {
                path: o.path,
                dry_run: o.dry_run,
                allowlist_glob: o.allowlist_glob,
                allowlist_path: o.allowlist_path,
                skip_glob: o.skip_glob,
                skip_path: o.skip_path,
                skip_errors: o.skip_errors,
                exclude_path: o.exclude_path,
            },
        ),
        Sub::List => Ok(
            Command::List {
                path: o.path,
                allowlist_glob: o.allowlist_glob,
                allowlist_path: o.allowlist_path,
                skip_glob: o.skip_glob,
                skip_path: o.skip_path,
                skip_errors: o.skip_errors,
                exclude_path: o.exclude_path,
            },
        ),
        Sub::Conf => Ok(Command::Conf { path: o.path[0].clone(), dry_run: o.dry_run_value }),
        Sub::Service => Ok(Command::Service { path: o.path[0].clone(), dry_run: o.dry_run_value }),
        Sub::Reset => Ok(
            Command::Reset {
                path: o.path[0].clone(),
                dry_run: o.dry_run,
                allowlist_glob: o.allowlist_glob,
                allowlist_path: o.allowlist_path,
            },
        ),
        Sub::ShowExcluded => Ok(
            Command::ShowExcluded {
                path: o.path[0].clone(),
                allowlist_glob: o.allowlist_glob,
                allowlist_path: o.allowlist_path,
            },
        ),
        Sub::MarkdownHelp => Ok(Command::MarkdownHelp),
    }
}

impl Args {
    /// Reads the command line `argv`, the program's name first, by the grammar
    /// that the program's command-line description declares.
    pub fn parse_from(argv: &[&str]) -> (r: Result<Args, ArgsError>)
        ensures
            match parse_spec(strs(argv@)) {
                Ok(c) => r is Ok && r->Ok_0.command@ == c,
                Err(e) => r is Err && r->Err_0@ == e,
            },
    {
        let ghost a = strs(argv@);
        if argv.len() < 2 {
            return Err(ArgsError::MissingCommand);
        }
        assert(a[1] == argv@[1]@);
        let sub = match sub_from(argv[1]) {
            None => {
                return Err(ArgsError::UnknownCommand(String::from_str(argv[1])));
            },
            Some(s) => s,
        };
        let mut o = Options {
            path: Vec::new(),
            dry_run: false,
            dry_run_value: None,
            allowlist_glob: Vec::new(),
            allowlist_path: Vec::new(),
            skip_glob: Vec::new(),
            skip_path: Vec::new(),
            skip_errors: false,
            exclude_path: Vec::new(),
        };
        assert(o@ =~= no_options()) by {
            assert(views(o.path@) =~= Seq::<Seq<char>>::empty());
            assert(views(o.allowlist_glob@) =~= Seq::<Seq<char>>::empty());
            assert(views(o.allowlist_path@) =~= Seq::<Seq<char>>::empty());
            assert(views(o.skip_glob@) =~= Seq::<Seq<char>>::empty());
            assert(views(o.skip_path@) =~= Seq::<Seq<char>>::empty());
            assert(views(o.exclude_path@) =~= Seq::<Seq<char>>::empty());
        }
        proof {
            reveal_strlit("");
        }
        assert(""@ =~= Seq::<char>::empty());
        let mut i: usize = 2;
        while i < argv.len()
            invariant
                a == strs(argv@),
                a.len() == argv@.len(),
                sub_of(a[1]) == Some(sub),
                2 <= i <= argv@.len(),
                options_spec(sub, a, 2, no_options()) == options_spec(sub, a, i as int, o@),
            decreases argv.len() - i,
        {
            let name = argv[i];
            assert(a[i as int] == name@);
            let n = name.unicode_len();
            let mut inline_field: Option<(Field, usize)> = None;
            match first_eq_index(name) {
                Some(k) => {
                    let head = name.substring_char(0, k);
                    match field_from(head) {
                        Some(f) => {
                            inline_field = Some((f, k));
                        },
                        None => {},
                    }
                },
                None => {},
            }
            match inline_field {
                Some((f, k)) => {
                    assert(is_inline(name@));
                    if !allows(sub, f) || flag(sub, f) {
                        return Err(ArgsError::UnknownOption(String::from_str(name)));
                    }
                    let head = name.substring_char(0, k);
                    let value = name.substring_char(k + 1, n);
                    match o.apply(sub, f, head, value) {
                        Err(e) => {
                            return Err(e);
                        },
                        Ok(_) => {},
                    }
                    i = i + 1;
                },
                None => {
                    assert(!is_inline(name@));
                    let f = match field_from(name) {
                        None => {
                            assert(options_spec(sub, a, i as int, o@) == Err::<OptionsView, ArgsErrorView>(
                                ArgsErrorView::UnknownOption(name@),
                            ));
                            return Err(ArgsError::UnknownOption(String::from_str(name)));
                        },
                        Some(f) => f,
                    };
                    if !allows(sub, f) {
                        return Err(ArgsError::UnknownOption(String::from_str(name)));
                    }
                    if flag(sub, f) {
                        match o.apply(sub, f, name, "") {
                            Err(e) => {
                                return Err(e);
                            },
                            Ok(_) => {},
                        }
                        i = i + 1;
                    } else if i + 1 >= argv.len() {
                        assert(options_spec(sub, a, i as int, o@) == Err::<OptionsView, ArgsErrorView>(
                            ArgsErrorView::MissingValue(name@),
                        ));
                        return Err(ArgsError::MissingValue(String::from_str(name)));
                    } else {
                        assert(a[i + 1] == argv@[i + 1]@);
                        match o.apply(sub, f, name, argv[i + 1]) {
                            Err(e) => {
                                return Err(e);
                            },
                            Ok(_) => {},
                        }
                        i = i + 2;
                    }
                },
            }
        }
        match finish(sub, o) {
            Ok(command) => Ok(Args { command }),
            Err(e) => Err(e),
        }
    }
}

} // verus!
