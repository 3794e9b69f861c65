use vstd::prelude::*;
use crate::text::{
    chars_of, decimal, extend_strings, find, find_spec, first_token, first_token_from,
    has_prefix, lines_of, lemma_lines_bounded, matches_at, parse_u32_chars, parse_u32_spec,
    push_str, same_text, split_lines, trim, trimmed, u64_to_decimal, views,
};

verus! {

/// What `git` printed and how it exited.
#[derive(Debug, Clone)]
pub struct GitCommandOutput {
    pub stdout: String,
    pub stderr: String,
    pub exit_code: i32,
}

/// A git operation requested through the API.
#[allow(inconsistent_fields)]
#[derive(Debug, Clone)]
pub enum GitOperation {
    Status,
    Add { paths: Vec<String>, all: Option<bool> },
    Reset { mode: Option<String>, paths: Vec<String> },
    Commit { message: String, all: Option<bool> },
    Log { max_count: Option<u32>, oneline: Option<bool> },
    Branch { name: Option<String>, delete: Option<bool>, list: Option<bool> },
    Checkout { target: String, create: Option<bool> },
    Merge { branch: String },
    Pull { remote: Option<String>, branch: Option<String> },
    Push { remote: Option<String>, branch: Option<String>, set_upstream: Option<bool> },
    Fetch { remote: Option<String>, prune: Option<bool> },
    Remote { name: Option<String>, url: Option<String>, remove: Option<bool>, list: Option<bool> },
    Clone { url: String, directory: Option<String> },
    Diff { cached: Option<bool>, paths: Vec<String> },
    Stash { action: String, message: Option<String> },
    Tag { name: String, message: Option<String>, delete: Option<bool>, list: Option<bool> },
    Raw { args: Vec<String> },
}

/// `flag`, or `default` when it is absent.
pub open spec fn flag(f: Option<bool>, default: bool) -> bool {
    match f {
        Some(b) => b,
        None => default,
    }
}

/// The one argument `o` holds, or none.
pub open spec fn opt_arg(o: Option<String>) -> Seq<Seq<char>> {
    match o {
        Some(s) => seq![s@],
        None => seq![],
    }
}

/// The text of `o`, or the empty text.
pub open spec fn text_or_empty(o: Option<String>) -> Seq<char> {
    match o {
        Some(s) => s@,
        None => seq![],
    }
}

/// The command-line arguments that run `op`.
pub open spec fn git_args(op: GitOperation) -> Seq<Seq<char>> {
    match op {
        GitOperation::Status => seq!["status"@, "--short"@, "--branch"@],
        GitOperation::Add { paths, all } => if flag(all, false) || paths@.len() == 0 {
            seq!["add"@, "-A"@]
        } else {
            seq!["add"@] + views(paths@)
        },
        GitOperation::Reset { mode, paths } => seq!["reset"@] + opt_arg(mode) + views(paths@),
        GitOperation::Commit { message, all } => if flag(all, false) {
            seq!["commit"@, "-a"@, "-m"@, message@]
        } else {
            seq!["commit"@, "-m"@, message@]
        },
        GitOperation::Log { max_count, oneline } => seq!["log"@] + (if flag(oneline, true) {
            seq!["--oneline"@]
        } else {
            seq![]
        }) + match max_count {
            Some(n) => seq!["-n"@ + decimal(n as nat)],
            None => seq!["-n"@, "30"@],
        },
        GitOperation::Branch { name, delete, list } => if flag(list, false) || name is None {
            seq!["branch"@, "-a"@, "--verbose"@]
        } else if flag(delete, false) {
            seq!["branch"@, "-d"@, text_or_empty(name)]
        } else {
            seq!["branch"@, text_or_empty(name)]
        },
        GitOperation::Checkout { target, create } => if flag(create, false) {
            seq!["checkout"@, "-b"@, target@]
        } else {
            seq!["checkout"@, target@]
        },
        GitOperation::Merge { branch } => seq!["merge"@, branch@],
        GitOperation::Pull { remote, branch } => seq!["pull"@] + opt_arg(remote) + opt_arg(branch),
        GitOperation::Push { remote, branch, set_upstream } => seq!["push"@] + (if flag(
            set_upstream,
            false,
        ) {
            seq!["-u"@]
        } else {
            seq![]
        }) + opt_arg(remote) + opt_arg(branch),
        GitOperation::Fetch { remote, prune } => (match remote {
            Some(r) => seq!["fetch"@, r@],
            None => seq!["fetch"@, "--all"@],
        }) + (if flag(prune, false) {
            seq!["--prune"@]
        } else {
            seq![]
        }),
        GitOperation::Remote { name, url, remove, list } => if flag(list, false) || (name is None
            && url is None) {
            seq!["remote"@, "-v"@]
        } else if flag(remove, false) {
            seq!["remote"@, "remove"@, text_or_empty(name)]
        } else {
            seq!["remote"@, "add"@, text_or_empty(name), text_or_empty(url)]
        },
        GitOperation::Clone { url, directory } => seq!["clone"@, url@] + opt_arg(directory),
        GitOperation::Diff { cached, paths } => seq!["diff"@] + (if flag(cached, false) {
            seq!["--cached"@]
        } else {
            seq![]
        }) + views(paths@),
        GitOperation::Stash { action, message } => if action@ == "list"@ {
            seq!["stash"@, "list"@]
        } else if action@ == "pop"@ {
            seq!["stash"@, "pop"@]
        } else if action@ == "apply"@ {
            seq!["stash"@, "apply"@]
        } else if action@ == "drop"@ {
            seq!["stash"@, "drop"@]
        } else {
            seq!["stash"@, "push"@] + match message {
                Some(m) => seq!["-m"@, m@],
                None => seq![],
            }
        },
        GitOperation::Tag { name, message, delete, list } => if flag(list, false) {
            seq!["tag"@, "-l"@]
        } else if flag(delete, false) {
            seq!["tag"@, "-d"@, name@]
        } else {
            match message {
                Some(m) => seq!["tag"@, "-a"@, name@, "-m"@, m@],
                None => seq!["tag"@, name@],
            }
        },
        GitOperation::Raw { args } => views(args@),
    }
}

fn flag_of(f: &Option<bool>, default: bool) -> (r: bool)
    ensures
        r == flag(*f, default),
{
    match f {
        Some(b) => *b,
        None => default,
    }
}

fn push_opt(v: &mut Vec<String>, o: &Option<String>)
    ensures
        views(final(v)@) == views(old(v)@) + opt_arg(*o),
{
    match o {
        Some(s) => {
            push_str(v, s.as_str());
        },
        None => {
            assert(views(v@) + opt_arg(*o) =~= views(v@));
        },
    }
}

fn push_text_or_empty(v: &mut Vec<String>, o: &Option<String>)
    ensures
        views(final(v)@) == views(old(v)@).push(text_or_empty(*o)),
{
    match o {
        Some(s) => {
            push_str(v, s.as_str());
        },
        None => {
            let ghost before = v@;
            v.push(String::new());
            assert(views(v@) =~= views(before).push(text_or_empty(*o)));
        },
    }
}

/// The command-line arguments that run `op`.
pub fn operation_to_args(op: &GitOperation) -> (r: Vec<String>)
    ensures
        views(r@) == git_args(*op),
{
    let mut a: Vec<String> = Vec::new();
    assert(views(a@) =~= Seq::<Seq<char>>::empty());
    match op {
        GitOperation::Status => {
            push_str(&mut a, "status");
            push_str(&mut a, "--short");
            push_str(&mut a, "--branch");
        },
        GitOperation::Add { paths, all } => {
            push_str(&mut a, "add");
            if flag_of(all, false) || paths.len() == 0 {
                push_str(&mut a, "-A");
            } else {
                extend_strings(&mut a, paths);
            }
        },
        GitOperation::Reset { mode, paths } => {
            push_str(&mut a, "reset");
            push_opt(&mut a, mode);
            extend_strings(&mut a, paths);
        },
        GitOperation::Commit { message, all } => {
            push_str(&mut a, "commit");
            if flag_of(all, false) {
                push_str(&mut a, "-a");
            }
            push_str(&mut a, "-m");
            push_str(&mut a, message.as_str());
        },
        GitOperation::Log { max_count, oneline } => {
            push_str(&mut a, "log");
            if flag_of(oneline, true) {
                push_str(&mut a, "--oneline");
            }
            match max_count {
                Some(n) => {
                    let mut arg = "-n".to_owned();
                    let digits = u64_to_decimal(*n as u64);
                    arg.append(digits.as_str());
                    push_str(&mut a, arg.as_str());
                },
                None => {
                    push_str(&mut a, "-n");
                    push_str(&mut a, "30");
                },
            }
        },
        GitOperation::Branch { name, delete, list } => {
            push_str(&mut a, "branch");
            if flag_of(list, false) || name.is_none() {
                push_str(&mut a, "-a");
                push_str(&mut a, "--verbose");
            } else {
                if flag_of(delete, false) {
                    push_str(&mut a, "-d");
                }
                push_text_or_empty(&mut a, name);
            }
        },
        GitOperation::Checkout { target, create } => {
            push_str(&mut a, "checkout");
            if flag_of(create, false) {
                push_str(&mut a, "-b");
            }
            push_str(&mut a, target.as_str());
        },
        GitOperation::Merge { branch } => {
            push_str(&mut a, "merge");
            push_str(&mut a, branch.as_str());
        },
        GitOperation::Pull { remote, branch } => {
            push_str(&mut a, "pull");
            push_opt(&mut a, remote);
            push_opt(&mut a, branch);
        },
        GitOperation::Push { remote, branch, set_upstream } => {
            push_str(&mut a, "push");
            if flag_of(set_upstream, false) {
                push_str(&mut a, "-u");
            }
            push_opt(&mut a, remote);
            push_opt(&mut a, branch);
        },
        GitOperation::Fetch { remote, prune } => {
            push_str(&mut a, "fetch");
            match remote {
                Some(r) => {
                    push_str(&mut a, r.as_str());
                },
                None => {
                    push_str(&mut a, "--all");
                },
            }
            if flag_of(prune, false) {
                push_str(&mut a, "--prune");
            }
        },
        GitOperation::Remote { name, url, remove, list } => {
            push_str(&mut a, "remote");
            if flag_of(list, false) || (name.is_none() && url.is_none()) {
                push_str(&mut a, "-v");
            } else if flag_of(remove, false) {
                push_str(&mut a, "remove");
                push_text_or_empty(&mut a, name);
            } else {
                push_str(&mut a, "add");
                push_text_or_empty(&mut a, name);
                push_text_or_empty(&mut a, url);
            }
        },
        GitOperation::Clone { url, directory } => {
            push_str(&mut a, "clone");
            push_str(&mut a, url.as_str());
            push_opt(&mut a, directory);
        },
        GitOperation::Diff { cached, paths } => {
            push_str(&mut a, "diff");
            if flag_of(cached, false) {
                push_str(&mut a, "--cached");
            }
            extend_strings(&mut a, paths);
        },
        GitOperation::Stash { action, message } => {
            push_str(&mut a, "stash");
            if same_text(action.as_str(), "list") {
                push_str(&mut a, "list");
            } else if same_text(action.as_str(), "pop") {
                push_str(&mut a, "pop");
            } else if same_text(action.as_str(), "apply") {
                push_str(&mut a, "apply");
            } else if same_text(action.as_str(), "drop") {
                push_str(&mut a, "drop");
            } else {
                push_str(&mut a, "push");
                match message {
                    Some(m) => {
                        push_str(&mut a, "-m");
                        push_str(&mut a, m.as_str());
                    },
                    None => {},
                }
            }
        },
        GitOperation::Tag { name, message, delete, list } => {
            push_str(&mut a, "tag");
            if flag_of(list, false) {
                push_str(&mut a, "-l");
            } else if flag_of(delete, false) {
                push_str(&mut a, "-d");
                push_str(&mut a, name.as_str());
            } else {
                match message {
                    Some(m) => {
                        push_str(&mut a, "-a");
                        push_str(&mut a, name.as_str());
                        push_str(&mut a, "-m");
                        push_str(&mut a, m.as_str());
                    },
                    None => {
                        push_str(&mut a, name.as_str());
                    },
                }
            }
        },
        GitOperation::Raw { args } => {
            extend_strings(&mut a, args);
        },
    }
    assert(views(a@) =~= git_args(*op));
    a
}


/// Why a git request was refused.
#[derive(Debug, Clone, Copy, PartialEq, Eq, Structural)]
pub enum GitError {
    ArgsEmpty,
    ConfigInjectionDenied,
    NotInitialized,
    PathInvalid,
    PathNotFound,
    PathNotDirectory,
    PathNotFile,
}

impl GitError {
    pub open spec fn key_text(self) -> Seq<char> {
        match self {
            GitError::ArgsEmpty => "git_args_empty"@,
            GitError::ConfigInjectionDenied => "git_config_injection_denied"@,
            GitError::NotInitialized => "git_not_initialized"@,
            GitError::PathInvalid => "git_path_invalid"@,
            GitError::PathNotFound => "git_path_not_found"@,
            GitError::PathNotDirectory => "git_path_not_directory"@,
            GitError::PathNotFile => "git_path_not_file"@,
        }
    }

    /// The message key of the error.
    pub fn key(&self) -> (r: &'static str)
        ensures
            r@ == self.key_text(),
    {
        match self {
            GitError::ArgsEmpty => "git_args_empty",
            GitError::ConfigInjectionDenied => "git_config_injection_denied",
            GitError::NotInitialized => "git_not_initialized",
            GitError::PathInvalid => "git_path_invalid",
            GitError::PathNotFound => "git_path_not_found",
            GitError::PathNotDirectory => "git_path_not_directory",
            GitError::PathNotFile => "git_path_not_file",
        }
    }
}

/// An argument that would let the caller override git's configuration.
pub open spec fn is_config_flag(a: Seq<char>) -> bool {
    a == "-c"@ || a == "--config"@
}

/// Checks the arguments before git runs: there must be some, and none may be
/// `-c` or `--config`.
pub fn validate_git_args(args: &Vec<String>) -> (r: Result<(), GitError>)
    ensures
        args@.len() == 0 ==> r == Err::<(), GitError>(GitError::ArgsEmpty),
        args@.len() > 0 && (exists|i: int| 0 <= i < args@.len() && is_config_flag(#[trigger] args@[i]@))
            ==> r == Err::<(), GitError>(GitError::ConfigInjectionDenied),
        args@.len() > 0 && !(exists|i: int| 0 <= i < args@.len() && is_config_flag(#[trigger] args@[i]@))
            ==> r is Ok,
{
    if args.len() == 0 {
        return Err(GitError::ArgsEmpty);
    }
    let mut i: usize = 0;
    while i < args.len()
        invariant
            i <= args@.len(),
            forall|j: int| 0 <= j < i ==> !is_config_flag(#[trigger] args@[j]@),
        decreases args@.len() - i,
    {
        if same_text(args[i].as_str(), "-c") || same_text(args[i].as_str(), "--config") {
            return Err(GitError::ConfigInjectionDenied);
        }
        i = i + 1;
    }
    Ok(())
}

/// What git is run with for the arguments `args`, or why it is refused before
/// it runs: no arguments, or a `-c`/`--config` among them.
pub open spec fn checked_args(args: Seq<Seq<char>>) -> Result<Seq<Seq<char>>, GitError> {
    if args.len() == 0 {
        Err(GitError::ArgsEmpty)
    } else if exists|i: int| 0 <= i < args.len() && is_config_flag(#[trigger] args[i]) {
        Err(GitError::ConfigInjectionDenied)
    } else {
        Ok(args)
    }
}

/// The arguments git runs with to carry out `op`: those `operation_to_args`
/// builds, once `validate_git_args` lets them through; its refusal otherwise.
pub fn operation_command(op: &GitOperation) -> (r: Result<Vec<String>, GitError>)
    ensures
        match (r, checked_args(git_args(*op))) {
            (Ok(a), Ok(b)) => views(a@) == b,
            (Err(a), Err(b)) => a == b,
            _ => false,
        },
{
    let args = operation_to_args(op);
    proof {
        assert forall|i: int| 0 <= i < args@.len() implies #[trigger] views(args@)[i] == args@[i]@ by {}
        if exists|i: int| 0 <= i < views(args@).len() && is_config_flag(#[trigger] views(args@)[i]) {
            let i = choose|i: int| 0 <= i < views(args@).len() && is_config_flag(#[trigger] views(args@)[i]);
            assert(is_config_flag(args@[i]@));
        }
        if exists|i: int| 0 <= i < args@.len() && is_config_flag(#[trigger] args@[i]@) {
            let i = choose|i: int| 0 <= i < args@.len() && is_config_flag(#[trigger] args@[i]@);
            assert(is_config_flag(views(args@)[i]));
        }
    }
    match validate_git_args(&args) {
        Ok(()) => Ok(args),
        Err(e) => Err(e),
    }
}

/// A raw operation runs git with exactly the arguments it gives, under the
/// same check: no arguments are refused as `git_args_empty`, and a `-c` or
/// `--config` among them as `git_config_injection_denied`, before git runs.
pub proof fn lemma_raw_operation_checked(args: Vec<String>)
    ensures
        checked_args(git_args(GitOperation::Raw { args })) == checked_args(views(args@)),
        args@.len() == 0 ==> checked_args(git_args(GitOperation::Raw { args })) == Err::<Seq<Seq<char>>, GitError>(GitError::ArgsEmpty),
        args@.len() > 0 && (exists|i: int| 0 <= i < args@.len() && is_config_flag(#[trigger] args@[i]@))
            ==> checked_args(git_args(GitOperation::Raw { args })) == Err::<Seq<Seq<char>>, GitError>(GitError::ConfigInjectionDenied),
{
    if args@.len() > 0 && (exists|i: int| 0 <= i < args@.len() && is_config_flag(#[trigger] args@[i]@)) {
        let i = choose|i: int| 0 <= i < args@.len() && is_config_flag(#[trigger] args@[i]@);
        assert(views(args@)[i] == args@[i]@);
    }
}

/// What a successful run yields (its trimmed output), or the message that a
/// failed one reports: trimmed stderr, else trimmed stdout, else
/// `git_command_failed`.
pub open spec fn git_ok_result(out: GitCommandOutput) -> Result<Seq<char>, Seq<char>> {
    if out.exit_code == 0 {
        Ok(trim(out.stdout@))
    } else {
        let msg = if trim(out.stderr@).len() == 0 {
            trim(out.stdout@)
        } else {
            trim(out.stderr@)
        };
        if msg.len() == 0 {
            Err("git_command_failed"@)
        } else {
            Err(msg)
        }
    }
}

/// The trimmed output of a successful run, or the reason a failed one gives.
pub fn run_git_ok(out: &GitCommandOutput) -> (r: Result<String, String>)
    ensures
        match (r, git_ok_result(*out)) {
            (Ok(a), Ok(b)) => a@ == b,
            (Err(a), Err(b)) => a@ == b,
            _ => false,
        },
{
    if out.exit_code == 0 {
        return Ok(trimmed(out.stdout.as_str()));
    }
    let err = trimmed(out.stderr.as_str());
    let msg = if err.as_str().is_empty() {
        trimmed(out.stdout.as_str())
    } else {
        err
    };
    if msg.as_str().is_empty() {
        Err("git_command_failed".to_owned())
    } else {
        Err(msg)
    }
}

/// Counts read from `git status --porcelain -b`.
#[derive(Debug, Clone, Copy, PartialEq, Eq, Structural)]
pub struct PorcelainCounts {
    pub ahead: u32,
    pub behind: u32,
    pub staged: u32,
    pub unstaged: u32,
    pub untracked: u32,
}

/// The tracking part of a `## ` header line: what stands before ` [`.
pub open spec fn header_tracking(line: Seq<char>) -> Option<Seq<char>> {
    if has_prefix(line, "## "@) {
        let rest = line.subrange(3, line.len() as int);
        match find_spec(rest, " ["@) {
            Some(i) => Some(rest.subrange(0, i)),
            None => None,
        }
    } else {
        None
    }
}

/// The number after `marker` in `tracking` (0 when it does not parse), or
/// nothing when `marker` does not occur.
pub open spec fn marker_value(tracking: Seq<char>, marker: Seq<char>) -> Option<u32> {
    match find_spec(tracking, marker) {
        Some(i) => Some(
            match parse_u32_spec(
                first_token(tracking.subrange(i + marker.len(), tracking.len() as int)),
            ) {
                Some(v) => v,
                None => 0,
            },
        ),
        None => None,
    }
}

/// The character at `i`, or a space past the end.
pub open spec fn char_or_space(l: Seq<char>, i: int) -> char {
    if 0 <= i < l.len() {
        l[i]
    } else {
        ' '
    }
}

/// The counts after one more line of porcelain output.
pub open spec fn count_line(c: (int, int, int, int, int), line: Seq<char>) -> (
    int,
    int,
    int,
    int,
    int,
) {
    let (ahead, behind, staged, unstaged, untracked) = c;
    if has_prefix(line, "##"@) {
        match header_tracking(line) {
            Some(t) => (
                match marker_value(t, "ahead "@) {
                    Some(v) => v as int,
                    None => ahead,
                },
                match marker_value(t, "behind "@) {
                    Some(v) => v as int,
                    None => behind,
                },
                staged,
                unstaged,
                untracked,
            ),
            None => c,
        }
    } else if has_prefix(line, "??"@) {
        (ahead, behind, staged, unstaged, untracked + 1)
    } else if under_two_bytes(line) {
        c
    } else {
        let x = char_or_space(line, 0);
        let y = char_or_space(line, 1);
        (
            ahead,
            behind,
            if x != ' ' && x != '?' {
                staged + 1
            } else {
                staged
            },
            if y != ' ' && y != '?' {
                unstaged + 1
            } else {
                unstaged
            },
            untracked,
        )
    }
}

/// The counts over all `lines`, in order.
pub open spec fn count_lines(lines: Seq<Seq<char>>) -> (int, int, int, int, int)
    decreases lines.len(),
{
    if lines.len() == 0 {
        (0, 0, 0, 0, 0)
    } else {
        count_line(count_lines(lines.drop_last()), lines.last())
    }
}

pub open spec fn counts_of(c: PorcelainCounts) -> (int, int, int, int, int) {
    (c.ahead as int, c.behind as int, c.staged as int, c.unstaged as int, c.untracked as int)
}

/// `l` takes fewer than two bytes in UTF-8: it is empty, or one ASCII
/// character (every other character takes two bytes or more).
pub open spec fn under_two_bytes(l: Seq<char>) -> bool {
    l.len() == 0 || (l.len() == 1 && (l[0] as u32) < 0x80)
}

fn marker_value_exec(t: &Vec<char>, marker: &str) -> (r: Option<u32>)
    ensures
        r == marker_value(t@, marker@),
{
    let m = chars_of(marker);
    let f = find(t, &m);
    match f {
        Some(i) => {
            assert(find_spec(t@, m@) == Some(i as int));
            assert(i + m@.len() <= t@.len());
            let ml = m.len();
            let tl = t.len();
            assert(i + ml <= tl);
            let tok = first_token_from(t, i + ml);
            let v = parse_u32_chars(&tok);
            match v {
                Some(v) => Some(v),
                None => Some(0),
            }
        },
        None => None,
    }
}

/// The characters of `l` from index `a` to index `b`.
fn slice_chars(l: &Vec<char>, a: usize, b: usize) -> (r: Vec<char>)
    requires
        a <= b <= l@.len(),
    ensures
        r@ == l@.subrange(a as int, b as int),
{
    let mut r: Vec<char> = Vec::new();
    let mut k = a;
    while k < b
        invariant
            a <= k <= b,
            b <= l@.len(),
            r@ == l@.subrange(a as int, k as int),
        decreases b - k,
    {
        r.push(l[k]);
        assert(l@.subrange(a as int, k + 1) =~= l@.subrange(a as int, k as int).push(l@[k as int]));
        k = k + 1;
    }
    r
}

/// The tracking part of a header line, when it has one.
fn header_tracking_exec(l: &Vec<char>) -> (r: Option<Vec<char>>)
    ensures
        match r {
            Some(t) => header_tracking(l@) == Some(t@),
            None => header_tracking(l@) is None,
        },
{
    let hdr = chars_of("## ");
    proof {
        reveal_strlit("## ");
    }
    if !matches_at(l, &hdr, 0) {
        return None;
    }
    assert(l@.subrange(0, 3) =~= "## "@);
    let rest = slice_chars(l, 3, l.len());
    let open = chars_of(" [");
    match find(&rest, &open) {
        Some(j) => Some(slice_chars(&rest, 0, j)),
        None => None,
    }
}

/// The counts after one more line.
fn apply_line(c: PorcelainCounts, line: &String) -> (r: PorcelainCounts)
    requires
        c.staged < u32::MAX,
        c.unstaged < u32::MAX,
        c.untracked < u32::MAX,
    ensures
        counts_of(r) == count_line(counts_of(c), line@),
        r.staged <= c.staged + 1,
        r.unstaged <= c.unstaged + 1,
        r.untracked <= c.untracked + 1,
{
    let l = chars_of(line.as_str());
    let hash2 = chars_of("##");
    let q2 = chars_of("??");
    let c0 = c;
    let mut c = c;
    assert(l@ == line@);
    if matches_at(&l, &hash2, 0) {
        assert(has_prefix(line@, "##"@));
        match header_tracking_exec(&l) {
            Some(t) => {
                if let Some(v) = marker_value_exec(&t, "ahead ") {
                    c.ahead = v;
                }
                if let Some(v) = marker_value_exec(&t, "behind ") {
                    c.behind = v;
                }
            },
            None => {},
        }
    } else if matches_at(&l, &q2, 0) {
        c.untracked = c.untracked + 1;
        assert(counts_of(c) == count_line(counts_of(c0), line@));
    } else if l.len() == 0 || (l.len() == 1 && (l[0] as u32) < 0x80) {
        assert(counts_of(c) == count_line(counts_of(c0), line@));
    } else {
        assert(!has_prefix(line@, "##"@));
        assert(!has_prefix(line@, "??"@));
        let x = if l.len() > 0 { l[0] } else { ' ' };
        let y = if l.len() > 1 { l[1] } else { ' ' };
        if x != ' ' && x != '?' {
            c.staged = c.staged + 1;
        }
        if y != ' ' && y != '?' {
            c.unstaged = c.unstaged + 1;
        }
    }
    c
}

/// Reads the counts from `git status --porcelain -b` output: the branch
/// header's ahead/behind numbers, untracked (`??`) entries, and entries
/// changed in the index (first column) or the work tree (second column).
pub fn porcelain_counts(porcelain: &str) -> (r: PorcelainCounts)
    requires
        porcelain@.len() < u32::MAX,
    ensures
        counts_of(r) == count_lines(split_lines(porcelain@)),
{
    let lines = lines_of(porcelain);
    proof {
        lemma_lines_bounded(porcelain@);
    }
    let mut c = PorcelainCounts { ahead: 0, behind: 0, staged: 0, unstaged: 0, untracked: 0 };
    let mut i: usize = 0;
    while i < lines.len()
        invariant
            i <= lines@.len(),
            lines@.len() < u32::MAX,
            views(lines@) == split_lines(porcelain@),
            counts_of(c) == count_lines(views(lines@).take(i as int)),
            c.staged <= i && c.unstaged <= i && c.untracked <= i,
        decreases lines@.len() - i,
    {
        let ghost ls = views(lines@).take(i + 1);
        assert(ls.drop_last() =~= views(lines@).take(i as int));
        assert(ls.last() == lines@[i as int]@);
        c = apply_line(c, &lines[i]);
        i = i + 1;
    }
    assert(views(lines@).take(lines@.len() as int) =~= views(lines@));
    c
}

/// The state of a repository's work tree.
#[derive(Debug, Clone)]
pub struct GitRepoStatus {
    pub branch: String,
    pub clean: bool,
    pub ahead: u32,
    pub behind: u32,
    pub staged: u32,
    pub unstaged: u32,
    pub untracked: u32,
    pub porcelain: String,
}

/// The status of a repository from what git reported: refused when the
/// repository has no `.git` directory; the branch is `HEAD` when git did not
/// name it, the porcelain text empty when git gave none, and the work tree is
/// clean when nothing is staged, changed or untracked.
pub fn repo_status(git_dir_exists: bool, branch: Option<String>, porcelain: Option<String>) -> (r:
    Result<GitRepoStatus, GitError>)
    requires
        porcelain matches Some(p) ==> p@.len() < u32::MAX,
    ensures
        !git_dir_exists ==> r == Err::<GitRepoStatus, GitError>(GitError::NotInitialized),
        git_dir_exists ==> (r matches Ok(st) && {
            let text = match porcelain {
                Some(p) => p@,
                None => seq![],
            };
            let c = count_lines(split_lines(text));
            &&& st.branch@ == match branch {
                Some(b) => b@,
                None => "HEAD"@,
            }
            &&& st.porcelain@ == text
            &&& st.ahead == c.0 && st.behind == c.1
            &&& st.staged == c.2 && st.unstaged == c.3 && st.untracked == c.4
            &&& st.clean == (c.2 == 0 && c.3 == 0 && c.4 == 0)
        }),
{
    if !git_dir_exists {
        return Err(GitError::NotInitialized);
    }
    let branch = match branch {
        Some(b) => b,
        None => "HEAD".to_owned(),
    };
    let porcelain = match porcelain {
        Some(p) => p,
        None => String::new(),
    };
    let c = porcelain_counts(porcelain.as_str());
    Ok(GitRepoStatus {
        branch,
        clean: c.staged == 0 && c.unstaged == 0 && c.untracked == 0,
        ahead: c.ahead,
        behind: c.behind,
        staged: c.staged,
        unstaged: c.unstaged,
        untracked: c.untracked,
        porcelain,
    })
}

} // verus!
