pub mod explorer;
pub mod registry;
pub mod service;

use vstd::prelude::*;
use crate::git::registry::{ensure_main_repo, GitRepoRecord, RegistryFile};
use crate::git::service::{GitOperation, GitRepoStatus};
use crate::text::{chars_of, decimal, is_ascii_alnum, is_ascii_alphanumeric, lowercase, same_text, string_from_chars, to_lowercase, trim, trimmed, u64_to_decimal};

verus! {

/// A repository as the API shows it.
#[derive(Debug)]
pub struct GitRepoWire {
    pub id: String,
    pub name: String,
    pub is_main: bool,
    pub path: String,
    pub created_at_ms: u64,
    pub initialized: bool,
}

/// The repositories of a workspace as the API lists them.
#[derive(Debug)]
pub struct ListReposResponse {
    pub repos: Vec<GitRepoWire>,
    pub main_repo_id: String,
}

/// A request to register a repository.
#[derive(Debug)]
pub struct CreateRepoRequest {
    pub id: Option<String>,
    pub name: String,
}

/// A repository with its work-tree status, when it could be read.
#[derive(Debug)]
pub struct RepoDetailResponse {
    pub repo: GitRepoWire,
    pub status: Option<GitRepoStatus>,
}

/// A git operation that a request asks for.
#[derive(Debug)]
pub struct GitOperationRequest {
    pub operation: GitOperation,
}

/// A registered repository as the API shows it, at `path`, initialized when
/// it has a `.git` directory.
pub fn map_repo(record: GitRepoRecord, path: String, initialized: bool) -> (r: GitRepoWire)
    ensures
        r.id == record.id,
        r.name == record.name,
        r.is_main == record.is_main,
        r.path == path,
        r.created_at_ms == record.created_at_ms,
        r.initialized == initialized,
{
    GitRepoWire {
        id: record.id,
        name: record.name,
        is_main: record.is_main,
        path,
        created_at_ms: record.created_at_ms,
        initialized,
    }
}

/// Whether `key` is one of the error keys that git requests are refused with.
pub open spec fn known_git_key(key: Seq<char>) -> bool {
    ||| key == "git_repo_id_empty"@
    ||| key == "git_repo_id_invalid"@
    ||| key == "git_repo_name_empty"@
    ||| key == "git_repo_not_found"@
    ||| key == "git_repo_already_exists"@
    ||| key == "git_args_empty"@
    ||| key == "git_config_injection_denied"@
    ||| key == "git_not_initialized"@
    ||| key == "git_project_empty"@
    ||| key == "git_project_invalid"@
    ||| key == "git_project_not_found"@
}

/// How a refused git request is answered: a missing repository or project
/// with 404 and the key `git_repo_not_found`; another known error with 400
/// and its own key (to be translated); anything else with 400 and the raw
/// message, which is then shown as it is (the flag says whether to translate).
pub fn map_err(key: &str) -> (r: (u16, String, bool))
    ensures
        (key@ == "git_repo_not_found"@ || key@ == "git_project_not_found"@) ==> r.0 == 404 && r.1@ == "git_repo_not_found"@ && r.2,
        !(key@ == "git_repo_not_found"@ || key@ == "git_project_not_found"@) && known_git_key(key@) ==> r.0 == 400 && r.1@ == key@ && r.2,
        !known_git_key(key@) ==> r.0 == 400 && r.1@ == key@ && !r.2,
{
    if same_text(key, "git_repo_not_found") || same_text(key, "git_project_not_found") {
        return (404, "git_repo_not_found".to_owned(), true);
    }
    let known = same_text(key, "git_repo_id_empty") || same_text(key, "git_repo_id_invalid")
        || same_text(key, "git_repo_name_empty") || same_text(key, "git_repo_already_exists")
        || same_text(key, "git_args_empty") || same_text(key, "git_config_injection_denied")
        || same_text(key, "git_not_initialized") || same_text(key, "git_project_empty")
        || same_text(key, "git_project_invalid");
    (400, key.to_owned(), known)
}

/// Makes sure the workspace has its main repository registered (at `now_ms`
/// when it was not); says whether the registry changed.
pub fn ensure_workspace_repos(registry: &mut RegistryFile, now_ms: u64) -> (changed: bool)
    ensures
        exists|i: int| 0 <= i < final(registry).repos@.len() && (#[trigger] final(registry).repos@[i]).id@ == crate::git::registry::MAIN_REPO_ID@,
        !changed ==> *final(registry) == *old(registry),
{
    let (rec, changed) = ensure_main_repo(registry, now_ms);
    proof {
        if !changed {
            let i = crate::git::registry::position_spec(old(registry).repos@, crate::git::registry::MAIN_REPO_ID@).unwrap();
            assert(final(registry).repos@[i].id@ == crate::git::registry::MAIN_REPO_ID@);
        } else {
            assert(final(registry).repos@[final(registry).repos@.len() - 1].id@ == crate::git::registry::MAIN_REPO_ID@);
        }
    }
    changed
}

/// A character of a repository id made from a name: ASCII letters, digits,
/// `-` and `_` stay, anything else becomes `-`.
pub open spec fn repo_slug_char(c: char) -> char {
    if is_ascii_alnum(c) || c == '-' || c == '_' {
        c
    } else {
        '-'
    }
}

/// `s` without its leading `-`s.
pub open spec fn strip_lead_dashes(s: Seq<char>) -> Seq<char>
    decreases s.len(),
{
    if s.len() > 0 && s[0] == '-' {
        strip_lead_dashes(s.drop_first())
    } else {
        s
    }
}

/// `s` without its trailing `-`s.
pub open spec fn strip_trail_dashes(s: Seq<char>) -> Seq<char>
    decreases s.len(),
{
    if s.len() > 0 && s.last() == '-' {
        strip_trail_dashes(s.drop_last())
    } else {
        s
    }
}

/// The id a repository named `name` gets: the trimmed, lower-cased name with
/// other characters turned into `-` and no `-` at either end; `repo-<now>`
/// when nothing is left.
pub open spec fn repo_slug(name: Seq<char>, now_ms: u64) -> Seq<char> {
    repo_slug_lowered(lowercase(trim(name)), now_ms)
}

/// The id a repository gets from `lower`, its trimmed, lower-cased name:
/// other characters turned into `-`, no `-` at either end, and `repo-<now>`
/// when nothing is left.
pub open spec fn repo_slug_lowered(lower: Seq<char>, now_ms: u64) -> Seq<char> {
    let s = strip_trail_dashes(strip_lead_dashes(lower.map_values(|c: char| repo_slug_char(c))));
    if s.len() == 0 {
        "repo-"@ + decimal(now_ms as nat)
    } else {
        s
    }
}

/// The id a repository named `name` gets when it is created at `now_ms`.
pub fn slugify_repo_id(name: &str, now_ms: u64) -> (r: String)
    ensures
        r@ == repo_slug(name@, now_ms),
{
    let t = trimmed(name);
    let low = to_lowercase(t.as_str());
    slugify_lowered(low.as_str(), now_ms)
}

/// The id a repository gets, created at `now_ms`, from `lower`, its trimmed,
/// lower-cased name.
pub fn slugify_lowered(lower: &str, now_ms: u64) -> (r: String)
    ensures
        r@ == repo_slug_lowered(lower@, now_ms),
{
    let v = chars_of(lower);
    let ghost mapped = v@.map_values(|c: char| repo_slug_char(c));
    let mut m: Vec<char> = Vec::new();
    let mut i: usize = 0;
    while i < v.len()
        invariant
            i <= v@.len(),
            m@ == v@.take(i as int).map_values(|c: char| repo_slug_char(c)),
        decreases v@.len() - i,
    {
        let c = v[i];
        let d = if is_ascii_alphanumeric(c) || c == '-' || c == '_' { c } else { '-' };
        m.push(d);
        assert(v@.take(i + 1).map_values(|c: char| repo_slug_char(c)) =~= v@.take(i as int).map_values(|c: char| repo_slug_char(c)).push(repo_slug_char(v@[i as int])));
        i = i + 1;
    }
    assert(v@.take(v@.len() as int) =~= v@);
    assert(m@ == mapped);
    let n = m.len();
    let mut a: usize = 0;
    assert(m@.subrange(0, n as int) =~= m@);
    while a < n && m[a] == '-'
        invariant
            a <= n,
            n == m@.len(),
            strip_lead_dashes(m@) == strip_lead_dashes(m@.subrange(a as int, n as int)),
        decreases n - a,
    {
        assert(m@.subrange(a as int, n as int).drop_first() =~= m@.subrange(a + 1, n as int));
        a = a + 1;
    }
    let ghost lead = m@.subrange(a as int, n as int);
    let mut b: usize = n;
    assert(lead.subrange(0, (n - a) as int) =~= lead);
    while b > a && m[b - 1] == '-'
        invariant
            a <= b <= n,
            n == m@.len(),
            lead == m@.subrange(a as int, n as int),
            strip_trail_dashes(lead) == strip_trail_dashes(m@.subrange(a as int, b as int)),
        decreases b,
    {
        assert(m@.subrange(a as int, b as int).drop_last() =~= m@.subrange(a as int, b - 1));
        b = b - 1;
    }
    if a == b {
        let mut s = "repo-".to_string();
        let d = u64_to_decimal(now_ms);
        s.append(d.as_str());
        return s;
    }
    let mut out: Vec<char> = Vec::new();
    let mut k = a;
    while k < b
        invariant
            a <= k <= b <= n,
            n == m@.len(),
            out@ == m@.subrange(a as int, k as int),
        decreases b - k,
    {
        out.push(m[k]);
        assert(m@.subrange(a as int, k + 1) =~= m@.subrange(a as int, k as int).push(m@[k as int]));
        k = k + 1;
    }
    string_from_chars(&out)
}

/// The directory a clone goes into under the repository's directory: the one
/// asked for unless it is blank, else `clone`.
pub open spec fn clone_dir_name(directory: Option<String>) -> Seq<char> {
    match directory {
        Some(d) => if trim(d@).len() > 0 { d@ } else { "clone"@ },
        None => "clone"@,
    }
}

/// What cloning asks of git: for a clone operation, the directory it clones
/// into and the arguments `clone <url> <directory>`; none for another operation.
pub fn clone_request(op: &GitOperation) -> (r: Option<(String, Vec<String>)>)
    ensures
        match *op {
            GitOperation::Clone { url, directory } => r matches Some((dir, args)) && dir@ == clone_dir_name(directory)
                && args@.len() == 3 && args@[0]@ == "clone"@ && args@[1]@ == url@ && args@[2]@ == dir@,
            _ => r is None,
        },
{
    match op {
        GitOperation::Clone { url, directory } => {
            let dir = match directory {
                Some(d) => {
                    let t = trimmed(d.as_str());
                    if t.as_str().is_empty() {
                        "clone".to_string()
                    } else {
                        d.clone()
                    }
                },
                None => "clone".to_string(),
            };
            let mut args: Vec<String> = Vec::new();
            args.push("clone".to_string());
            args.push(url.clone());
            args.push(dir.clone());
            Some((dir, args))
        },
        _ => None,
    }
}

} // verus!
