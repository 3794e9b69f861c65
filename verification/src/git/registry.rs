use vstd::prelude::*;
use crate::text::{all_id_chars, chars_of, is_id_char, same_text, trim, trimmed};

verus! {

/// The id of the repository that every workspace has.
pub const MAIN_REPO_ID: &'static str = "main";

/// A repository known to the workspace.
#[derive(Debug)]
pub struct GitRepoRecord {
    pub id: String,
    pub name: String,
    pub is_main: bool,
    pub created_at_ms: u64,
}

impl GitRepoRecord {
    pub fn duplicate(&self) -> (r: GitRepoRecord)
        ensures
            r == *self,
    {
        GitRepoRecord {
            id: self.id.clone(),
            name: self.name.clone(),
            is_main: self.is_main,
            created_at_ms: self.created_at_ms,
        }
    }
}

/// The registry file of the workspace's repositories.
#[derive(Debug)]
pub struct RegistryFile {
    pub version: u32,
    pub main_repo_id: String,
    pub repos: Vec<GitRepoRecord>,
}

impl RegistryFile {
    /// An empty registry, version 1, whose main repository is `main`.
    pub fn new_default() -> (r: RegistryFile)
        ensures
            r.version == 1,
            r.main_repo_id@ == MAIN_REPO_ID@,
            r.repos@.len() == 0,
    {
        RegistryFile { version: 1, main_repo_id: MAIN_REPO_ID.to_owned(), repos: Vec::new() }
    }
}

/// Why a repository request was refused.
#[derive(Debug, Clone, Copy, PartialEq, Eq, Structural)]
pub enum RepoError {
    IdEmpty,
    IdInvalid,
    NameEmpty,
    NotFound,
    AlreadyExists,
}

impl RepoError {
    pub open spec fn key_text(self) -> Seq<char> {
        match self {
            RepoError::IdEmpty => "git_repo_id_empty"@,
            RepoError::IdInvalid => "git_repo_id_invalid"@,
            RepoError::NameEmpty => "git_repo_name_empty"@,
            RepoError::NotFound => "git_repo_not_found"@,
            RepoError::AlreadyExists => "git_repo_already_exists"@,
        }
    }

    /// The message key of the error.
    pub fn key(&self) -> (r: &'static str)
        ensures
            r@ == self.key_text(),
    {
        match self {
            RepoError::IdEmpty => "git_repo_id_empty",
            RepoError::IdInvalid => "git_repo_id_invalid",
            RepoError::NameEmpty => "git_repo_name_empty",
            RepoError::NotFound => "git_repo_not_found",
            RepoError::AlreadyExists => "git_repo_already_exists",
        }
    }
}

/// All characters of `s` are identifier characters.
pub open spec fn all_id(s: Seq<char>) -> bool {
    forall|i: int| 0 <= i < s.len() ==> is_id_char(#[trigger] s[i])
}

/// What `validate_repo_id` gives for `raw`.
pub open spec fn repo_id_check(raw: Seq<char>) -> Result<Seq<char>, RepoError> {
    let id = trim(raw);
    if id.len() == 0 {
        Err(RepoError::IdEmpty)
    } else if !all_id(id) {
        Err(RepoError::IdInvalid)
    } else {
        Ok(id)
    }
}

/// A repository id: `raw` trimmed, not empty, made of ASCII letters, digits,
/// `_` and `-`.
pub fn validate_repo_id(raw: &str) -> (r: Result<String, RepoError>)
    ensures
        match (r, repo_id_check(raw@)) {
            (Ok(a), Ok(b)) => a@ == b,
            (Err(a), Err(b)) => a == b,
            _ => false,
        },
{
    let id = trimmed(raw);
    if id.as_str().is_empty() {
        return Err(RepoError::IdEmpty);
    }
    let v = chars_of(id.as_str());
    if !all_id_chars(&v) {
        return Err(RepoError::IdInvalid);
    }
    Ok(id)
}

/// A repository name: `raw` trimmed, not empty.
pub fn validate_repo_name(raw: &str) -> (r: Result<String, RepoError>)
    ensures
        trim(raw@).len() == 0 ==> r == Err::<String, RepoError>(RepoError::NameEmpty),
        trim(raw@).len() > 0 ==> (r matches Ok(n) && n@ == trim(raw@)),
{
    let name = trimmed(raw);
    if name.as_str().is_empty() {
        return Err(RepoError::NameEmpty);
    }
    Ok(name)
}

/// The index of the first record with id `id`.
pub fn position_of(repos: &Vec<GitRepoRecord>, id: &str) -> (r: Option<usize>)
    ensures
        match r {
            Some(i) => i < repos@.len() && repos@[i as int].id@ == id@ && forall|j: int|
                0 <= j < i ==> (#[trigger] repos@[j]).id@ != id@,
            None => forall|j: int| 0 <= j < repos@.len() ==> (#[trigger] repos@[j]).id@ != id@,
        },
{
    let mut i: usize = 0;
    while i < repos.len()
        invariant
            i <= repos@.len(),
            forall|j: int| 0 <= j < i ==> (#[trigger] repos@[j]).id@ != id@,
        decreases repos@.len() - i,
    {
        if same_text(repos[i].id.as_str(), id) {
            return Some(i);
        }
        i = i + 1;
    }
    None
}

/// The record with the (validated) id `repo_id`.
pub fn find_repo(registry: &RegistryFile, repo_id: &str) -> (r: Result<GitRepoRecord, RepoError>)
    ensures
        match repo_id_check(repo_id@) {
            Err(e) => r == Err::<GitRepoRecord, RepoError>(e),
            Ok(id) => match r {
                Ok(rec) => exists|i: int|
                    0 <= i < registry.repos@.len() && registry.repos@[i] == rec && rec.id@ == id
                        && forall|j: int| 0 <= j < i ==> (#[trigger] registry.repos@[j]).id@ != id,
                Err(e) => e == RepoError::NotFound && forall|j: int|
                    0 <= j < registry.repos@.len() ==> (#[trigger] registry.repos@[j]).id@ != id,
            },
        },
{
    let id = match validate_repo_id(repo_id) {
        Ok(id) => id,
        Err(e) => {
            return Err(e);
        },
    };
    match position_of(&registry.repos, id.as_str()) {
        Some(i) => Ok(registry.repos[i].duplicate()),
        None => Err(RepoError::NotFound),
    }
}

/// The record with its main flag cleared.
pub open spec fn unmarked(rec: GitRepoRecord) -> GitRepoRecord {
    GitRepoRecord { is_main: false, ..rec }
}

/// Clears the main flag of every record.
fn clear_main(repos: &mut Vec<GitRepoRecord>)
    ensures
        final(repos)@.len() == old(repos)@.len(),
        forall|i: int| 0 <= i < old(repos)@.len() ==> #[trigger] final(repos)@[i] == unmarked(old(repos)@[i]),
{
    let mut i: usize = 0;
    while i < repos.len()
        invariant
            i <= repos@.len(),
            repos@.len() == old(repos)@.len(),
            forall|j: int| 0 <= j < i ==> #[trigger] repos@[j] == unmarked(old(repos)@[j]),
            forall|j: int| i <= j < repos@.len() ==> #[trigger] repos@[j] == old(repos)@[j],
        decreases repos@.len() - i,
    {
        repos[i].is_main = false;
        i = i + 1;
    }
}

/// Adds a repository record created at `now_ms`: refused when the id or the
/// name does not validate or the id is taken. A main repository takes the
/// main flag from all others and becomes the registry's main repository.
pub fn add_repo(registry: &mut RegistryFile, id: &str, name: &str, is_main: bool, now_ms: u64) -> (r:
    Result<GitRepoRecord, RepoError>)
    ensures
        match r {
            Ok(rec) => {
                &&& repo_id_check(id@) == Ok::<Seq<char>, RepoError>(rec.id@)
                &&& trim(name@).len() > 0 && rec.name@ == trim(name@)
                &&& rec.is_main == is_main && rec.created_at_ms == now_ms
                &&& forall|j: int| 0 <= j < old(registry).repos@.len() ==> (#[trigger] old(registry).repos@[j]).id@ != rec.id@
                &&& final(registry).repos@.len() == old(registry).repos@.len() + 1
                &&& final(registry).repos@.last() == rec
                &&& forall|j: int| 0 <= j < old(registry).repos@.len() ==> #[trigger] final(registry).repos@[j] == if is_main {
                    unmarked(old(registry).repos@[j])
                } else {
                    old(registry).repos@[j]
                }
                &&& final(registry).main_repo_id@ == if is_main { rec.id@ } else { old(registry).main_repo_id@ }
                &&& final(registry).version == old(registry).version
            },
            Err(e) => {
                &&& *final(registry) == *old(registry)
                &&& match repo_id_check(id@) {
                    Err(ie) => e == ie,
                    Ok(vid) => if trim(name@).len() == 0 {
                        e == RepoError::NameEmpty
                    } else {
                        e == RepoError::AlreadyExists && exists|j: int| 0 <= j < old(registry).repos@.len() && (#[trigger] old(registry).repos@[j]).id@ == vid
                    },
                }
            },
        },
{
    let id = match validate_repo_id(id) {
        Ok(id) => id,
        Err(e) => {
            return Err(e);
        },
    };
    let name = match validate_repo_name(name) {
        Ok(n) => n,
        Err(e) => {
            return Err(e);
        },
    };
    if let Some(i) = position_of(&registry.repos, id.as_str()) {
        return Err(RepoError::AlreadyExists);
    }
    let record = GitRepoRecord { id, name, is_main, created_at_ms: now_ms };
    if is_main {
        clear_main(&mut registry.repos);
        registry.main_repo_id = record.id.clone();
    }
    registry.repos.push(record.duplicate());
    Ok(record)
}

/// The records of the registry, copied.
pub fn list_repos(registry: &RegistryFile) -> (r: Vec<GitRepoRecord>)
    ensures
        r@ == registry.repos@,
{
    let mut out: Vec<GitRepoRecord> = Vec::new();
    let mut i: usize = 0;
    while i < registry.repos.len()
        invariant
            i <= registry.repos@.len(),
            out@ == registry.repos@.take(i as int),
        decreases registry.repos@.len() - i,
    {
        out.push(registry.repos[i].duplicate());
        assert(registry.repos@.take(i + 1) =~= registry.repos@.take(i as int).push(registry.repos@[i as int]));
        i = i + 1;
    }
    assert(registry.repos@.take(registry.repos@.len() as int) =~= registry.repos@);
    out
}

/// What making sure of the main repository does to a registry `before`,
/// giving `after`, the record `rec` and whether it changed: a registered main
/// repository is given back with nothing changed; else one named `Main`,
/// made at `now_ms`, is added last, marked as the main one, and the others
/// lose their main flag.
pub open spec fn main_repo_ensured(before: RegistryFile, after: RegistryFile, rec: GitRepoRecord, changed: bool, now_ms: u64) -> bool {
    match position_spec(before.repos@, MAIN_REPO_ID@) {
        Some(i) => !changed && rec == before.repos@[i] && after == before,
        None => {
            &&& changed
            &&& rec.id@ == MAIN_REPO_ID@
            &&& rec.name@ == "Main"@ && rec.is_main && rec.created_at_ms == now_ms
            &&& after.repos@.len() == before.repos@.len() + 1
            &&& after.repos@.last() == rec
            &&& forall|j: int| 0 <= j < before.repos@.len() ==> #[trigger] after.repos@[j] == unmarked(before.repos@[j])
            &&& after.main_repo_id@ == MAIN_REPO_ID@
            &&& after.version == before.version
        },
    }
}

/// The workspace's main repository, registered at `now_ms` when it is not yet:
/// it is named `Main`, becomes the main repository and takes the main flag
/// from every other one. Says whether the registry changed.
pub fn ensure_main_repo(registry: &mut RegistryFile, now_ms: u64) -> (r: (GitRepoRecord, bool))
    ensures
        r.0.id@ == MAIN_REPO_ID@,
        main_repo_ensured(*old(registry), *final(registry), r.0, r.1, now_ms),
{
    match position_of(&registry.repos, MAIN_REPO_ID) {
        Some(i) => {
            proof {
                lemma_position_spec(registry.repos@, MAIN_REPO_ID@, i as int);
            }
            (registry.repos[i].duplicate(), false)
        },
        None => {
            proof {
                lemma_position_spec_none(registry.repos@, MAIN_REPO_ID@);
            }
            let record = GitRepoRecord {
                id: MAIN_REPO_ID.to_owned(),
                name: "Main".to_owned(),
                is_main: true,
                created_at_ms: now_ms,
            };
            registry.main_repo_id = MAIN_REPO_ID.to_owned();
            clear_main(&mut registry.repos);
            registry.repos.push(record.duplicate());
            (record, true)
        },
    }
}

/// The index of the first record with id `id`.
pub open spec fn position_spec(repos: Seq<GitRepoRecord>, id: Seq<char>) -> Option<int> {
    if exists|i: int| 0 <= i < repos.len() && (#[trigger] repos[i]).id@ == id {
        Some(choose|i: int| 0 <= i < repos.len() && repos[i].id@ == id && forall|j: int| 0 <= j < i ==> (#[trigger] repos[j]).id@ != id)
    } else {
        None
    }
}

proof fn lemma_position_spec(repos: Seq<GitRepoRecord>, id: Seq<char>, i: int)
    requires
        0 <= i < repos.len(),
        repos[i].id@ == id,
        forall|j: int| 0 <= j < i ==> (#[trigger] repos[j]).id@ != id,
    ensures
        position_spec(repos, id) == Some(i),
{
    let k = choose|k: int| 0 <= k < repos.len() && repos[k].id@ == id && forall|j: int| 0 <= j < k ==> (#[trigger] repos[j]).id@ != id;
    assert(repos[i].id@ == id);
    if k < i {
        assert(repos[k].id@ != id);
    }
    if i < k {
        assert(repos[i].id@ != id);
    }
}

proof fn lemma_position_spec_none(repos: Seq<GitRepoRecord>, id: Seq<char>)
    requires
        forall|j: int| 0 <= j < repos.len() ==> (#[trigger] repos[j]).id@ != id,
    ensures
        position_spec(repos, id) is None,
{
}

/// Making sure of the main repository a second time changes nothing and gives
/// the same record.
pub proof fn lemma_ensure_main_repo_idempotent(
    r0: RegistryFile,
    r1: RegistryFile,
    r2: RegistryFile,
    rec1: GitRepoRecord,
    rec2: GitRepoRecord,
    changed1: bool,
    changed2: bool,
    t1: u64,
    t2: u64,
)
    requires
        main_repo_ensured(r0, r1, rec1, changed1, t1),
        main_repo_ensured(r1, r2, rec2, changed2, t2),
    ensures
        !changed2,
        r2 == r1,
        rec2 == rec1,
{
    match position_spec(r0.repos@, MAIN_REPO_ID@) {
        Some(i) => {},
        None => {
            let n = r0.repos@.len();
            assert forall|j: int| 0 <= j < n implies (#[trigger] r1.repos@[j]).id@ != MAIN_REPO_ID@ by {
                assert(r1.repos@[j] == unmarked(r0.repos@[j]));
                if r0.repos@[j].id@ == MAIN_REPO_ID@ {
                    assert(exists|k: int| 0 <= k < r0.repos@.len() && (#[trigger] r0.repos@[k]).id@ == MAIN_REPO_ID@);
                }
            }
            assert(r1.repos@[n as int] == rec1);
            lemma_position_spec(r1.repos@, MAIN_REPO_ID@, n as int);
        },
    }
}

} // verus!
