use vstd::prelude::*;
use crate::git::service::GitError;
use vstd::multiset::Multiset;
use crate::text::{
    chars_le, chars_le_exec, chars_of, ends_with, lemma_chars_le_refl, lemma_chars_le_total, lemma_chars_le_trans, lowercase, string_from_chars, to_lowercase, has_suffix, lines_of, same_text, split_lines, trim, trimmed, views,
};

verus! {

/// A branch of a repository.
#[derive(Debug)]
pub struct BranchInfo {
    pub name: String,
    pub current: bool,
    pub remote: bool,
}

/// The branches of a repository and the one checked out.
#[derive(Debug)]
pub struct BranchList {
    pub current: String,
    pub branches: Vec<BranchInfo>,
}

/// The names that a `for-each-ref` listing holds: its lines trimmed, the
/// empty ones left out; for remote refs, the symbolic `.../HEAD` ones too.
pub open spec fn ref_names(lines: Seq<Seq<char>>, remote: bool) -> Seq<Seq<char>>
    decreases lines.len(),
{
    if lines.len() == 0 {
        seq![]
    } else {
        let rest = ref_names(lines.drop_last(), remote);
        let t = trim(lines.last());
        if t.len() == 0 || (remote && has_suffix(t, "/HEAD"@)) {
            rest
        } else {
            rest.push(t)
        }
    }
}

/// `out` continued by one branch per name of `names`, each current when it is
/// `current` and the list is local.
pub open spec fn branches_follow(
    before: Seq<BranchInfo>,
    after: Seq<BranchInfo>,
    names: Seq<Seq<char>>,
    current: Seq<char>,
    remote: bool,
) -> bool {
    &&& after.len() == before.len() + names.len()
    &&& after.take(before.len() as int) == before
    &&& forall|i: int|
        0 <= i < names.len() ==> {
            let b = #[trigger] after[before.len() + i];
            &&& b.name@ == names[i]
            &&& b.remote == remote
            &&& b.current == (!remote && names[i] == current)
        }
}

/// Appends the branches that the listing `text` names.
fn push_branches(out: &mut Vec<BranchInfo>, text: &str, current: &str, remote: bool)
    ensures
        branches_follow(old(out)@, final(out)@, ref_names(split_lines(text@), remote), current@, remote),
{
    let lines = lines_of(text);
    let ghost ls = views(lines@);
    let ghost before = out@;
    let mut i: usize = 0;
    proof {
        assert(ls.take(0) =~= Seq::<Seq<char>>::empty());
        assert(out@.take(before.len() as int) =~= before);
    }
    while i < lines.len()
        invariant
            i <= lines@.len(),
            ls == views(lines@),
            ls == split_lines(text@),
            branches_follow(before, out@, ref_names(ls.take(i as int), remote), current@, remote),
        decreases lines@.len() - i,
    {
        let name = trimmed(lines[i].as_str());
        proof {
            assert(ls.take(i + 1).drop_last() =~= ls.take(i as int));
            assert(ls.take(i + 1).last() == lines@[i as int]@);
        }
        let skip = name.as_str().is_empty() || (remote && ends_with(name.as_str(), "/HEAD"));
        if !skip {
            let is_current = !remote && same_text(name.as_str(), current);
            let ghost mid = out@;
            out.push(BranchInfo { name, current: is_current, remote });
            proof {
                let names = ref_names(ls.take(i + 1), remote);
                assert(out@.take(before.len() as int) =~= mid.take(before.len() as int));
                assert forall|k: int| 0 <= k < names.len() implies {
                    let b = #[trigger] out@[before.len() + k];
                    &&& b.name@ == names[k]
                    &&& b.remote == remote
                    &&& b.current == (!remote && names[k] == current@)
                } by {
                    if k < names.len() - 1 {
                        assert(out@[before.len() + k] == mid[before.len() + k]);
                    }
                }
            }
        }
        i = i + 1;
    }
    proof {
        assert(ls.take(lines@.len() as int) =~= ls);
    }
}

/// The branch that `rev-parse --abbrev-ref HEAD` named, `HEAD` when it failed.
pub open spec fn head_name(head: Option<String>) -> Seq<char> {
    match head {
        Some(h) => h@,
        None => "HEAD"@,
    }
}

/// The names of a `for-each-ref` listing, none when it failed.
pub open spec fn listed_names(listing: Option<String>, remote: bool) -> Seq<Seq<char>> {
    match listing {
        Some(t) => ref_names(split_lines(t@), remote),
        None => seq![],
    }
}

/// The branches of a repository from what git reported: refused when the
/// repository has no `.git` directory. `head` is what `rev-parse --abbrev-ref
/// HEAD` gave (`HEAD` when it failed); `locals` and `remotes` what
/// `for-each-ref` listed under `refs/heads` and `refs/remotes` (nothing when it
/// failed). Local branches come first, then the remote ones without the
/// symbolic `.../HEAD` refs.
pub fn list_branches(
    git_dir_exists: bool,
    head: Option<String>,
    locals: Option<String>,
    remotes: Option<String>,
) -> (r: Result<BranchList, GitError>)
    ensures
        !git_dir_exists ==> r == Err::<BranchList, GitError>(GitError::NotInitialized),
        git_dir_exists ==> r is Ok,
        r matches Ok(list) ==> list.current@ == head_name(head),
        r matches Ok(list) ==> exists|mid: Seq<BranchInfo>|
            branches_follow(seq![], mid, listed_names(locals, false), head_name(head), false)
                && branches_follow(mid, list.branches@, listed_names(remotes, true), head_name(head), true),
{
    if !git_dir_exists {
        return Err(GitError::NotInitialized);
    }
    let ghost head0 = head;
    let ghost locals0 = locals;
    let ghost remotes0 = remotes;
    let current = match head {
        Some(h) => h,
        None => "HEAD".to_owned(),
    };
    let locals = match locals {
        Some(t) => t,
        None => String::new(),
    };
    let remotes = match remotes {
        Some(t) => t,
        None => String::new(),
    };
    proof {
        assert(split_lines(Seq::<char>::empty()) == Seq::<Seq<char>>::empty());
        assert(ref_names(Seq::<Seq<char>>::empty(), false) == Seq::<Seq<char>>::empty());
        assert(ref_names(Seq::<Seq<char>>::empty(), true) == Seq::<Seq<char>>::empty());
    }
    let mut branches: Vec<BranchInfo> = Vec::new();
    proof {
        assert(branches@ =~= Seq::<BranchInfo>::empty());
    }
    push_branches(&mut branches, locals.as_str(), current.as_str(), false);
    let ghost mid = branches@;
    push_branches(&mut branches, remotes.as_str(), current.as_str(), true);
    proof {
        let local_names = ref_names(split_lines(locals@), false);
        let remote_names = ref_names(split_lines(remotes@), true);
        let cur = head_name(head0);
        assert(cur == current@);
        assert(local_names == listed_names(locals0, false));
        assert(remote_names == listed_names(remotes0, true));
        assert(branches_follow(seq![], mid, local_names, current@, false));
        assert(branches_follow(mid, branches@, remote_names, current@, true));
        assert(exists|m: Seq<BranchInfo>|
            branches_follow(seq![], m, local_names, cur, false)
                && branches_follow(m, branches@, remote_names, cur, true));
    }
    Ok(BranchList { current, branches })
}

/// An entry of a directory listing.
#[derive(Debug)]
pub struct TreeEntry {
    pub name: String,
    pub path: String,
    pub is_dir: bool,
    pub size: u64,
}

impl TreeEntry {
    pub fn duplicate(&self) -> (r: TreeEntry)
        ensures
            r == *self,
    {
        TreeEntry {
            name: self.name.clone(),
            path: self.path.clone(),
            is_dir: self.is_dir,
            size: self.size,
        }
    }
}

/// A directory of a repository and its entries.
#[derive(Debug)]
pub struct TreeListing {
    pub path: String,
    pub entries: Vec<TreeEntry>,
}

/// A file of a repository, as far as it is shown.
#[derive(Debug)]
pub struct FileContent {
    pub path: String,
    pub content: String,
    pub size: u64,
    pub binary: bool,
    pub truncated: bool,
}

/// Files larger than this many bytes are shown cut to it.
pub const MAX_FILE_BYTES: u64 = 1048576;

/// A file with a zero byte among its first this many bytes is binary.
pub const BINARY_SNIFF_BYTES: usize = 8000;

/// Whether `a` may stand before `b` in a listing: directories first, then by
/// lower-cased name.
pub open spec fn entry_le(a: TreeEntry, b: TreeEntry) -> bool {
    if a.is_dir != b.is_dir {
        a.is_dir
    } else {
        chars_le(lowercase(a.name@), lowercase(b.name@))
    }
}

proof fn lemma_entry_le_total(a: TreeEntry, b: TreeEntry)
    ensures
        entry_le(a, b) || entry_le(b, a),
{
    lemma_chars_le_total(lowercase(a.name@), lowercase(b.name@));
}

proof fn lemma_entry_le_trans(a: TreeEntry, b: TreeEntry, c: TreeEntry)
    requires
        entry_le(a, b),
        entry_le(b, c),
    ensures
        entry_le(a, c),
{
    if a.is_dir == b.is_dir && b.is_dir == c.is_dir {
        lemma_chars_le_trans(lowercase(a.name@), lowercase(b.name@), lowercase(c.name@));
    }
}

/// Whether `a` may stand before `b` in a listing.
fn entry_le_exec(a: &TreeEntry, b: &TreeEntry) -> (r: bool)
    ensures
        r == entry_le(*a, *b),
{
    if a.is_dir != b.is_dir {
        a.is_dir
    } else {
        let la = to_lowercase(a.name.as_str());
        let lb = to_lowercase(b.name.as_str());
        chars_le_exec(&chars_of(la.as_str()), &chars_of(lb.as_str()))
    }
}

/// The entries of `s` other than `.git`.
pub open spec fn visible_entries(s: Seq<TreeEntry>) -> Seq<TreeEntry>
    decreases s.len(),
{
    if s.len() == 0 {
        seq![]
    } else if s.last().name@ == ".git"@ {
        visible_entries(s.drop_last())
    } else {
        visible_entries(s.drop_last()).push(s.last())
    }
}

/// Whether `s` is in listing order.
pub open spec fn listing_sorted(s: Seq<TreeEntry>) -> bool {
    forall|i: int, j: int| 0 <= i < j < s.len() ==> entry_le(#[trigger] s[i], #[trigger] s[j])
}

/// What a listing sorts an entry by: whether it is a directory, and its
/// lower-cased name.
pub open spec fn entry_key(e: TreeEntry) -> (bool, Seq<char>) {
    (e.is_dir, lowercase(e.name@))
}

/// The entries of `s` that sort as key `k`, in order.
pub open spec fn with_entry_key(s: Seq<TreeEntry>, k: (bool, Seq<char>)) -> Seq<TreeEntry>
    decreases s.len(),
{
    if s.len() == 0 {
        seq![]
    } else if entry_key(s.last()) == k {
        with_entry_key(s.drop_last(), k).push(s.last())
    } else {
        with_entry_key(s.drop_last(), k)
    }
}

proof fn lemma_with_entry_key_add(a: Seq<TreeEntry>, b: Seq<TreeEntry>, k: (bool, Seq<char>))
    ensures
        with_entry_key(a + b, k) == with_entry_key(a, k) + with_entry_key(b, k),
    decreases b.len(),
{
    if b.len() == 0 {
        assert(a + b =~= a);
        assert(with_entry_key(a, k) + with_entry_key(b, k) =~= with_entry_key(a, k));
    } else {
        assert((a + b).drop_last() =~= a + b.drop_last());
        assert((a + b).last() == b.last());
        lemma_with_entry_key_add(a, b.drop_last(), k);
        if entry_key(b.last()) == k {
            assert(with_entry_key(a, k) + with_entry_key(b.drop_last(), k).push(b.last()) =~= (with_entry_key(a, k)
                + with_entry_key(b.drop_last(), k)).push(b.last()));
        }
    }
}

proof fn lemma_with_entry_key_none(s: Seq<TreeEntry>, k: (bool, Seq<char>))
    requires
        forall|i: int| 0 <= i < s.len() ==> entry_key(#[trigger] s[i]) != k,
    ensures
        with_entry_key(s, k) == Seq::<TreeEntry>::empty(),
    decreases s.len(),
{
    if s.len() > 0 {
        assert(s.last() == s[s.len() - 1]);
        lemma_with_entry_key_none(s.drop_last(), k);
    }
}

/// Inserts `x` into the sorted `out` after every entry that may stand before it.
fn insert_sorted(out: &mut Vec<TreeEntry>, x: TreeEntry)
    requires
        listing_sorted(old(out)@),
    ensures
        listing_sorted(final(out)@),
        final(out)@.to_multiset() == old(out)@.to_multiset().insert(x),
        forall|k: (bool, Seq<char>)| #[trigger] with_entry_key(final(out)@, k) == (if entry_key(x) == k {
            with_entry_key(old(out)@, k).push(x)
        } else {
            with_entry_key(old(out)@, k)
        }),
{
    let mut p: usize = 0;
    while p < out.len() && entry_le_exec(&out[p], &x)
        invariant
            p <= out@.len(),
            forall|k: int| 0 <= k < p ==> entry_le(#[trigger] out@[k], x),
        decreases out@.len() - p,
    {
        p = p + 1;
    }
    let ghost before = out@;
    proof {
        if p < before.len() {
            lemma_entry_le_total(before[p as int], x);
        }
    }
    out.insert(p, x);
    proof {
        broadcast use vstd::seq_lib::group_to_multiset_ensures;
        assert forall|i: int, j: int| 0 <= i < j < out@.len() implies entry_le(#[trigger] out@[i], #[trigger] out@[j]) by {
            if j < p {
                assert(out@[i] == before[i] && out@[j] == before[j]);
            } else if j == p {
                assert(out@[i] == before[i]);
            } else if i == p {
                assert(out@[j] == before[j - 1]);
                if j - 1 > p {
                    assert(entry_le(before[p as int], before[j - 1]));
                } else {
                    lemma_chars_le_refl(lowercase(before[p as int].name@));
                }
                lemma_entry_le_trans(x, before[p as int], before[j - 1]);
            } else if i < p {
                assert(out@[i] == before[i] && out@[j] == before[j - 1]);
            } else {
                assert(out@[i] == before[i - 1] && out@[j] == before[j - 1]);
            }
        }
    }
    proof {
        assert forall|k: int| p <= k < before.len() implies entry_key(#[trigger] before[k]) != entry_key(x) by {
            if entry_key(before[k]) == entry_key(x) {
                lemma_chars_le_refl(lowercase(x.name@));
                assert(entry_le(before[k], x));
                if k > p {
                    assert(entry_le(before[p as int], before[k]));
                    lemma_entry_le_trans(before[p as int], before[k], x);
                }
            }
        }
        let head = before.take(p as int);
        let tail = before.skip(p as int);
        assert(before =~= head + tail);
        assert(out@ =~= head + (seq![x] + tail));
        assert forall|k: (bool, Seq<char>)| #[trigger] with_entry_key(out@, k) == (if entry_key(x) == k {
            with_entry_key(before, k).push(x)
        } else {
            with_entry_key(before, k)
        }) by {
            lemma_with_entry_key_add(head, seq![x] + tail, k);
            lemma_with_entry_key_add(seq![x], tail, k);
            lemma_with_entry_key_add(head, tail, k);
            assert(seq![x].drop_last() =~= Seq::<TreeEntry>::empty());
            assert(seq![x].last() == x);
            assert(with_entry_key(Seq::<TreeEntry>::empty(), k) =~= Seq::<TreeEntry>::empty());
            assert(with_entry_key(seq![x].drop_last(), k) =~= Seq::<TreeEntry>::empty());
            if entry_key(x) == k {
                assert forall|i: int| 0 <= i < tail.len() implies entry_key(#[trigger] tail[i]) != k by {
                    assert(tail[i] == before[p + i]);
                }
                lemma_with_entry_key_none(tail, k);
                assert(with_entry_key(seq![x], k) =~= seq![x]);
                assert(with_entry_key(before, k) =~= with_entry_key(head, k));
                assert(with_entry_key(out@, k) =~= with_entry_key(head, k).push(x));
            } else {
                assert(with_entry_key(seq![x], k) =~= Seq::<TreeEntry>::empty());
                assert(with_entry_key(out@, k) =~= with_entry_key(head, k) + with_entry_key(tail, k));
            }
        }
    }
}

/// The entries of a directory in listing order: `.git` left out, directories
/// first, then by lower-cased name.
pub fn sort_tree_entries(raw: &Vec<TreeEntry>) -> (r: Vec<TreeEntry>)
    ensures
        listing_sorted(r@),
        r@.to_multiset() == visible_entries(raw@).to_multiset(),
        forall|k: (bool, Seq<char>)| #[trigger] with_entry_key(r@, k) == with_entry_key(visible_entries(raw@), k),
{
    let mut out: Vec<TreeEntry> = Vec::new();
    let mut i: usize = 0;
    proof {
        assert(raw@.take(0) =~= Seq::<TreeEntry>::empty());
        assert(out@.to_multiset() =~= Multiset::<TreeEntry>::empty()) by {
            broadcast use vstd::seq_lib::group_to_multiset_ensures;
            assert(out@ =~= Seq::<TreeEntry>::empty());
        }
    }
    while i < raw.len()
        invariant
            i <= raw@.len(),
            listing_sorted(out@),
            out@.to_multiset() == visible_entries(raw@.take(i as int)).to_multiset(),
            forall|k: (bool, Seq<char>)| #[trigger] with_entry_key(out@, k) == with_entry_key(visible_entries(raw@.take(i as int)), k),
        decreases raw@.len() - i,
    {
        proof {
            assert(raw@.take(i + 1).drop_last() =~= raw@.take(i as int));
            assert(raw@.take(i + 1).last() == raw@[i as int]);
        }
        if !same_text(raw[i].name.as_str(), ".git") {
            let ghost vis = visible_entries(raw@.take(i as int));
            insert_sorted(&mut out, raw[i].duplicate());
            proof {
                broadcast use vstd::seq_lib::group_to_multiset_ensures;
                assert(visible_entries(raw@.take(i + 1)) == vis.push(raw@[i as int]));
                assert(vis.push(raw@[i as int]).drop_last() =~= vis);
                assert forall|k: (bool, Seq<char>)| #[trigger] with_entry_key(out@, k) == with_entry_key(visible_entries(raw@.take(i + 1)), k) by {
                    assert(with_entry_key(vis.push(raw@[i as int]), k) == (if entry_key(raw@[i as int]) == k {
                        with_entry_key(vis, k).push(raw@[i as int])
                    } else {
                        with_entry_key(vis, k)
                    }));
                }
            }
        }
        i = i + 1;
    }
    proof {
        assert(raw@.take(raw@.len() as int) =~= raw@);
    }
    out
}

/// `s` without its leading slashes.
pub open spec fn strip_slashes(s: Seq<char>) -> Seq<char>
    decreases s.len(),
{
    if s.len() > 0 && s[0] == '/' {
        strip_slashes(s.drop_first())
    } else {
        s
    }
}

/// The path that a request names, relative to the repository: trimmed, its
/// leading slashes taken off.
pub open spec fn rel_path_text(rel: Seq<char>) -> Seq<char> {
    strip_slashes(trim(rel))
}

/// `s[i..j]` is one `/`-separated component of `s`.
pub open spec fn is_component(s: Seq<char>, i: int, j: int) -> bool {
    &&& 0 <= i <= j <= s.len()
    &&& (i == 0 || s[i - 1] == '/')
    &&& (j == s.len() || s[j] == '/')
    &&& forall|k: int| i <= k < j ==> s[k] != '/'
}

/// A component that would leave the repository or enter its `.git` directory.
pub open spec fn forbidden_component(c: Seq<char>) -> bool {
    c == ".."@ || c == ".git"@
}

/// Whether the relative path `s` has a forbidden component.
pub open spec fn path_refused(s: Seq<char>) -> bool {
    exists|i: int, j: int| is_component(s, i, j) && forbidden_component(#[trigger] s.subrange(i, j))
}

/// The end of the component that starts at `i`.
fn component_end(s: &Vec<char>, i: usize) -> (j: usize)
    requires
        i <= s@.len(),
    ensures
        i <= j <= s@.len(),
        j == s@.len() || s@[j as int] == '/',
        forall|k: int| i <= k < j ==> s@[k] != '/',
{
    let mut j = i;
    while j < s.len() && s[j] != '/'
        invariant
            i <= j <= s@.len(),
            forall|k: int| i <= k < j ==> s@[k] != '/',
        decreases s@.len() - j,
    {
        j = j + 1;
    }
    j
}

/// Whether `s[i..j]` is `..` or `.git`.
fn is_forbidden_at(s: &Vec<char>, i: usize, j: usize) -> (r: bool)
    requires
        i <= j <= s@.len(),
    ensures
        r == forbidden_component(s@.subrange(i as int, j as int)),
{
    proof {
        reveal_strlit("..");
        reveal_strlit(".git");
        assert(".."@.len() == 2);
        assert(".git"@.len() == 4);
    }
    let n = j - i;
    let r = if n == 2 {
        s[i] == '.' && s[i + 1] == '.'
    } else if n == 4 {
        s[i] == '.' && s[i + 1] == 'g' && s[i + 2] == 'i' && s[i + 3] == 't'
    } else {
        false
    };
    proof {
        let c = s@.subrange(i as int, j as int);
        assert(c.len() == n);
        if r {
            if n == 2 {
                assert(c =~= ".."@);
            } else {
                assert(c =~= ".git"@);
            }
        } else {
            if n == 2 {
                assert(c != ".git"@);
                assert(c != ".."@ ) by {
                    if c == ".."@ {
                        assert(c[0] == '.' && c[1] == '.');
                    }
                }
            } else if n == 4 {
                assert(c != ".."@);
                assert(c != ".git"@) by {
                    if c == ".git"@ {
                        assert(c[0] == '.' && c[1] == 'g' && c[2] == 'i' && c[3] == 't');
                    }
                }
            }
        }
    }
    r
}

/// The path a request names inside the repository, checked before anything is
/// read: trimmed and without leading slashes; refused when a component is
/// `..` or `.git`.
pub fn safe_rel_path(rel: &str) -> (r: Result<String, GitError>)
    ensures
        path_refused(rel_path_text(rel@)) ==> r == Err::<String, GitError>(GitError::PathInvalid),
        !path_refused(rel_path_text(rel@)) ==> (r matches Ok(p) && p@ == rel_path_text(rel@)),
{
    let t = trimmed(rel);
    let v = chars_of(t.as_str());
    let mut a: usize = 0;
    proof {
        assert(v@.subrange(0, v@.len() as int) =~= v@);
    }
    while a < v.len() && v[a] == '/'
        invariant
            a <= v@.len(),
            strip_slashes(v@) == strip_slashes(v@.subrange(a as int, v@.len() as int)),
        decreases v@.len() - a,
    {
        proof {
            let w = v@.subrange(a as int, v@.len() as int);
            assert(w.drop_first() =~= v@.subrange(a + 1, v@.len() as int));
        }
        a = a + 1;
    }
    proof {
        assert(v@.subrange(0, v@.len() as int) =~= v@);
    }
    let mut p: Vec<char> = Vec::new();
    let mut k = a;
    while k < v.len()
        invariant
            a <= k <= v@.len(),
            p@ == v@.subrange(a as int, k as int),
        decreases v@.len() - k,
    {
        p.push(v[k]);
        assert(v@.subrange(a as int, k + 1) =~= v@.subrange(a as int, k as int).push(v@[k as int]));
        k = k + 1;
    }
    let ghost s = p@;
    assert(s == rel_path_text(rel@));
    let mut start: usize = 0;
    loop
        invariant
            start <= p@.len(),
            s == p@,
            s == rel_path_text(rel@),
            start == 0 || p@[start - 1] == '/',
            forall|i: int, j: int| is_component(s, i, j) && i < start ==> !forbidden_component(#[trigger] s.subrange(i, j)),
        decreases p@.len() - start,
    {
        let end = component_end(&p, start);
        if is_forbidden_at(&p, start, end) {
            assert(is_component(s, start as int, end as int));
            assert(forbidden_component(s.subrange(start as int, end as int)));
            assert(path_refused(s));
            return Err(GitError::PathInvalid);
        }
        proof {
            assert forall|i: int, j: int| is_component(s, i, j) && i < end + 1 implies !forbidden_component(#[trigger] s.subrange(i, j)) by {
                if i >= start {
                    if i > start {
                        assert(s[i - 1] != '/');
                    }
                    if j < end {
                        assert(s[j] != '/');
                    }
                    if j > end {
                        assert(s[end as int] == '/');
                    }
                }
            }
        }
        if end == p.len() {
            proof {
                assert forall|i: int, j: int| is_component(s, i, j) implies !forbidden_component(#[trigger] s.subrange(i, j)) by {
                    assert(i < end + 1);
                }
            }
            return Ok(string_from_chars(&p));
        }
        start = end + 1;
    }
}

/// What `String::from_utf8_lossy` makes of the bytes: invalid sequences
/// become U+FFFD.
pub uninterp spec fn utf8_lossy(bytes: Seq<u8>) -> Seq<char>;

/// Calls `String::from_utf8_lossy` and takes the result as an owned string;
/// the contract names it by `utf8_lossy`.
#[verifier::external_body]
fn decode_lossy(bytes: &[u8]) -> (r: String)
    ensures
        r@ == utf8_lossy(bytes@),
{
    String::from_utf8_lossy(bytes).into_owned()
}

/// Whether `s` holds a zero byte.
pub open spec fn has_zero(s: Seq<u8>) -> bool {
    exists|i: int| 0 <= i < s.len() && s[i] == 0
}

/// The part of a file's bytes that is checked for binary content.
pub open spec fn sniffed(bytes: Seq<u8>) -> Seq<u8> {
    if bytes.len() <= BINARY_SNIFF_BYTES {
        bytes
    } else {
        bytes.take(BINARY_SNIFF_BYTES as int)
    }
}

/// How a file of `size` bytes with the given content is shown: binary when a
/// zero byte stands among its first bytes (then with no text); else as text,
/// cut to `MAX_FILE_BYTES` bytes when it is larger.
pub fn file_content(path: String, size: u64, bytes: Vec<u8>) -> (r: FileContent)
    requires
        size > MAX_FILE_BYTES ==> bytes@.len() >= MAX_FILE_BYTES,
    ensures
        r.path == path,
        r.size == size,
        r.binary == has_zero(sniffed(bytes@)),
        r.binary ==> r.content@.len() == 0 && !r.truncated,
        !r.binary ==> r.truncated == (size > MAX_FILE_BYTES),
        !r.binary ==> r.content@ == utf8_lossy(
            if size > MAX_FILE_BYTES { bytes@.take(MAX_FILE_BYTES as int) } else { bytes@ },
        ),
{
    let n = if bytes.len() < BINARY_SNIFF_BYTES { bytes.len() } else { BINARY_SNIFF_BYTES };
    let mut i: usize = 0;
    let mut binary = false;
    while i < n
        invariant
            i <= n,
            n == sniffed(bytes@).len(),
            n <= bytes@.len(),
            binary == has_zero(bytes@.take(i as int)),
        decreases n - i,
    {
        if bytes[i] == 0 {
            assert(bytes@.take(i + 1)[i as int] == 0);
            binary = true;
        }
        assert forall|k: int| 0 <= k < i + 1 && #[trigger] bytes@.take(i + 1)[k] == 0 implies has_zero(bytes@.take(i as int)) || bytes@[i as int] == 0 by {
            if k < i {
                assert(bytes@.take(i as int)[k] == 0);
            }
        }
        assert(has_zero(bytes@.take(i as int)) ==> has_zero(bytes@.take(i + 1))) by {
            if has_zero(bytes@.take(i as int)) {
                let k = choose|k: int| 0 <= k < i && bytes@.take(i as int)[k] == 0;
                assert(bytes@.take(i + 1)[k] == 0);
            }
        }
        i = i + 1;
    }
    assert(bytes@.take(n as int) =~= sniffed(bytes@));
    if binary {
        return FileContent { path, content: String::new(), size, binary: true, truncated: false };
    }
    let truncated = size > MAX_FILE_BYTES;
    let content = if truncated {
        let (head, _) = bytes.as_slice().split_at(1048576);
        decode_lossy(head)
    } else {
        decode_lossy(bytes.as_slice())
    };
    FileContent { path, content, size, binary: false, truncated }
}

} // verus!
