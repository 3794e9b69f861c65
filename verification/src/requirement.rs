use vstd::prelude::*;
use crate::agent_locale::ToolChatMessage;
use crate::git::registry::all_id;
use crate::text::{
    all_id_chars, chars_of, find, find_spec, has_prefix, has_substring, lemma_find_spec_is, lemma_trim_start_first, occurs_at, is_ascii_alnum, is_ascii_alphanumeric,
    is_whitespace, is_ws, lowercase, push_char, same_text, sort_strings, string_from_chars, strings_sorted, to_lowercase, trim,
    trim_start, trimmed, all_ascii, ascii_lower, is_ascii_char, is_ascii_upper, is_id_char, trim_end,
};

verus! {

/// The file inside a requirement's directory that holds it.
pub const REQUIREMENT_FILE: &'static str = "requirement.md";

/// The stage a requirement is in.
#[derive(Debug, Clone, Copy, PartialEq, Eq, Structural)]
pub enum RequirementPhase {
    Collection,
    Review,
    Confirm,
    Development,
    Testing,
    Release,
}

impl RequirementPhase {
    pub open spec fn text(self) -> Seq<char> {
        match self {
            RequirementPhase::Collection => "collection"@,
            RequirementPhase::Review => "review"@,
            RequirementPhase::Confirm => "confirm"@,
            RequirementPhase::Development => "development"@,
            RequirementPhase::Testing => "testing"@,
            RequirementPhase::Release => "release"@,
        }
    }

    /// The phase's name as it is stored.
    pub fn as_str(&self) -> (r: &'static str)
        ensures
            r@ == self.text(),
    {
        match self {
            RequirementPhase::Collection => "collection",
            RequirementPhase::Review => "review",
            RequirementPhase::Confirm => "confirm",
            RequirementPhase::Development => "development",
            RequirementPhase::Testing => "testing",
            RequirementPhase::Release => "release",
        }
    }
}

/// A requirement is in progress until it is released.
pub fn phase_in_progress(phase: &RequirementPhase) -> (r: bool)
    ensures
        r == (*phase != RequirementPhase::Release),
{
    !matches!(phase, RequirementPhase::Release)
}

/// The phase whose stored name is `s`.
pub fn phase_from_str(s: &str) -> (r: Option<RequirementPhase>)
    ensures
        match r {
            Some(p) => p.text() == s@,
            None => forall|p: RequirementPhase| p.text() != s@,
        },
{
    if same_text(s, "collection") {
        Some(RequirementPhase::Collection)
    } else if same_text(s, "review") {
        Some(RequirementPhase::Review)
    } else if same_text(s, "confirm") {
        Some(RequirementPhase::Confirm)
    } else if same_text(s, "development") {
        Some(RequirementPhase::Development)
    } else if same_text(s, "testing") {
        Some(RequirementPhase::Testing)
    } else if same_text(s, "release") {
        Some(RequirementPhase::Release)
    } else {
        None
    }
}

/// Why a requirement request was refused.
#[derive(Debug, Clone, Copy, PartialEq, Eq, Structural)]
pub enum RequirementError {
    IdEmpty,
    IdInvalid,
    TitleEmpty,
    NotFound,
    AlreadyExists,
    PhaseInvalid,
    FrontmatterMissing,
}

impl RequirementError {
    pub open spec fn key_text(self) -> Seq<char> {
        match self {
            RequirementError::IdEmpty => "requirement_id_empty"@,
            RequirementError::IdInvalid => "requirement_id_invalid"@,
            RequirementError::TitleEmpty => "requirement_title_empty"@,
            RequirementError::NotFound => "requirement_not_found"@,
            RequirementError::AlreadyExists => "requirement_already_exists"@,
            RequirementError::PhaseInvalid => "requirement_phase_invalid"@,
            RequirementError::FrontmatterMissing => "requirement_frontmatter_missing"@,
        }
    }

    /// The message key of the error.
    pub fn key(&self) -> (r: &'static str)
        ensures
            r@ == self.key_text(),
    {
        match self {
            RequirementError::IdEmpty => "requirement_id_empty",
            RequirementError::IdInvalid => "requirement_id_invalid",
            RequirementError::TitleEmpty => "requirement_title_empty",
            RequirementError::NotFound => "requirement_not_found",
            RequirementError::AlreadyExists => "requirement_already_exists",
            RequirementError::PhaseInvalid => "requirement_phase_invalid",
            RequirementError::FrontmatterMissing => "requirement_frontmatter_missing",
        }
    }
}

/// What `normalize_requirement_id` gives for `raw`: trimmed and lower-cased,
/// not empty, made of ASCII letters, digits, `_` and `-`.
pub open spec fn requirement_id_check(raw: Seq<char>) -> Result<Seq<char>, RequirementError> {
    lowered_id_check(lowercase(trim(raw)))
}

/// What a trimmed, lower-cased requirement id `id` is taken as: refused when
/// empty or when it holds anything but ASCII letters, digits, `_` and `-`.
pub open spec fn lowered_id_check(id: Seq<char>) -> Result<Seq<char>, RequirementError> {
    if id.len() == 0 {
        Err(RequirementError::IdEmpty)
    } else if !all_id(id) {
        Err(RequirementError::IdInvalid)
    } else {
        Ok(id)
    }
}

/// The id of a requirement as a request gives it, normalized.
pub fn normalize_requirement_id(raw: &str) -> (r: Result<String, RequirementError>)
    ensures
        match (r, requirement_id_check(raw@)) {
            (Ok(a), Ok(b)) => a@ == b,
            (Err(a), Err(b)) => a == b,
            _ => false,
        },
        all_ascii(trim(raw@)) ==> match (r, lowered_id_check(ascii_lower(trim(raw@)))) {
            (Ok(a), Ok(b)) => a@ == b,
            (Err(a), Err(b)) => a == b,
            _ => false,
        },
{
    let t = trimmed(raw);
    let id = to_lowercase(t.as_str());
    check_lowered_requirement_id(id)
}

/// A requirement id already trimmed and lower-cased, checked.
pub fn check_lowered_requirement_id(id: String) -> (r: Result<String, RequirementError>)
    ensures
        match (r, lowered_id_check(id@)) {
            (Ok(a), Ok(b)) => a@ == b,
            (Err(a), Err(b)) => a == b,
            _ => false,
        },
{
    if id.as_str().is_empty() {
        return Err(RequirementError::IdEmpty);
    }
    let v = chars_of(id.as_str());
    if !all_id_chars(&v) {
        return Err(RequirementError::IdInvalid);
    }
    Ok(id)
}

/// `out` continued by the characters of `s`, each that is not an ASCII letter
/// or digit read as a `-`, with runs of `-` kept as one and none at either end
/// of the whole; `pending` says a `-` is owed before the next kept character.
pub open spec fn compact_slug(s: Seq<char>, out: Seq<char>, pending: bool) -> Seq<char>
    decreases s.len(),
{
    if s.len() == 0 {
        out
    } else if !is_ascii_alnum(s[0]) {
        compact_slug(s.drop_first(), out, out.len() > 0)
    } else if pending {
        compact_slug(s.drop_first(), out.push('-').push(s[0]), false)
    } else {
        compact_slug(s.drop_first(), out.push(s[0]), false)
    }
}

/// The id derived from a title: its lower-cased, trimmed text with the runs of
/// other characters between ASCII letters and digits made single `-`.
pub open spec fn slug_of(title: Seq<char>) -> Seq<char> {
    compact_slug(lowercase(trim(title)), seq![], false)
}

/// The id of a new requirement taken from its title; refused when the title
/// has no ASCII letter or digit.
pub fn derive_requirement_id(title: &str) -> (r: Result<String, RequirementError>)
    ensures
        slug_of(title@).len() == 0 ==> r == Err::<String, RequirementError>(RequirementError::IdInvalid),
        slug_of(title@).len() > 0 ==> (r matches Ok(id) && id@ == slug_of(title@)),
        r matches Ok(id) ==> slug_chars(id@),
        all_ascii(trim(title@)) ==> ({
            let slug = compact_slug(ascii_lower(trim(title@)), seq![], false);
            &&& slug.len() == 0 ==> r == Err::<String, RequirementError>(RequirementError::IdInvalid)
            &&& slug.len() > 0 ==> (r matches Ok(id) && id@ == slug)
        }),
{
    let t = trimmed(title);
    let low = to_lowercase(t.as_str());
    proof {
        lemma_compact_slug_chars(low@, seq![], false);
    }
    derive_id_from_lowered(low.as_str())
}

/// Whether `c` may stand in a derived id: a small ASCII letter, a digit or `-`.
pub open spec fn slug_char(c: char) -> bool {
    ('0' <= c && c <= '9') || ('a' <= c && c <= 'z') || c == '-'
}

/// Whether every character of `s` may stand in a derived id.
pub open spec fn slug_chars(s: Seq<char>) -> bool {
    forall|i: int| 0 <= i < s.len() ==> slug_char(#[trigger] s[i])
}

proof fn lemma_compact_slug_chars(s: Seq<char>, out: Seq<char>, pending: bool)
    requires
        slug_chars(out),
        forall|i: int| 0 <= i < s.len() ==> !is_ascii_upper(#[trigger] s[i]),
    ensures
        slug_chars(compact_slug(s, out, pending)),
    decreases s.len(),
{
    if s.len() > 0 {
        assert forall|i: int| 0 <= i < s.drop_first().len() implies !is_ascii_upper(#[trigger] s.drop_first()[i]) by {
            assert(s.drop_first()[i] == s[i + 1]);
        }
        if !is_ascii_alnum(s[0]) {
            lemma_compact_slug_chars(s.drop_first(), out, out.len() > 0);
        } else {
            assert(!is_ascii_upper(s[0]));
            let o = if pending { out.push('-').push(s[0]) } else { out.push(s[0]) };
            assert(slug_chars(o));
            lemma_compact_slug_chars(s.drop_first(), o, false);
        }
    }
}

/// An id that `derive_requirement_id` gives (not empty, made of small ASCII
/// letters, digits and `-`) is given back unchanged by
/// `normalize_requirement_id`: it is ASCII, trimming leaves it whole, lower
/// casing leaves it as it is, and it passes the check.
pub proof fn lemma_derived_id_normalizes(id: Seq<char>)
    requires
        id.len() > 0,
        slug_chars(id),
    ensures
        trim(id) == id,
        all_ascii(trim(id)),
        lowered_id_check(ascii_lower(trim(id))) == Ok::<Seq<char>, RequirementError>(id),
{
    assert(slug_char(id[0]) && slug_char(id.last()));
    assert(trim_start(id) == id);
    assert(trim_end(id) == id);
    assert forall|i: int| 0 <= i < id.len() implies is_ascii_char(#[trigger] id[i]) by {
        assert(slug_char(id[i]));
    }
    assert(ascii_lower(id) =~= id) by {
        assert forall|i: int| 0 <= i < id.len() implies #[trigger] ascii_lower(id)[i] == id[i] by {
            assert(slug_char(id[i]));
        }
    }
    assert forall|i: int| 0 <= i < id.len() implies is_id_char(#[trigger] id[i]) by {
        assert(slug_char(id[i]));
    }
}

/// The id derived from `lower`, a title trimmed and lower-cased: its runs of
/// characters other than ASCII letters and digits made single `-`, none at
/// either end; refused when nothing is left.
pub fn derive_id_from_lowered(lower: &str) -> (r: Result<String, RequirementError>)
    ensures
        compact_slug(lower@, seq![], false).len() == 0 ==> r == Err::<String, RequirementError>(RequirementError::IdInvalid),
        compact_slug(lower@, seq![], false).len() > 0 ==> (r matches Ok(id) && id@ == compact_slug(lower@, seq![], false)),
{
    let v = chars_of(lower);
    let mut out: Vec<char> = Vec::new();
    let mut pending = false;
    let mut i: usize = 0;
    proof {
        assert(v@.subrange(0, v@.len() as int) =~= v@);
    }
    while i < v.len()
        invariant
            i <= v@.len(),
            v@ == lower@,
            compact_slug(lower@, seq![], false) == compact_slug(v@.subrange(i as int, v@.len() as int), out@, pending),
        decreases v@.len() - i,
    {
        proof {
            let w = v@.subrange(i as int, v@.len() as int);
            assert(w.drop_first() =~= v@.subrange(i + 1, v@.len() as int));
        }
        let c = v[i];
        if !is_ascii_alphanumeric(c) {
            pending = out.len() > 0;
        } else {
            if pending {
                out.push('-');
            }
            out.push(c);
            pending = false;
        }
        i = i + 1;
    }
    proof {
        assert(v@.subrange(v@.len() as int, v@.len() as int) =~= Seq::<char>::empty());
    }
    if out.len() == 0 {
        return Err(RequirementError::IdInvalid);
    }
    Ok(string_from_chars(&out))
}

/// The parts of a requirement file: the YAML between the `---` markers
/// (trimmed) and the body after them (leading whitespace dropped); `None`
/// when the file does not open with a front-matter block.
pub open spec fn frontmatter_parts(raw: Seq<char>) -> Option<(Seq<char>, Seq<char>)> {
    let t = trim_start(raw);
    if !has_prefix(t, "---"@) {
        None
    } else {
        let rest = trim_start(t.subrange(3, t.len() as int));
        match find_spec(rest, "---"@) {
            None => None,
            Some(k) => Some((trim(rest.subrange(0, k)), trim_start(rest.subrange(k + 3, rest.len() as int)))),
        }
    }
}

/// `s[a..]` without its leading whitespace, as an index.
fn skip_ws(v: &Vec<char>, a: usize) -> (r: usize)
    requires
        a <= v@.len(),
    ensures
        a <= r <= v@.len(),
        v@.subrange(r as int, v@.len() as int) == trim_start(v@.subrange(a as int, v@.len() as int)),
{
    let mut i = a;
    while i < v.len() && is_whitespace(v[i])
        invariant
            a <= i <= v@.len(),
            trim_start(v@.subrange(a as int, v@.len() as int)) == trim_start(v@.subrange(i as int, v@.len() as int)),
        decreases v@.len() - i,
    {
        proof {
            let w = v@.subrange(i as int, v@.len() as int);
            assert(w.drop_first() =~= v@.subrange(i + 1, v@.len() as int));
        }
        i = i + 1;
    }
    i
}

/// The characters `v[a..b]`.
fn chars_between(v: &Vec<char>, a: usize, b: usize) -> (r: String)
    requires
        a <= b <= v@.len(),
    ensures
        r@ == v@.subrange(a as int, b as int),
{
    let mut out: Vec<char> = Vec::new();
    let mut k = a;
    while k < b
        invariant
            a <= k <= b <= v@.len(),
            out@ == v@.subrange(a as int, k as int),
        decreases b - k,
    {
        out.push(v[k]);
        assert(v@.subrange(a as int, k + 1) =~= v@.subrange(a as int, k as int).push(v@[k as int]));
        k = k + 1;
    }
    string_from_chars(&out)
}

/// Splits a requirement file into its front matter (trimmed) and its body
/// (leading whitespace dropped); refused when the file does not open with a
/// `---` block that a second `---` closes.
pub fn split_frontmatter(raw: &str) -> (r: Result<(String, String), RequirementError>)
    ensures
        match frontmatter_parts(raw@) {
            None => r == Err::<(String, String), RequirementError>(RequirementError::FrontmatterMissing),
            Some((y, b)) => r matches Ok((yy, bb)) && yy@ == y && bb@ == b,
        },
{
    let v = chars_of(raw);
    proof {
        assert(v@.subrange(0, v@.len() as int) =~= v@);
        reveal_strlit("---");
    }
    let a = skip_ws(&v, 0);
    let ghost t = v@.subrange(a as int, v@.len() as int);
    let dashes = chars_of("---");
    let mut t_vec: Vec<char> = Vec::new();
    let mut k = a;
    while k < v.len()
        invariant
            a <= k <= v@.len(),
            t_vec@ == v@.subrange(a as int, k as int),
        decreases v@.len() - k,
    {
        t_vec.push(v[k]);
        assert(v@.subrange(a as int, k + 1) =~= v@.subrange(a as int, k as int).push(v@[k as int]));
        k = k + 1;
    }
    assert(t_vec@ == t);
    if t_vec.len() < 3 || t_vec[0] != '-' || t_vec[1] != '-' || t_vec[2] != '-' {
        proof {
            if has_prefix(t, "---"@) {
                assert(t.subrange(0, 3) == "---"@);
                assert(t[0] == t.subrange(0, 3)[0]);
                assert(t[1] == t.subrange(0, 3)[1]);
                assert(t[2] == t.subrange(0, 3)[2]);
            }
        }
        return Err(RequirementError::FrontmatterMissing);
    }
    proof {
        assert(t.subrange(0, 3) =~= "---"@);
    }
    let b = skip_ws(&t_vec, 3);
    let mut rest: Vec<char> = Vec::new();
    let mut j = b;
    while j < t_vec.len()
        invariant
            b <= j <= t_vec@.len(),
            rest@ == t_vec@.subrange(b as int, j as int),
        decreases t_vec@.len() - j,
    {
        rest.push(t_vec[j]);
        assert(t_vec@.subrange(b as int, j + 1) =~= t_vec@.subrange(b as int, j as int).push(t_vec@[j as int]));
        j = j + 1;
    }
    let ghost rs = rest@;
    assert(rs == trim_start(t.subrange(3, t.len() as int)));
    match find(&rest, &dashes) {
        None => Err(RequirementError::FrontmatterMissing),
        Some(p) => {
            let yaml_raw = chars_between(&rest, 0, p);
            let yaml = trimmed(yaml_raw.as_str());
            let c = skip_ws(&rest, p + 3);
            let body = chars_between(&rest, c, rest.len());
            Ok((yaml, body))
        },
    }
}

/// A requirement file made of its front matter and its body.
pub fn frame_requirement_md(yaml: &str, content: &str) -> (r: String)
    ensures
        r@ == "---\n"@ + yaml@ + "---\n\n"@ + content@,
{
    let mut s = "---\n".to_owned();
    s.append(yaml);
    s.append("---\n\n");
    s.append(content);
    s
}

/// Leading whitespace stops where a non-whitespace character starts `b`.
proof fn lemma_trim_start_append(a: Seq<char>, b: Seq<char>)
    requires
        b.len() > 0,
        !is_ws(b[0]),
    ensures
        trim_start(a + b) == trim_start(a) + b,
    decreases a.len(),
{
    if a.len() > 0 && is_ws(a[0]) {
        assert((a + b).drop_first() =~= a.drop_first() + b);
        lemma_trim_start_append(a.drop_first(), b);
    } else if a.len() == 0 {
        assert(a + b =~= b);
        assert(trim_start(a) + b =~= b);
    }
}

/// What trimming the start leaves is an end of `s`.
proof fn lemma_trim_start_suffix(s: Seq<char>)
    ensures
        trim_start(s).len() <= s.len(),
        trim_start(s) == s.subrange(s.len() - trim_start(s).len(), s.len() as int),
    decreases s.len(),
{
    if s.len() > 0 && is_ws(s[0]) {
        lemma_trim_start_suffix(s.drop_first());
        assert(s.drop_first().subrange(s.len() - 1 - trim_start(s).len(), s.len() - 1) =~= s.subrange(
            s.len() - trim_start(s).len(),
            s.len() as int,
        ));
    } else {
        assert(s.subrange(0, s.len() as int) =~= s);
    }
}

/// Splitting a framed requirement file gives back its front matter, trimmed,
/// and its body, when the front matter holds no `---` and does not end in `-`
/// and the body does not start with whitespace.
pub proof fn lemma_frontmatter_round_trip(yaml: Seq<char>, content: Seq<char>)
    requires
        !has_substring(yaml, "---"@),
        yaml.len() > 0 ==> yaml.last() != '-',
        trim_start(content) == content,
    ensures
        frontmatter_parts("---\n"@ + yaml + "---\n\n"@ + content) == Some((trim(yaml), content)),
{
    reveal_strlit("---\n");
    reveal_strlit("---\n\n");
    reveal_strlit("---");
    let m = "---\n\n"@;
    let raw = "---\n"@ + yaml + m + content;
    assert(raw[0] == '-');
    assert(trim_start(raw) == raw);
    assert(raw.subrange(0, 3) =~= "---"@);
    let s1 = raw.subrange(3, raw.len() as int);
    let tail = m + content;
    assert(s1 =~= seq!['\n'] + (yaml + tail));
    assert(s1.drop_first() =~= yaml + tail);
    assert(is_ws('\n'));
    assert(trim_start(s1) == trim_start(yaml + tail));
    assert(tail[0] == '-');
    lemma_trim_start_append(yaml, tail);
    let ty = trim_start(yaml);
    let rest = ty + tail;
    assert(rest == trim_start(s1));
    let k = ty.len() as int;
    assert(rest.subrange(k, k + 3) =~= "---"@);
    assert(occurs_at(rest, "---"@, k));
    lemma_trim_start_suffix(yaml);
    let off = yaml.len() - ty.len();
    assert forall|j: int| 0 <= j < k implies !occurs_at(rest, "---"@, j) by {
        if occurs_at(rest, "---"@, j) {
            if j + 3 <= k {
                assert(yaml.subrange(off + j, off + j + 3) =~= rest.subrange(j, j + 3));
                assert(occurs_at(yaml, "---"@, off + j));
            } else {
                assert(rest.subrange(j, j + 3)[k - 1 - j] == rest[k - 1]);
                assert(rest[k - 1] == ty[k - 1]);
                assert(ty[k - 1] == yaml[yaml.len() - 1]);
            }
        }
    }
    lemma_find_spec_is(rest, "---"@, k);
    assert(rest.subrange(0, k) =~= ty);
    lemma_trim_start_first(yaml);
    assert(trim_start(ty) == ty);
    assert(rest.subrange(k + 3, rest.len() as int) =~= seq!['\n', '\n'] + content);
    assert((seq!['\n', '\n'] + content).drop_first() =~= seq!['\n'] + content);
    assert((seq!['\n'] + content).drop_first() =~= content);
    let n2 = seq!['\n', '\n'] + content;
    let n1 = seq!['\n'] + content;
    assert(n1[0] == '\n' && n1.len() > 0);
    assert(trim_start(n1) == trim_start(n1.drop_first()));
    assert(trim_start(n1) == content);
    assert(n2[0] == '\n' && n2.len() > 0);
    assert(trim_start(n2) == trim_start(n2.drop_first()));
    assert(trim_start(n2) == content);
    assert(trim(rest.subrange(0, k)) == trim(yaml));
    assert(find_spec(rest, "---"@) == Some(k));
    assert(frontmatter_parts(raw) == Some((trim(yaml), content)));
}

/// Whether a requirement file may record `phase`: collection, development,
/// testing or release.
pub open spec fn storable_phase(phase: RequirementPhase) -> bool {
    phase == RequirementPhase::Collection || phase == RequirementPhase::Development
        || phase == RequirementPhase::Testing || phase == RequirementPhase::Release
}

/// Whether a requirement file may record `phase`.
pub fn phase_storable(phase: RequirementPhase) -> (r: bool)
    ensures
        r == storable_phase(phase),
{
    match phase {
        RequirementPhase::Collection | RequirementPhase::Development | RequirementPhase::Testing
        | RequirementPhase::Release => true,
        _ => false,
    }
}

/// The front matter of a requirement.
#[derive(Debug)]
pub struct RequirementMeta {
    pub id: String,
    pub title: String,
    pub phase: RequirementPhase,
    pub created_at_ms: u64,
    pub updated_at_ms: u64,
}

/// A requirement as lists show it.
#[derive(Debug)]
pub struct RequirementSummary {
    pub id: String,
    pub title: String,
    pub phase: RequirementPhase,
    pub created_at_ms: u64,
    pub updated_at_ms: u64,
    pub dir_path: String,
}

impl RequirementSummary {
    pub fn duplicate(&self) -> (r: RequirementSummary)
        ensures
            r == *self,
    {
        RequirementSummary {
            id: self.id.clone(),
            title: self.title.clone(),
            phase: self.phase,
            created_at_ms: self.created_at_ms,
            updated_at_ms: self.updated_at_ms,
            dir_path: self.dir_path.clone(),
        }
    }
}

/// A requirement with its body and the directories beside it.
#[derive(Debug)]
pub struct RequirementDetail {
    pub id: String,
    pub title: String,
    pub phase: RequirementPhase,
    pub created_at_ms: u64,
    pub updated_at_ms: u64,
    pub dir_path: String,
    pub content: String,
    pub subdirs: Vec<String>,
}

/// A request to create a requirement.
#[derive(Debug)]
pub struct CreateRequirementRequest {
    pub title: String,
    pub phase: Option<RequirementPhase>,
    pub content: Option<String>,
    pub id: Option<String>,
}

/// A request to change a requirement; what it leaves out stays.
#[derive(Debug)]
pub struct UpdateRequirementRequest {
    pub title: Option<String>,
    pub phase: Option<RequirementPhase>,
    pub content: Option<String>,
}

/// The path of an active requirement's directory, relative to the workspace.
pub fn requirement_dir_path(id: &str) -> (r: String)
    ensures
        r@ == "requirements/"@ + id@,
{
    let mut s = "requirements/".to_owned();
    s.append(id);
    s
}

/// The path of an archived requirement's directory, relative to the workspace.
pub fn archived_dir_path(id: &str) -> (r: String)
    ensures
        r@ == "requirements/archived/"@ + id@,
{
    let mut s = "requirements/archived/".to_owned();
    s.append(id);
    s
}

/// The summary of archived requirement `id`, from its front matter.
pub fn archived_summary(meta: RequirementMeta, id: &str) -> (r: RequirementSummary)
    ensures
        r.id == meta.id,
        r.title == meta.title,
        r.phase == meta.phase,
        r.created_at_ms == meta.created_at_ms,
        r.updated_at_ms == meta.updated_at_ms,
        r.dir_path@ == "requirements/archived/"@ + id@,
{
    RequirementSummary {
        id: meta.id,
        title: meta.title,
        phase: meta.phase,
        created_at_ms: meta.created_at_ms,
        updated_at_ms: meta.updated_at_ms,
        dir_path: archived_dir_path(id),
    }
}

/// What abandoning requirement `id` answers: its archived summary with its
/// body, and no directories listed.
pub fn abandoned_detail(meta: RequirementMeta, id: &str, content: String) -> (r: RequirementDetail)
    ensures
        r.id == meta.id,
        r.title == meta.title,
        r.phase == meta.phase,
        r.created_at_ms == meta.created_at_ms,
        r.updated_at_ms == meta.updated_at_ms,
        r.dir_path@ == "requirements/archived/"@ + id@,
        r.content == content,
        r.subdirs@.len() == 0,
{
    let s = archived_summary(meta, id);
    RequirementDetail {
        id: s.id,
        title: s.title,
        phase: s.phase,
        created_at_ms: s.created_at_ms,
        updated_at_ms: s.updated_at_ms,
        dir_path: s.dir_path,
        content,
        subdirs: Vec::new(),
    }
}

/// A requirement's front matter after it is moved at `now_ms`: only its update
/// time changes.
pub fn touch_requirement(meta: &mut RequirementMeta, now_ms: u64)
    ensures
        *final(meta) == (RequirementMeta { updated_at_ms: now_ms, ..*old(meta) }),
{
    meta.updated_at_ms = now_ms;
}

/// The names of `names` other than the requirement file.
pub open spec fn without_requirement_file(names: Seq<String>) -> Seq<String>
    decreases names.len(),
{
    if names.len() == 0 {
        seq![]
    } else if names.last()@ == REQUIREMENT_FILE@ {
        without_requirement_file(names.drop_last())
    } else {
        without_requirement_file(names.drop_last()).push(names.last())
    }
}

/// The directories beside a requirement file: sorted by name, the file's own
/// name left out.
pub fn requirement_subdirs(names: &Vec<String>) -> (r: Vec<String>)
    ensures
        strings_sorted(r@),
        r@.to_multiset() == without_requirement_file(names@).to_multiset(),
{
    let mut kept: Vec<String> = Vec::new();
    let mut i: usize = 0;
    while i < names.len()
        invariant
            i <= names@.len(),
            kept@ == without_requirement_file(names@.take(i as int)),
        decreases names@.len() - i,
    {
        proof {
            assert(names@.take(i + 1).drop_last() =~= names@.take(i as int));
            assert(names@.take(i + 1).last() == names@[i as int]);
        }
        if !same_text(names[i].as_str(), REQUIREMENT_FILE) {
            kept.push(names[i].clone());
        }
        i = i + 1;
    }
    proof {
        assert(names@.take(names@.len() as int) =~= names@);
    }
    sort_strings(&kept)
}

/// The detail of the requirement `id` read from its file.
pub fn requirement_detail(meta: RequirementMeta, id: &str, content: String, dir_names: &Vec<String>) -> (r: RequirementDetail)
    ensures
        r.id == meta.id,
        r.title == meta.title,
        r.phase == meta.phase,
        r.created_at_ms == meta.created_at_ms,
        r.updated_at_ms == meta.updated_at_ms,
        r.dir_path@ == "requirements/"@ + id@,
        r.content == content,
        strings_sorted(r.subdirs@),
        r.subdirs@.to_multiset() == without_requirement_file(dir_names@).to_multiset(),
{
    RequirementDetail {
        id: meta.id,
        title: meta.title,
        phase: meta.phase,
        created_at_ms: meta.created_at_ms,
        updated_at_ms: meta.updated_at_ms,
        dir_path: requirement_dir_path(id),
        content,
        subdirs: requirement_subdirs(dir_names),
    }
}

/// The summary of a requirement's detail.
pub fn summary_of(detail: RequirementDetail) -> (r: RequirementSummary)
    ensures
        r.id == detail.id,
        r.title == detail.title,
        r.phase == detail.phase,
        r.created_at_ms == detail.created_at_ms,
        r.updated_at_ms == detail.updated_at_ms,
        r.dir_path == detail.dir_path,
{
    RequirementSummary {
        id: detail.id,
        title: detail.title,
        phase: detail.phase,
        created_at_ms: detail.created_at_ms,
        updated_at_ms: detail.updated_at_ms,
        dir_path: detail.dir_path,
    }
}

/// Whether `s` has the most recently updated requirements first.
pub open spec fn newest_first(s: Seq<RequirementSummary>) -> bool {
    forall|i: int, j: int| 0 <= i < j < s.len() ==> (#[trigger] s[i]).updated_at_ms >= (#[trigger] s[j]).updated_at_ms
}

/// The requirements of `s` updated at `t`, in order.
pub open spec fn updated_at(s: Seq<RequirementSummary>, t: u64) -> Seq<RequirementSummary>
    decreases s.len(),
{
    if s.len() == 0 {
        seq![]
    } else if s.last().updated_at_ms == t {
        updated_at(s.drop_last(), t).push(s.last())
    } else {
        updated_at(s.drop_last(), t)
    }
}

proof fn lemma_updated_at_add(a: Seq<RequirementSummary>, b: Seq<RequirementSummary>, t: u64)
    ensures
        updated_at(a + b, t) == updated_at(a, t) + updated_at(b, t),
    decreases b.len(),
{
    if b.len() == 0 {
        assert(a + b =~= a);
        assert(updated_at(a, t) + updated_at(b, t) =~= updated_at(a, t));
    } else {
        assert((a + b).drop_last() =~= a + b.drop_last());
        assert((a + b).last() == b.last());
        lemma_updated_at_add(a, b.drop_last(), t);
        if b.last().updated_at_ms == t {
            assert(updated_at(a, t) + updated_at(b.drop_last(), t).push(b.last()) =~= (updated_at(a, t)
                + updated_at(b.drop_last(), t)).push(b.last()));
        }
    }
}

proof fn lemma_updated_at_none(s: Seq<RequirementSummary>, t: u64)
    requires
        forall|k: int| 0 <= k < s.len() ==> (#[trigger] s[k]).updated_at_ms != t,
    ensures
        updated_at(s, t) == Seq::<RequirementSummary>::empty(),
    decreases s.len(),
{
    if s.len() > 0 {
        assert(s.last() == s[s.len() - 1]);
        lemma_updated_at_none(s.drop_last(), t);
    }
}

/// Requirements ordered with the most recently updated first; those updated at
/// the same time keep their order.
pub fn sort_newest_first(items: &Vec<RequirementSummary>) -> (r: Vec<RequirementSummary>)
    ensures
        newest_first(r@),
        r@.to_multiset() == items@.to_multiset(),
        forall|t: u64| #[trigger] updated_at(r@, t) == updated_at(items@, t),
{
    let mut out: Vec<RequirementSummary> = Vec::new();
    let mut i: usize = 0;
    proof {
        assert(items@.take(0) =~= Seq::<RequirementSummary>::empty());
        assert(out@ =~= Seq::<RequirementSummary>::empty());
        assert(out@.to_multiset() =~= items@.take(0).to_multiset()) by {
            broadcast use vstd::seq_lib::group_to_multiset_ensures;
        }
    }
    while i < items.len()
        invariant
            i <= items@.len(),
            newest_first(out@),
            out@.to_multiset() == items@.take(i as int).to_multiset(),
            forall|t: u64| #[trigger] updated_at(out@, t) == updated_at(items@.take(i as int), t),
        decreases items@.len() - i,
    {
        let x = items[i].duplicate();
        let mut p: usize = 0;
        while p < out.len() && out[p].updated_at_ms >= x.updated_at_ms
            invariant
                p <= out@.len(),
                forall|k: int| 0 <= k < p ==> (#[trigger] out@[k]).updated_at_ms >= x.updated_at_ms,
            decreases out@.len() - p,
        {
            p = p + 1;
        }
        let ghost before = out@;
        out.insert(p, x);
        proof {
            assert forall|a: int, b: int| 0 <= a < b < out@.len() implies (#[trigger] out@[a]).updated_at_ms >= (#[trigger] out@[b]).updated_at_ms by {
                if b < p {
                    assert(out@[a] == before[a] && out@[b] == before[b]);
                } else if b == p {
                    assert(out@[a] == before[a]);
                } else if a == p {
                    assert(out@[b] == before[b - 1]);
                    if b - 1 > p {
                        assert(before[p as int].updated_at_ms >= before[b - 1].updated_at_ms);
                    }
                } else if a < p {
                    assert(out@[a] == before[a] && out@[b] == before[b - 1]);
                } else {
                    assert(out@[a] == before[a - 1] && out@[b] == before[b - 1]);
                }
            }
            assert(items@.take(i + 1) =~= items@.take(i as int).push(items@[i as int]));
            vstd::seq_lib::to_multiset_insert(before, p as int, x);
            assert forall|k: int| p <= k < before.len() implies (#[trigger] before[k]).updated_at_ms < x.updated_at_ms by {
                assert(before[p as int].updated_at_ms < x.updated_at_ms);
                if k > p {
                    assert(before[p as int].updated_at_ms >= before[k].updated_at_ms);
                }
            }
            let head = before.take(p as int);
            let tail = before.skip(p as int);
            assert(before =~= head + tail);
            assert(out@ =~= head + (seq![x] + tail));
            assert(items@.take(i + 1).drop_last() =~= items@.take(i as int));
            assert(items@.take(i + 1).last() == x);
            assert forall|t: u64| #[trigger] updated_at(out@, t) == updated_at(items@.take(i + 1), t) by {
                lemma_updated_at_add(head, seq![x] + tail, t);
                lemma_updated_at_add(seq![x], tail, t);
                lemma_updated_at_add(head, tail, t);
                assert(seq![x].drop_last() =~= Seq::<RequirementSummary>::empty());
                assert(seq![x].last() == x);
                assert(updated_at(Seq::<RequirementSummary>::empty(), t) =~= Seq::<RequirementSummary>::empty());
                assert(updated_at(seq![x].drop_last(), t) =~= Seq::<RequirementSummary>::empty());
                if x.updated_at_ms == t {
                    assert forall|k: int| 0 <= k < tail.len() implies (#[trigger] tail[k]).updated_at_ms != t by {
                        assert(tail[k] == before[p + k]);
                    }
                    lemma_updated_at_none(tail, t);
                    assert(updated_at(seq![x], t) =~= seq![x]);
                    assert(updated_at(before, t) =~= updated_at(head, t));
                    assert(updated_at(out@, t) =~= updated_at(head, t).push(x));
                } else {
                    assert(updated_at(seq![x], t) =~= Seq::<RequirementSummary>::empty());
                    assert(updated_at(out@, t) =~= updated_at(head, t) + updated_at(tail, t));
                }
            }
            vstd::seq_lib::to_multiset_build(items@.take(i as int), items@[i as int]);
        }
        i = i + 1;
    }
    proof {
        assert(items@.take(items@.len() as int) =~= items@);
    }
    out
}

/// What a new requirement's id is: the one the request gives, normalized, or
/// else the one derived from its (trimmed) title.
pub open spec fn new_requirement_id_check(title: Seq<char>, id: Option<String>) -> Result<Seq<char>, RequirementError> {
    match id {
        Some(raw) => requirement_id_check(raw@),
        None => if slug_of(title).len() == 0 {
            Err(RequirementError::IdInvalid)
        } else {
            Ok(slug_of(title))
        },
    }
}

/// The front matter and body of a requirement created at `now`: refused when
/// its title is blank or no id can be had; the phase is `collection` and the
/// body empty unless the request gives them.
pub fn new_requirement(req: CreateRequirementRequest, now: u64) -> (r: Result<(RequirementMeta, String), RequirementError>)
    ensures
        trim(req.title@).len() == 0 ==> r == Err::<(RequirementMeta, String), RequirementError>(RequirementError::TitleEmpty),
        trim(req.title@).len() > 0 ==> match (r, new_requirement_id_check(trim(req.title@), req.id)) {
            (Ok((meta, body)), Ok(id)) => {
                &&& meta.id@ == id
                &&& meta.title@ == trim(req.title@)
                &&& meta.phase == match req.phase {
                    Some(p) => p,
                    None => RequirementPhase::Collection,
                }
                &&& meta.created_at_ms == now && meta.updated_at_ms == now
                &&& body@ == match req.content {
                    Some(c) => c@,
                    None => Seq::<char>::empty(),
                }
            },
            (Err(a), Err(b)) => a == b,
            _ => false,
        },
{
    let title = trimmed(req.title.as_str());
    if title.as_str().is_empty() {
        return Err(RequirementError::TitleEmpty);
    }
    let ghost tt = trim(req.title@);
    proof {
        assert(lowercase(trim(tt)) == lowercase(trim(req.title@))) by {
            crate::text::lemma_trim_idempotent(req.title@);
        }
    }
    let id = match req.id {
        Some(raw) => normalize_requirement_id(raw.as_str()),
        None => derive_requirement_id(title.as_str()),
    };
    let id = match id {
        Ok(id) => id,
        Err(e) => {
            return Err(e);
        },
    };
    let phase = match req.phase {
        Some(p) => p,
        None => RequirementPhase::Collection,
    };
    let content = match req.content {
        Some(c) => c,
        None => String::new(),
    };
    Ok((RequirementMeta { id, title, phase, created_at_ms: now, updated_at_ms: now }, content))
}

/// A requirement changed by a request at `now`: a given title must not be
/// blank and is stored trimmed; a given phase or body replaces the old one;
/// the update time becomes `now`.
pub fn apply_requirement_update(
    meta: RequirementMeta,
    content: String,
    req: UpdateRequirementRequest,
    now: u64,
) -> (r: Result<(RequirementMeta, String), RequirementError>)
    ensures
        (req.title matches Some(t) && trim(t@).len() == 0) ==> r == Err::<(RequirementMeta, String), RequirementError>(RequirementError::TitleEmpty),
        !(req.title matches Some(t) && trim(t@).len() == 0) ==> (r matches Ok((m, body)) && {
            &&& m.id == meta.id
            &&& m.created_at_ms == meta.created_at_ms
            &&& m.updated_at_ms == now
            &&& m.title@ == match req.title {
                Some(t) => trim(t@),
                None => meta.title@,
            }
            &&& m.phase == match req.phase {
                Some(p) => p,
                None => meta.phase,
            }
            &&& body == match req.content {
                Some(c) => c,
                None => content,
            }
        }),
{
    let mut meta = meta;
    if let Some(t) = &req.title {
        let tt = trimmed(t.as_str());
        if tt.as_str().is_empty() {
            return Err(RequirementError::TitleEmpty);
        }
        meta.title = tt;
    }
    if let Some(p) = req.phase {
        meta.phase = p;
    }
    let body = match req.content {
        Some(c) => c,
        None => content,
    };
    meta.updated_at_ms = now;
    Ok((meta, body))
}

/// The front matter read from a requirement file, refused when it records a
/// phase that a file may not record.
pub fn validate_requirement_meta(meta: RequirementMeta) -> (r: Result<RequirementMeta, RequirementError>)
    ensures
        storable_phase(meta.phase) ==> r == Ok::<RequirementMeta, RequirementError>(meta),
        !storable_phase(meta.phase) ==> r == Err::<RequirementMeta, RequirementError>(RequirementError::PhaseInvalid),
{
    if phase_storable(meta.phase) {
        Ok(meta)
    } else {
        Err(RequirementError::PhaseInvalid)
    }
}

/// Whether `key` is the key of a refused requirement request.
pub open spec fn known_requirement_key(key: Seq<char>) -> bool {
    ||| key == "requirement_id_empty"@
    ||| key == "requirement_id_invalid"@
    ||| key == "requirement_title_empty"@
    ||| key == "requirement_not_found"@
    ||| key == "requirement_already_exists"@
    ||| key == "requirement_phase_invalid"@
    ||| key == "requirement_frontmatter_missing"@
}

/// How a failed requirement request is answered, by the key of its error: a
/// missing requirement with 404, another known error with 400 and its own
/// message key, anything else with 400 and `requirement_id_invalid`.
pub fn map_requirement_err(key: &str) -> (r: (u16, String))
    ensures
        key@ == "requirement_not_found"@ ==> r.0 == 404 && r.1@ == key@,
        key@ != "requirement_not_found"@ && known_requirement_key(key@) ==> r.0 == 400 && r.1@ == key@,
        !known_requirement_key(key@) ==> r.0 == 400 && r.1@ == "requirement_id_invalid"@,
{
    if same_text(key, "requirement_not_found") {
        return (404, key.to_owned());
    }
    let known = same_text(key, "requirement_id_empty") || same_text(key, "requirement_id_invalid")
        || same_text(key, "requirement_title_empty") || same_text(key, "requirement_already_exists")
        || same_text(key, "requirement_phase_invalid") || same_text(key, "requirement_frontmatter_missing");
    if known {
        (400, key.to_owned())
    } else {
        (400, "requirement_id_invalid".to_owned())
    }
}

/// The optimizing agent's instructions before the requirement's id.
pub const OPTIMIZE_HEAD: &'static str = "You are a product specialist optimizing a requirement during the collection phase.\n\n## Working directory\nThis directory is the requirement `";

/// The optimizing agent's instructions after the requirement's id.
pub const OPTIMIZE_TAIL: &'static str = "` package. The requirement body is in `requirement.md` (YAML frontmatter followed by a Markdown body).\n\n## Task\n1. Read `requirement.md`.\n2. Rewrite the Markdown body to be clearer, more complete and well structured. Improve: background/goals, scope, user stories, acceptance criteria, edge cases, non-functional requirements and open questions. Keep the author's intent; do not invent unrelated features.\n3. Preserve the YAML frontmatter keys `id`, `phase`, `created_at_ms`. Refresh `updated_at_ms` to the current epoch milliseconds. Keep `id` equal to the directory name and keep `phase` as `collection`.\n4. Write the improved requirement back to `requirement.md`.\n5. Reply briefly summarizing the improvements you made.\n\nDo not only describe intent — perform the file edits.";

/// The messages that have an agent optimize requirement `requirement_id`:
/// its instructions, then the request with the requirement's title and body.
pub fn build_optimize_messages(requirement_id: &str, title: &str, content: &str) -> (r: Vec<ToolChatMessage>)
    ensures
        r@.len() == 2,
        r@[0].role@ == "system"@,
        r@[0].content@ == OPTIMIZE_HEAD@ + requirement_id@ + OPTIMIZE_TAIL@,
        r@[1].role@ == "user"@,
        r@[1].content@ == "Optimize requirement **"@ + title@ + "** (`"@ + requirement_id@ + "`) now.\n\n---\n\n"@ + content@,
{
    let mut system = OPTIMIZE_HEAD.to_string();
    system.append(requirement_id);
    system.append(OPTIMIZE_TAIL);
    let mut user = "Optimize requirement **".to_string();
    user.append(title);
    user.append("** (`");
    user.append(requirement_id);
    user.append("`) now.\n\n---\n\n");
    user.append(content);
    let mut out: Vec<ToolChatMessage> = Vec::new();
    out.push(ToolChatMessage { role: "system".to_string(), content: system });
    out.push(ToolChatMessage { role: "user".to_string(), content: user });
    out
}

} // verus!
