use vstd::prelude::*;
use crate::paths::{join_path, joined};
use crate::text::{chars_of, contains, has_substring, is_ascii_alnum, is_ascii_alphanumeric, same_text, trim, trimmed};

verus! {

/// A menu of the settings.
#[derive(Debug, Clone, Copy, PartialEq, Eq, Structural)]
pub enum SettingsMenu {
    Tools,
    Departments,
    Roles,
    Employees,
    WorkRules,
}

impl SettingsMenu {
    pub open spec fn name(self) -> Seq<char> {
        match self {
            SettingsMenu::Tools => "tools"@,
            SettingsMenu::Departments => "departments"@,
            SettingsMenu::Roles => "roles"@,
            SettingsMenu::Employees => "employees"@,
            SettingsMenu::WorkRules => "work_rules"@,
        }
    }

    /// The menu's name.
    pub fn as_str(&self) -> (r: &'static str)
        ensures
            r@ == self.name(),
    {
        match self {
            SettingsMenu::Tools => "tools",
            SettingsMenu::Departments => "departments",
            SettingsMenu::Roles => "roles",
            SettingsMenu::Employees => "employees",
            SettingsMenu::WorkRules => "work_rules",
        }
    }

    /// The menu named `s`; none for an unsupported name.
    pub fn parse(s: &str) -> (r: Option<SettingsMenu>)
        ensures
            match r {
                Some(m) => m.name() == s@,
                None => forall|m: SettingsMenu| m.name() != s@,
            },
    {
        if same_text(s, "tools") {
            Some(SettingsMenu::Tools)
        } else if same_text(s, "departments") {
            Some(SettingsMenu::Departments)
        } else if same_text(s, "roles") {
            Some(SettingsMenu::Roles)
        } else if same_text(s, "employees") {
            Some(SettingsMenu::Employees)
        } else if same_text(s, "work_rules") {
            Some(SettingsMenu::WorkRules)
        } else {
            None
        }
    }

    /// Whether the menu has a file of its own among the settings: all but the
    /// work rules.
    pub fn is_stored(&self) -> (r: bool)
        ensures
            r == (*self != SettingsMenu::WorkRules),
    {
        !matches!(self, SettingsMenu::WorkRules)
    }
}

/// Why a settings address was refused.
#[derive(Debug, Clone, Copy, PartialEq, Eq, Structural)]
pub enum AddressError {
    Empty,
    Format,
    EmptySegment,
    SegmentInvalid,
}

impl AddressError {
    pub open spec fn key_text(self) -> Seq<char> {
        match self {
            AddressError::Empty => "address_empty"@,
            AddressError::Format => "address_format"@,
            AddressError::EmptySegment => "address_empty_segment"@,
            AddressError::SegmentInvalid => "address_segment_invalid"@,
        }
    }

    /// The error's message key.
    pub fn key(&self) -> (r: &'static str)
        ensures
            r@ == self.key_text(),
    {
        match self {
            AddressError::Empty => "address_empty",
            AddressError::Format => "address_format",
            AddressError::EmptySegment => "address_empty_segment",
            AddressError::SegmentInvalid => "address_segment_invalid",
        }
    }
}

/// Length of the part of `s` before its first `.` (all of `s` when there is none).
pub open spec fn dot_index(s: Seq<char>) -> nat
    decreases s.len(),
{
    if s.len() == 0 {
        0
    } else if s[0] == '.' {
        0
    } else {
        1 + dot_index(s.drop_first())
    }
}

/// The `.`-separated parts of `s`, as `str::split('.')` gives them.
pub open spec fn split_dots(s: Seq<char>) -> Seq<Seq<char>>
    decreases s.len(),
{
    if dot_index(s) >= s.len() {
        seq![s]
    } else {
        seq![s.subrange(0, dot_index(s) as int)] + split_dots(s.subrange(dot_index(s) as int + 1, s.len() as int))
    }
}

/// A character an address segment may hold.
pub open spec fn segment_char(c: char) -> bool {
    is_ascii_alnum(c) || c == '_' || c == '-'
}

/// What is wrong with one segment of an address, if anything.
pub open spec fn segment_fault(seg: Seq<char>) -> Option<AddressError> {
    if seg.len() == 0 {
        Some(AddressError::EmptySegment)
    } else if exists|k: int| 0 <= k < seg.len() && !segment_char(#[trigger] seg[k]) {
        Some(AddressError::SegmentInvalid)
    } else {
        None
    }
}

/// What is wrong with the first faulty one of `segs`, if any.
pub open spec fn first_fault(segs: Seq<Seq<char>>) -> Option<AddressError>
    decreases segs.len(),
{
    if segs.len() == 0 {
        None
    } else if segment_fault(segs[0]) is Some {
        segment_fault(segs[0])
    } else {
        first_fault(segs.drop_first())
    }
}

/// Whether `address` names a settings item: not blank, holding a `.`, and
/// made of non-empty `.`-separated segments of ASCII letters, digits, `_`
/// and `-`; else the first thing wrong with it.
pub open spec fn address_check(address: Seq<char>) -> Result<(), AddressError> {
    if trim(address).len() == 0 {
        Err(AddressError::Empty)
    } else if !has_substring(address, "."@) {
        Err(AddressError::Format)
    } else {
        match first_fault(split_dots(address)) {
            Some(e) => Err(e),
            None => Ok(()),
        }
    }
}

proof fn lemma_dot_index(s: Seq<char>, k: int)
    requires
        0 <= k <= s.len(),
        k < s.len() ==> s[k] == '.',
        forall|j: int| 0 <= j < k ==> s[j] != '.',
    ensures
        dot_index(s) == k,
    decreases s.len(),
{
    if s.len() > 0 && s[0] != '.' {
        lemma_dot_index(s.drop_first(), k - 1);
    }
}

/// Checks a settings address.
pub fn validate_address(address: &str) -> (r: Result<(), AddressError>)
    ensures
        r == address_check(address@),
{
    let t = trimmed(address);
    if t.as_str().is_empty() {
        return Err(AddressError::Empty);
    }
    if !contains(address, ".") {
        return Err(AddressError::Format);
    }
    let v = chars_of(address);
    let n = v.len();
    let mut st: usize = 0;
    assert(v@.subrange(0, n as int) =~= v@);
    loop
        invariant
            st <= n,
            n == v@.len(),
            v@ == address@,
            trim(address@).len() > 0,
            has_substring(address@, "."@),
            first_fault(split_dots(address@)) == first_fault(split_dots(v@.subrange(st as int, n as int))),
        decreases n - st,
    {
        let ghost rest = v@.subrange(st as int, n as int);
        let mut e = st;
        let mut ok = true;
        while e < n && v[e] != '.'
            invariant
                st <= e <= n,
                n == v@.len(),
                forall|j: int| st <= j < e ==> v@[j] != '.',
                ok == forall|j: int| st <= j < e ==> segment_char(#[trigger] v@[j]),
            decreases n - e,
        {
            let c = v[e];
            if !(is_ascii_alphanumeric(c) || c == '_' || c == '-') {
                ok = false;
            }
            e = e + 1;
        }
        proof {
            lemma_dot_index(rest, (e - st) as int);
        }
        let ghost seg = v@.subrange(st as int, e as int);
        assert(seg =~= rest.subrange(0, (e - st) as int));
        assert(split_dots(rest)[0] == seg);
        assert(ok == !exists|k: int| 0 <= k < seg.len() && !segment_char(#[trigger] seg[k])) by {
            if !ok {
                let j = choose|j: int| st <= j < e && !segment_char(#[trigger] v@[j]);
                assert(seg[j - st] == v@[j]);
            } else {
                assert forall|k: int| 0 <= k < seg.len() implies segment_char(#[trigger] seg[k]) by {
                    assert(seg[k] == v@[st + k]);
                }
            }
        }
        if e == st {
            return Err(AddressError::EmptySegment);
        }
        if !ok {
            return Err(AddressError::SegmentInvalid);
        }
        if e == n {
            assert(split_dots(rest) == seq![rest]);
            assert(seg == rest);
            assert(segment_fault(rest) is None);
            assert(split_dots(rest).drop_first() =~= Seq::<Seq<char>>::empty());
            assert(first_fault(Seq::<Seq<char>>::empty()) is None);
            assert(first_fault(split_dots(rest)) is None);
            return Ok(());
        }
        assert(rest.subrange((e - st) + 1, rest.len() as int) =~= v@.subrange(e + 1, n as int));
        assert(split_dots(rest).drop_first() =~= split_dots(v@.subrange(e + 1, n as int)));
        st = e + 1;
    }
}

/// Why a workspace path was refused.
#[derive(Debug, Clone, Copy, PartialEq, Eq, Structural)]
pub enum WorkspacePathError {
    Empty,
}

/// The workspace directory that `raw` names, trimmed and taken from `cwd`
/// when it is relative; refused when it is blank.
pub fn normalize_workspace_path(raw: &str, cwd: &str) -> (r: Result<String, WorkspacePathError>)
    ensures
        trim(raw@).len() == 0 ==> r == Err::<String, WorkspacePathError>(WorkspacePathError::Empty),
        trim(raw@).len() > 0 ==> (r matches Ok(p) && p@ == joined(cwd@, trim(raw@))),
{
    let t = trimmed(raw);
    if t.as_str().is_empty() {
        return Err(WorkspacePathError::Empty);
    }
    Ok(join_path(cwd, t.as_str()))
}


/// Where the workspace in use was named.
#[derive(Debug, Clone, Copy, PartialEq, Eq, Structural)]
pub enum WorkspaceSource {
    /// By the environment variable, which pins it.
    Env,
    /// By the configuration file, or by default.
    Config,
}

impl WorkspaceSource {
    pub open spec fn text(self) -> Seq<char> {
        match self {
            WorkspaceSource::Env => "env"@,
            WorkspaceSource::Config => "config"@,
        }
    }

    /// The name the workspace status shows.
    pub fn as_str(&self) -> (r: &'static str)
        ensures
            r@ == self.text(),
    {
        match self {
            WorkspaceSource::Env => "env",
            WorkspaceSource::Config => "config",
        }
    }
}

/// Whether the workspace may be changed through the API: not while the
/// environment names it (`workspace_env_controlled`).
pub fn check_workspace_change(source: WorkspaceSource) -> (r: Result<(), &'static str>)
    ensures
        source == WorkspaceSource::Env <==> r is Err,
        r matches Err(k) ==> k@ == "workspace_env_controlled"@,
{
    match source {
        WorkspaceSource::Env => Err("workspace_env_controlled"),
        WorkspaceSource::Config => Ok(()),
    }
}

} // verus!
