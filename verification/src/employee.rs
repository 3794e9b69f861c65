use vstd::prelude::*;
use crate::git::registry::all_id;
use crate::requirement::{compact_slug, slug_of};
use crate::autonomy::legacy::object_lines;
use crate::text::{chars_le, lemma_chars_le_refl, lemma_chars_le_total, lemma_chars_le_trans, str_le,
    
    all_id_chars, chars_of, decimal, has_prefix, lines_of, lowercase, split_lines, string_from_chars,
    to_lowercase, trim, trimmed, u64_to_decimal, views,
};

verus! {

/// An employee of the company.
#[derive(Debug)]
pub struct EmployeeRecord {
    pub id: String,
    pub name: String,
    pub department: String,
    pub role: String,
    pub memory_file: String,
}

/// Why an employee request was refused.
#[derive(Debug, Clone, Copy, PartialEq, Eq, Structural)]
pub enum EmployeeError {
    IdEmpty,
    IdInvalid,
    NameEmpty,
    DepartmentEmpty,
    RoleEmpty,
}

impl EmployeeError {
    pub open spec fn key_text(self) -> Seq<char> {
        match self {
            EmployeeError::IdEmpty => "employee_id_empty"@,
            EmployeeError::IdInvalid => "employee_id_invalid"@,
            EmployeeError::NameEmpty => "employee_name_empty"@,
            EmployeeError::DepartmentEmpty => "employee_department_empty"@,
            EmployeeError::RoleEmpty => "employee_role_empty"@,
        }
    }

    /// The error's message key.
    pub fn key(&self) -> (r: &'static str)
        ensures
            r@ == self.key_text(),
    {
        match self {
            EmployeeError::IdEmpty => "employee_id_empty",
            EmployeeError::IdInvalid => "employee_id_invalid",
            EmployeeError::NameEmpty => "employee_name_empty",
            EmployeeError::DepartmentEmpty => "employee_department_empty",
            EmployeeError::RoleEmpty => "employee_role_empty",
        }
    }
}

/// An employee id as a request gives it: trimmed and lower-cased, not empty,
/// made of ASCII letters, digits, `_` and `-`.
pub fn normalize_employee_id(raw: &str) -> (r: Result<String, EmployeeError>)
    ensures
        lowercase(trim(raw@)).len() == 0 ==> r == Err::<String, EmployeeError>(EmployeeError::IdEmpty),
        lowercase(trim(raw@)).len() > 0 && !all_id(lowercase(trim(raw@))) ==> r == Err::<String, EmployeeError>(EmployeeError::IdInvalid),
        lowercase(trim(raw@)).len() > 0 && all_id(lowercase(trim(raw@))) ==> (r matches Ok(id) && id@ == lowercase(trim(raw@))),
{
    let t = trimmed(raw);
    let id = to_lowercase(t.as_str());
    check_lowered_employee_id(id)
}

/// An employee id already trimmed and lower-cased, checked: not empty, made of
/// ASCII letters, digits, `_` and `-`.
pub fn check_lowered_employee_id(id: String) -> (r: Result<String, EmployeeError>)
    ensures
        id@.len() == 0 ==> r == Err::<String, EmployeeError>(EmployeeError::IdEmpty),
        id@.len() > 0 && !all_id(id@) ==> r == Err::<String, EmployeeError>(EmployeeError::IdInvalid),
        id@.len() > 0 && all_id(id@) ==> (r matches Ok(x) && x@ == id@),
{
    if id.as_str().is_empty() {
        return Err(EmployeeError::IdEmpty);
    }
    let v = chars_of(id.as_str());
    if !all_id_chars(&v) {
        return Err(EmployeeError::IdInvalid);
    }
    Ok(id)
}

/// The id of a new employee taken from their name, as a requirement's is from
/// its title; refused when the name has no ASCII letter or digit.
pub fn derive_employee_id(name: &str) -> (r: Result<String, EmployeeError>)
    ensures
        slug_of(name@).len() == 0 ==> r == Err::<String, EmployeeError>(EmployeeError::IdInvalid),
        slug_of(name@).len() > 0 ==> (r matches Ok(id) && id@ == slug_of(name@)),
{
    match crate::requirement::derive_requirement_id(name) {
        Ok(id) => Ok(id),
        Err(_) => Err(EmployeeError::IdInvalid),
    }
}

/// The memory file of the employee kept in directory `dir_name`.
pub fn memory_file_for(dir_name: &str) -> (r: String)
    ensures
        r@ == "shachiku/"@ + dir_name@ + "/memory.md"@,
{
    let mut s = "shachiku/".to_owned();
    s.append(dir_name);
    s.append("/memory.md");
    s
}

/// An employee's memory with a section added: a line break first when the
/// memory does not end with one, then a blank line, the section's heading, a
/// blank line and its body.
pub fn append_memory_section(existing: &str, section_title: &str, body: &str) -> (r: String)
    ensures
        r@ == (if existing@.len() > 0 && existing@.last() != '\n' { existing@ + "\n"@ } else { existing@ })
            + "\n## "@ + section_title@ + "\n\n"@ + body@ + "\n"@,
{
    let v = chars_of(existing);
    let mut s = existing.to_owned();
    if v.len() > 0 && v[v.len() - 1] != '\n' {
        s.append("\n");
    }
    s.append("\n## ");
    s.append(section_title);
    s.append("\n\n");
    s.append(body);
    s.append("\n");
    s
}

/// A profile the hiring agent proposed, kept when its name, department and
/// role are all non-blank (then trimmed).
pub fn accept_profile(name: &str, department: &str, role: &str) -> (r: Option<(String, String, String)>)
    ensures
        (trim(name@).len() > 0 && trim(department@).len() > 0 && trim(role@).len() > 0) ==> (r matches Some((n, d, ro))
            && n@ == trim(name@) && d@ == trim(department@) && ro@ == trim(role@)),
        !(trim(name@).len() > 0 && trim(department@).len() > 0 && trim(role@).len() > 0) ==> r is None,
{
    let n = trimmed(name);
    let d = trimmed(department);
    let ro = trimmed(role);
    if n.as_str().is_empty() || d.as_str().is_empty() || ro.as_str().is_empty() {
        None
    } else {
        Some((n, d, ro))
    }
}

/// `s` without its leading `*`s.
pub open spec fn strip_stars(s: Seq<char>) -> Seq<char>
    decreases s.len(),
{
    if s.len() > 0 && s[0] == '*' {
        strip_stars(s.drop_first())
    } else {
        s
    }
}

/// A line of free-form output as it is read for a field: trimmed, leading
/// `*`s dropped, trimmed again.
pub open spec fn field_line(l: Seq<char>) -> Seq<char> {
    trim(strip_stars(trim(l)))
}

/// The value that the last line of `lines` giving `label` gives, if any.
pub open spec fn last_field(lines: Seq<Seq<char>>, label: Seq<char>) -> Option<Seq<char>>
    decreases lines.len(),
{
    if lines.len() == 0 {
        None
    } else {
        let l = field_line(lines.last());
        if has_prefix(l, label) {
            Some(trim(l.subrange(label.len() as int, l.len() as int)))
        } else {
            last_field(lines.drop_last(), label)
        }
    }
}

/// A line read as a field line.
fn field_line_exec(line: &str) -> (r: Vec<char>)
    ensures
        r@ == field_line(line@),
{
    let t = trimmed(line);
    let v = chars_of(t.as_str());
    let mut a: usize = 0;
    proof {
        assert(v@.subrange(0, v@.len() as int) =~= v@);
    }
    while a < v.len() && v[a] == '*'
        invariant
            a <= v@.len(),
            strip_stars(v@) == strip_stars(v@.subrange(a as int, v@.len() as int)),
        decreases v@.len() - a,
    {
        proof {
            let w = v@.subrange(a as int, v@.len() as int);
            assert(w.drop_first() =~= v@.subrange(a + 1, v@.len() as int));
        }
        a = a + 1;
    }
    let mut rest: Vec<char> = Vec::new();
    let mut k = a;
    while k < v.len()
        invariant
            a <= k <= v@.len(),
            rest@ == v@.subrange(a as int, k as int),
        decreases v@.len() - k,
    {
        rest.push(v[k]);
        assert(v@.subrange(a as int, k + 1) =~= v@.subrange(a as int, k as int).push(v@[k as int]));
        k = k + 1;
    }
    let s = string_from_chars(&rest);
    let u = trimmed(s.as_str());
    chars_of(u.as_str())
}

/// The trimmed value after `label` when `l` starts with it.
fn field_value(l: &Vec<char>, label: &str) -> (r: Option<String>)
    ensures
        has_prefix(l@, label@) ==> (r matches Some(x) && x@ == trim(l@.subrange(label@.len() as int, l@.len() as int))),
        !has_prefix(l@, label@) ==> r is None,
{
    let lv = chars_of(label);
    if !crate::text::starts_with_chars(l, &lv) {
        return None;
    }
    let mut rest: Vec<char> = Vec::new();
    let mut k = lv.len();
    while k < l.len()
        invariant
            lv@.len() <= k <= l@.len(),
            rest@ == l@.subrange(lv@.len() as int, k as int),
        decreases l@.len() - k,
    {
        rest.push(l[k]);
        assert(l@.subrange(lv@.len() as int, k + 1) =~= l@.subrange(lv@.len() as int, k as int).push(l@[k as int]));
        k = k + 1;
    }
    let s = string_from_chars(&rest);
    Some(trimmed(s.as_str()))
}

/// The name, department and role that free-form output gives in `Name:`,
/// `Department:` and `Role:` lines (the last of each counts; leading `*`s are
/// ignored); none unless all three are given and not blank.
pub fn profile_from_text(output: &str) -> (r: Option<(String, String, String)>)
    ensures
        ({
            let ls = split_lines(output@);
            match (last_field(ls, "Name:"@), last_field(ls, "Department:"@), last_field(ls, "Role:"@)) {
                (Some(n), Some(d), Some(ro)) => if n.len() > 0 && d.len() > 0 && ro.len() > 0 {
                    r matches Some((a, b, c)) && a@ == n && b@ == d && c@ == ro
                } else {
                    r is None
                },
                _ => r is None,
            }
        }),
{
    let lines = lines_of(output);
    let ghost ls = views(lines@);
    let mut name: Option<String> = None;
    let mut department: Option<String> = None;
    let mut role: Option<String> = None;
    let mut i: usize = 0;
    proof {
        assert(ls.take(0) =~= Seq::<Seq<char>>::empty());
    }
    while i < lines.len()
        invariant
            i <= lines@.len(),
            ls == views(lines@),
            ls == split_lines(output@),
            match name { Some(x) => last_field(ls.take(i as int), "Name:"@) == Some(x@), None => last_field(ls.take(i as int), "Name:"@) is None },
            match department { Some(x) => last_field(ls.take(i as int), "Department:"@) == Some(x@), None => last_field(ls.take(i as int), "Department:"@) is None },
            match role { Some(x) => last_field(ls.take(i as int), "Role:"@) == Some(x@), None => last_field(ls.take(i as int), "Role:"@) is None },
        decreases lines@.len() - i,
    {
        proof {
            assert(ls.take(i + 1).drop_last() =~= ls.take(i as int));
            assert(ls.take(i + 1).last() == lines@[i as int]@);
        }
        let l = field_line_exec(lines[i].as_str());
        let n = field_value(&l, "Name:");
        let d = field_value(&l, "Department:");
        let ro = field_value(&l, "Role:");
        if n.is_some() {
            name = n;
        }
        if d.is_some() {
            department = d;
        }
        if ro.is_some() {
            role = ro;
        }
        i = i + 1;
    }
    proof {
        assert(ls.take(ls.len() as int) =~= ls);
    }
    match (name, department, role) {
        (Some(n), Some(d), Some(ro)) => {
            if n.as_str().is_empty() || d.as_str().is_empty() || ro.as_str().is_empty() {
                None
            } else {
                Some((n, d, ro))
            }
        },
        _ => None,
    }
}

/// The profile that free-form output gives, as `profile_from_text` reads it.
pub open spec fn text_profile(output: Seq<char>) -> Option<(Seq<char>, Seq<char>, Seq<char>)> {
    let ls = split_lines(output);
    match (last_field(ls, "Name:"@), last_field(ls, "Department:"@), last_field(ls, "Role:"@)) {
        (Some(n), Some(d), Some(ro)) => if n.len() > 0 && d.len() > 0 && ro.len() > 0 {
            Some((n, d, ro))
        } else {
            None
        },
        _ => None,
    }
}

/// A profile taken by the text of its fields.
pub open spec fn profile_view(p: Option<(String, String, String)>) -> Option<(Seq<char>, Seq<char>, Seq<char>)> {
    match p {
        Some((a, b, c)) => Some((a@, b@, c@)),
        None => None,
    }
}

/// A parsed profile as it is kept: trimmed, and only when no field is blank.
pub open spec fn accepted_profile(p: Option<(String, String, String)>) -> Option<(Seq<char>, Seq<char>, Seq<char>)> {
    match p {
        Some((n, d, r)) => if trim(n@).len() > 0 && trim(d@).len() > 0 && trim(r@).len() > 0 {
            Some((trim(n@), trim(d@), trim(r@)))
        } else {
            None
        },
        None => None,
    }
}

/// The first of the parsed profiles that is kept.
pub open spec fn first_accepted(parsed: Seq<Option<(String, String, String)>>) -> Option<(Seq<char>, Seq<char>, Seq<char>)>
    decreases parsed.len(),
{
    if parsed.len() == 0 {
        None
    } else if accepted_profile(parsed[0]) is Some {
        accepted_profile(parsed[0])
    } else {
        first_accepted(parsed.drop_first())
    }
}

/// The profile the hiring agent's output gives: the first JSON candidate that
/// parsed to a profile with no blank field, else the `Name:`/`Department:`/
/// `Role:` lines of the output.
pub open spec fn agent_profile(parsed: Seq<Option<(String, String, String)>>, output: Seq<char>) -> Option<(Seq<char>, Seq<char>, Seq<char>)> {
    if first_accepted(parsed) is Some {
        first_accepted(parsed)
    } else {
        text_profile(output)
    }
}

/// The places in the hiring agent's output where its JSON profile may stand, in
/// the order they are tried: each trimmed line that opens a JSON object, then
/// the whole output.
pub fn employee_json_candidates(output: &str) -> (r: Vec<String>)
    ensures
        views(r@) == object_lines(split_lines(output@)).push(output@),
{
    let lines = lines_of(output);
    let ghost ls = views(lines@);
    let mut out: Vec<String> = Vec::new();
    let mut i: usize = 0;
    proof {
        assert(ls.take(0) =~= Seq::<Seq<char>>::empty());
        assert(views(out@) =~= Seq::<Seq<char>>::empty());
    }
    while i < lines.len()
        invariant
            i <= lines@.len(),
            ls == views(lines@),
            ls == split_lines(output@),
            views(out@) == object_lines(ls.take(i as int)),
        decreases lines@.len() - i,
    {
        proof {
            assert(ls.take(i + 1).drop_last() =~= ls.take(i as int));
            assert(ls.take(i + 1).last() == lines@[i as int]@);
        }
        let line = trimmed(lines[i].as_str());
        let v = chars_of(line.as_str());
        if v.len() > 0 && v[0] == '{' {
            let ghost before = views(out@);
            out.push(line);
            assert(views(out@) =~= before.push(trim(lines@[i as int]@)));
        }
        i = i + 1;
    }
    proof {
        assert(ls.take(ls.len() as int) =~= ls);
    }
    let ghost before = views(out@);
    out.push(output.to_string());
    assert(views(out@) =~= before.push(output@));
    out
}

/// The profile that the hiring agent's output gives. `parsed` holds, for each
/// of `employee_json_candidates(output)` in order, the name, department and
/// role it parsed to as JSON, if any.
pub fn parse_agent_employee_output(parsed: &Vec<Option<(String, String, String)>>, output: &str) -> (r: Option<(String, String, String)>)
    ensures
        profile_view(r) == agent_profile(parsed@, output@),
{
    let mut i: usize = 0;
    assert(parsed@.subrange(0, parsed@.len() as int) =~= parsed@);
    while i < parsed.len()
        invariant
            i <= parsed@.len(),
            first_accepted(parsed@) == first_accepted(parsed@.subrange(i as int, parsed@.len() as int)),
        decreases parsed@.len() - i,
    {
        let ghost rest = parsed@.subrange(i as int, parsed@.len() as int);
        assert(rest[0] == parsed@[i as int]);
        match &parsed[i] {
            Some((n, d, ro)) => {
                let kept = accept_profile(n.as_str(), d.as_str(), ro.as_str());
                if kept.is_some() {
                    return kept;
                }
            },
            None => {},
        }
        assert(rest.drop_first() =~= parsed@.subrange(i + 1, parsed@.len() as int));
        i = i + 1;
    }
    assert(first_accepted(parsed@.subrange(parsed@.len() as int, parsed@.len() as int)) is None);
    profile_from_text(output)
}

/// What the hiring agent is told first.
pub const HIRE_SYSTEM_PROMPT: &'static str = "You are an HR assistant that creates new employee profiles for a software development company. You output only valid JSON objects with name, department, and role fields.";

/// The hiring request before the number of employees.
pub const HIRE_PROMPT_HEAD: &'static str = "You are creating a new team member for a software development company. There are already ";

/// The hiring request after the number of employees.
pub const HIRE_PROMPT_TAIL: &'static str = " employees in the company.\n\nCreate a new employee with a realistic and culturally appropriate name, a reasonable department, and a specific role. The employee should have a unique identity that complements the existing team.\n\nRequirements:\n- Name: Give the employee a realistic human name (not \"Employee N\" or generic)\n- Department: Choose from: product, engineering, qa, operations, design, marketing, finance, hr, legal, sales, support\n- Role: Define a specific job title (e.g., \"Senior Frontend Developer\", \"UX Designer\", \"QA Automation Engineer\")\n\nRespond with ONLY a valid JSON object in this exact format:\n{\"name\": \"Full Name\", \"department\": \"department_name\", \"role\": \"Specific Role\"}\n\nDo not include any other text, explanation, or markdown code fences. Only the JSON object.";

/// The hiring request for a company of `existing_count` employees.
pub fn build_hire_employee_prompt(existing_count: u64) -> (r: String)
    ensures
        r@ == HIRE_PROMPT_HEAD@ + decimal(existing_count as nat) + HIRE_PROMPT_TAIL@,
{
    let mut s = HIRE_PROMPT_HEAD.to_owned();
    let n = u64_to_decimal(existing_count);
    s.append(n.as_str());
    s.append(HIRE_PROMPT_TAIL);
    s
}

/// The id a new employee gets: the given one normalized, else one taken from
/// the name.
pub open spec fn new_employee_id(name: Seq<char>, id: Option<Seq<char>>) -> Result<Seq<char>, EmployeeError> {
    match id {
        Some(raw) => {
            let t = lowercase(trim(raw));
            if t.len() == 0 {
                Err(EmployeeError::IdEmpty)
            } else if !all_id(t) {
                Err(EmployeeError::IdInvalid)
            } else {
                Ok(t)
            }
        },
        None => if slug_of(name).len() == 0 {
            Err(EmployeeError::IdInvalid)
        } else {
            Ok(slug_of(name))
        },
    }
}

/// A request to create an employee, checked: name, department and role are
/// trimmed and must not be blank (checked in that order), and the id is the
/// given one normalized or one taken from the trimmed name. Gives the id, name,
/// department and role.
pub fn validate_new_employee(name: &str, department: &str, role: &str, id: Option<&str>) -> (r: Result<(String, String, String, String), EmployeeError>)
    ensures
        trim(name@).len() == 0 ==> r == Err::<(String, String, String, String), EmployeeError>(EmployeeError::NameEmpty),
        trim(name@).len() > 0 && trim(department@).len() == 0 ==> r == Err::<(String, String, String, String), EmployeeError>(EmployeeError::DepartmentEmpty),
        trim(name@).len() > 0 && trim(department@).len() > 0 && trim(role@).len() == 0 ==> r == Err::<(String, String, String, String), EmployeeError>(EmployeeError::RoleEmpty),
        trim(name@).len() > 0 && trim(department@).len() > 0 && trim(role@).len() > 0 ==> match new_employee_id(
            trim(name@),
            match id { Some(x) => Some(x@), None => None },
        ) {
            Err(e) => r == Err::<(String, String, String, String), EmployeeError>(e),
            Ok(i) => r matches Ok((a, b, c, d)) && a@ == i && b@ == trim(name@) && c@ == trim(department@) && d@ == trim(role@),
        },
{
    let n = trimmed(name);
    if n.as_str().is_empty() {
        return Err(EmployeeError::NameEmpty);
    }
    let d = trimmed(department);
    if d.as_str().is_empty() {
        return Err(EmployeeError::DepartmentEmpty);
    }
    let ro = trimmed(role);
    if ro.as_str().is_empty() {
        return Err(EmployeeError::RoleEmpty);
    }
    let employee_id = match id {
        Some(custom) => normalize_employee_id(custom),
        None => derive_employee_id(n.as_str()),
    };
    match employee_id {
        Err(e) => Err(e),
        Ok(i) => Ok((i, n, d, ro)),
    }
}

/// The employee whose profile, kept in directory `dir_name`, gives these fields.
pub fn parse_employee(dir_name: &str, id: String, name: String, department: String, role: String) -> (r: EmployeeRecord)
    ensures
        r.id == id,
        r.name == name,
        r.department == department,
        r.role == role,
        r.memory_file@ == "shachiku/"@ + dir_name@ + "/memory.md"@,
{
    EmployeeRecord { id, name, department, role, memory_file: memory_file_for(dir_name) }
}

/// Whether the employees of `s` are in order of id.
pub open spec fn ids_sorted(s: Seq<EmployeeRecord>) -> bool {
    forall|i: int, j: int| 0 <= i < j < s.len() ==> chars_le((#[trigger] s[i]).id@, (#[trigger] s[j]).id@)
}

/// The employees of `s` whose id is `id`, in order.
pub open spec fn with_id(s: Seq<EmployeeRecord>, id: Seq<char>) -> Seq<EmployeeRecord>
    decreases s.len(),
{
    if s.len() == 0 {
        seq![]
    } else if s.last().id@ == id {
        with_id(s.drop_last(), id).push(s.last())
    } else {
        with_id(s.drop_last(), id)
    }
}

proof fn lemma_with_id_add(a: Seq<EmployeeRecord>, b: Seq<EmployeeRecord>, id: Seq<char>)
    ensures
        with_id(a + b, id) == with_id(a, id) + with_id(b, id),
    decreases b.len(),
{
    if b.len() == 0 {
        assert(a + b =~= a);
        assert(with_id(a, id) + with_id(b, id) =~= with_id(a, id));
    } else {
        assert((a + b).drop_last() =~= a + b.drop_last());
        assert((a + b).last() == b.last());
        lemma_with_id_add(a, b.drop_last(), id);
        if b.last().id@ == id {
            assert(with_id(a, id) + with_id(b.drop_last(), id).push(b.last()) =~= (with_id(a, id)
                + with_id(b.drop_last(), id)).push(b.last()));
        }
    }
}

proof fn lemma_with_id_none(s: Seq<EmployeeRecord>, id: Seq<char>)
    requires
        forall|k: int| 0 <= k < s.len() ==> (#[trigger] s[k]).id@ != id,
    ensures
        with_id(s, id) == Seq::<EmployeeRecord>::empty(),
    decreases s.len(),
{
    if s.len() > 0 {
        assert(s.last() == s[s.len() - 1]);
        lemma_with_id_none(s.drop_last(), id);
    }
}

/// Puts `x` into the id-ordered `out`, after every employee whose id does not
/// come after its own.
fn insert_by_id(out: &mut Vec<EmployeeRecord>, x: EmployeeRecord)
    requires
        ids_sorted(old(out)@),
    ensures
        ids_sorted(final(out)@),
        final(out)@.to_multiset() == old(out)@.to_multiset().insert(x),
        forall|id: Seq<char>| #[trigger] with_id(final(out)@, id) == (if x.id@ == id {
            with_id(old(out)@, id).push(x)
        } else {
            with_id(old(out)@, id)
        }),
{
    let mut p: usize = 0;
    while p < out.len() && str_le(out[p].id.as_str(), x.id.as_str())
        invariant
            p <= out@.len(),
            forall|k: int| 0 <= k < p ==> chars_le((#[trigger] out@[k]).id@, x.id@),
        decreases out@.len() - p,
    {
        p = p + 1;
    }
    let ghost before = out@;
    proof {
        if p < before.len() {
            lemma_chars_le_total(before[p as int].id@, x.id@);
        }
    }
    out.insert(p, x);
    proof {
        broadcast use vstd::seq_lib::group_to_multiset_ensures;
        assert forall|i: int, j: int| 0 <= i < j < out@.len() implies chars_le((#[trigger] out@[i]).id@, (#[trigger] out@[j]).id@) by {
            if j < p {
                assert(out@[i] == before[i] && out@[j] == before[j]);
            } else if j == p {
                assert(out@[i] == before[i]);
            } else if i == p {
                assert(out@[j] == before[j - 1]);
                if j - 1 > p {
                    assert(chars_le(before[p as int].id@, before[j - 1].id@));
                } else {
                    lemma_chars_le_refl(before[p as int].id@);
                }
                lemma_chars_le_trans(x.id@, before[p as int].id@, before[j - 1].id@);
            } else if i < p {
                assert(out@[i] == before[i] && out@[j] == before[j - 1]);
            } else {
                assert(out@[i] == before[i - 1] && out@[j] == before[j - 1]);
            }
        }
    }
    proof {
        assert forall|k: int| p <= k < before.len() implies (#[trigger] before[k]).id@ != x.id@ by {
            lemma_chars_le_total(before[p as int].id@, x.id@);
            if before[k].id@ == x.id@ {
                if k == p {
                    lemma_chars_le_refl(x.id@);
                } else {
                    assert(chars_le(before[p as int].id@, before[k].id@));
                }
            }
        }
        let head = before.take(p as int);
        let tail = before.skip(p as int);
        assert(before =~= head + tail);
        assert(out@ =~= head + (seq![x] + tail));
        assert forall|id: Seq<char>| #[trigger] with_id(out@, id) == (if x.id@ == id {
            with_id(before, id).push(x)
        } else {
            with_id(before, id)
        }) by {
            lemma_with_id_add(head, seq![x] + tail, id);
            lemma_with_id_add(seq![x], tail, id);
            lemma_with_id_add(head, tail, id);
            assert(seq![x].drop_last() =~= Seq::<EmployeeRecord>::empty());
            assert(seq![x].last() == x);
            assert(with_id(Seq::<EmployeeRecord>::empty(), id) =~= Seq::<EmployeeRecord>::empty());
            assert(with_id(seq![x].drop_last(), id) =~= Seq::<EmployeeRecord>::empty());
            if x.id@ == id {
                assert forall|k: int| 0 <= k < tail.len() implies (#[trigger] tail[k]).id@ != id by {
                    assert(tail[k] == before[p + k]);
                }
                lemma_with_id_none(tail, id);
                assert(with_id(seq![x], id) =~= seq![x]);
                assert(with_id(before, id) =~= with_id(head, id));
                assert(with_id(out@, id) =~= with_id(head, id).push(x));
            } else {
                assert(with_id(seq![x], id) =~= Seq::<EmployeeRecord>::empty());
                assert(with_id(out@, id) =~= with_id(head, id) + with_id(tail, id));
            }
        }
    }
}

/// The employees in order of id, as a listing shows them; those with the same
/// id keep the order they came in.
pub fn sort_employee_records(items: Vec<EmployeeRecord>) -> (r: Vec<EmployeeRecord>)
    ensures
        ids_sorted(r@),
        r@.to_multiset() == items@.to_multiset(),
        forall|id: Seq<char>| #[trigger] with_id(r@, id) == with_id(items@, id),
{
    let ghost src = items@;
    let mut rest = items;
    let mut rev: Vec<EmployeeRecord> = Vec::new();
    while rest.len() > 0
        invariant
            rest@.len() + rev@.len() == src.len(),
            rest@ == src.take(rest@.len() as int),
            forall|k: int| 0 <= k < rev@.len() ==> #[trigger] rev@[k] == src[src.len() - 1 - k],
        decreases rest@.len(),
    {
        let x = rest.pop().unwrap();
        proof {
            assert(src.take(rest@.len() as int) =~= src.take(rest@.len() + 1int).drop_last());
        }
        rev.push(x);
    }
    let n = rev.len();
    let mut out: Vec<EmployeeRecord> = Vec::new();
    proof {
        broadcast use vstd::seq_lib::group_to_multiset_ensures;
        assert(src.take(0) =~= Seq::<EmployeeRecord>::empty());
        assert(out@ =~= src.take(0));
    }
    while rev.len() > 0
        invariant
            rev@.len() <= n,
            n == src.len(),
            forall|k: int| 0 <= k < rev@.len() ==> #[trigger] rev@[k] == src[src.len() - 1 - k],
            ids_sorted(out@),
            out@.to_multiset() == src.take(n - rev@.len()).to_multiset(),
            forall|id: Seq<char>| #[trigger] with_id(out@, id) == with_id(src.take(n - rev@.len()), id),
        decreases rev@.len(),
    {
        let ghost i = n - rev@.len();
        let x = rev.pop().unwrap();
        assert(x == src[i]);
        let ghost o0 = out@;
        insert_by_id(&mut out, x);
        proof {
            assert(src.take(i + 1).drop_last() =~= src.take(i));
            assert(src.take(i + 1).last() == x);
            assert(src.take(i + 1) =~= src.take(i).push(x));
            vstd::seq_lib::to_multiset_build(src.take(i), x);
        }
    }
    proof {
        assert(src.take(n as int) =~= src);
    }
    out
}

} // verus!
