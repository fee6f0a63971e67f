//! Where the Ted files live, how todos and projects are named, and what a
//! project file says about its project.
use vstd::prelude::*;
use crate::paths::{join, join_path};
use crate::text::{
    chars_eq, copy_range, find_char, has_prefix, has_suffix, index_of, is_control,
    is_control_char, lines, padded_decimal, parse_decimal_u32, parse_u32, push_chars, push_str,
    remove_leading, remove_prefix, split_lines, starts_with, ends_with, string_from, strip_prefix,
    to_chars, to_lowercase, trim, trim_char, trim_matches, trim_start_matches, trim_ws, lowercase,
    format_padded,
};

verus! {

broadcast use vstd::seq_lib::group_to_multiset_ensures;

// ---------------------------------------------------------------------------
// The regex crate
// ---------------------------------------------------------------------------

/// What the `regex` crate finds for capture group 1 when `pattern` is
/// searched in `text`: `None` when the pattern does not compile, does not
/// match, or the group took no part in the match.
pub uninterp spec fn regex_group1(pattern: Seq<char>, text: Seq<char>) -> Option<Seq<char>>;

/// Compiles `pattern` with `regex::Regex::new` and returns the text of
/// capture group 1 of the leftmost match in `text` (`Regex::captures`,
/// `Captures::get`, `Match::as_str`). The contract only ties the result to
/// the name `regex_group1` of the pattern and the text.
#[verifier::external_body]
pub(crate) fn first_capture(pattern: &str, text: &str) -> (r: Option<String>)
    ensures
        match r {
            Some(g) => regex_group1(pattern@, text@) == Some(g@),
            None => regex_group1(pattern@, text@) is None,
        },
{
    let re = regex::Regex::new(pattern).ok()?;
    let caps = re.captures(text)?;
    caps.get(1).map(|m| m.as_str().to_string())
}

/// The number in capture group 1 of `pattern` in `text`, when it parses as a
/// `u32`.
pub open spec fn captured_u32(pattern: Seq<char>, text: Seq<char>) -> Option<u32> {
    match regex_group1(pattern, text) {
        Some(g) => parse_u32(g),
        None => None,
    }
}

/// `first_capture` followed by `str::parse::<u32>`.
pub fn capture_u32(pattern: &str, text: &str) -> (r: Option<u32>)
    ensures
        r == captured_u32(pattern@, text@),
{
    match first_capture(pattern, text) {
        Some(g) => {
            let v = to_chars(g.as_str());
            parse_decimal_u32(v.as_slice())
        },
        None => None,
    }
}

/// Todo file names: letters, then the numeric id, then `_`.
pub open spec fn todo_file_pattern() -> Seq<char> {
    "^\\p{L}+(\\d+)_"@
}

/// Project file names: letters, then the numeric id.
pub open spec fn project_file_pattern() -> Seq<char> {
    "^\\p{L}+(\\d+)"@
}

/// The views of a sequence of strings.
pub open spec fn views(v: Seq<String>) -> Seq<Seq<char>> {
    v.map_values(|s: String| s@)
}

/// The largest number that `pattern` captures among `names` (0 if none).
pub open spec fn max_captured(pattern: Seq<char>, names: Seq<Seq<char>>) -> nat
    decreases names.len(),
{
    if names.len() == 0 {
        0
    } else {
        let m = max_captured(pattern, names.drop_last());
        match captured_u32(pattern, names.last()) {
            Some(k) => if k > m {
                k as nat
            } else {
                m
            },
            None => m,
        }
    }
}

/// Every number that `pattern` captures among `names` is at most
/// `max_captured`.
pub proof fn lemma_max_captured_bounds(pattern: Seq<char>, names: Seq<Seq<char>>, i: int)
    requires
        0 <= i < names.len(),
        captured_u32(pattern, names[i]) is Some,
    ensures
        captured_u32(pattern, names[i])->0 <= max_captured(pattern, names),
    decreases names.len(),
{
    if i < names.len() - 1 {
        assert(names.drop_last()[i] == names[i]);
        lemma_max_captured_bounds(pattern, names.drop_last(), i);
    }
}

proof fn lemma_max_captured_fits(pattern: Seq<char>, names: Seq<Seq<char>>)
    ensures
        max_captured(pattern, names) <= u32::MAX,
    decreases names.len(),
{
    if names.len() > 0 {
        lemma_max_captured_fits(pattern, names.drop_last());
    }
}

/// The largest id that `pattern` finds in `names`.
pub fn max_id_in(pattern: &str, names: &Vec<String>) -> (r: u32)
    ensures
        r as nat == max_captured(pattern@, views(names@)),
{
    let mut m: u32 = 0;
    let mut i: usize = 0;
    while i < names.len()
        invariant
            i <= names.len(),
            m as nat == max_captured(pattern@, views(names@).take(i as int)),
        decreases names.len() - i,
    {
        let id = capture_u32(pattern, names[i].as_str());
        proof {
            assert(views(names@).take(i + 1).drop_last() =~= views(names@).take(i as int));
            assert(views(names@).take(i + 1).last() == names@[i as int]@);
        }
        match id {
            Some(k) => {
                if k > m {
                    m = k;
                }
            },
            None => {},
        }
        i = i + 1;
    }
    assert(views(names@).take(i as int) =~= views(names@));
    m
}

// ---------------------------------------------------------------------------
// Names of todos and projects
// ---------------------------------------------------------------------------

/// How a character of a name appears in a file name: spaces, path
/// separators, characters that file systems refuse, and control characters
/// become `'_'`; everything else (Unicode included) stays.
pub open spec fn sanitize_char(c: char) -> char {
    if c == ' ' || c == '/' || c == '\\' || c == ':' || c == '*' || c == '?' || c == '"' || c
        == '<' || c == '>' || c == '|' || is_control(c) {
        '_'
    } else {
        c
    }
}

/// A name as it appears in a file name: each character sanitized, then the
/// whole lower-cased.
pub open spec fn sanitized_name(name: Seq<char>) -> Seq<char> {
    lowercase(name.map_values(|c: char| sanitize_char(c)))
}

/// The id of a todo: the project's shorthand and the number padded to
/// three digits, or `T` and the number padded to five digits.
pub open spec fn todo_id(shorthand: Option<Seq<char>>, n: nat) -> Seq<char> {
    match shorthand {
        Some(sh) => sh + padded_decimal(n, 3),
        None => seq!['T'] + padded_decimal(n, 5),
    }
}

/// The file name of a todo: its id, `_`, its sanitized name and `.md`.
pub open spec fn todo_filename(name: Seq<char>, shorthand: Option<Seq<char>>, n: nat) -> Seq<
    char,
> {
    todo_id(shorthand, n) + seq!['_'] + sanitized_name(name) + seq!['.', 'm', 'd']
}

/// The id of a new project: its shorthand (or `P`) and the number padded to
/// five digits.
pub open spec fn project_id(shorthand: Seq<char>, n: nat) -> Seq<char> {
    if shorthand.len() > 0 {
        shorthand + padded_decimal(n, 5)
    } else {
        seq!['P'] + padded_decimal(n, 5)
    }
}

/// The heading line of a new project file (without its newline).
pub open spec fn project_heading(name: Seq<char>, shorthand: Seq<char>) -> Seq<char> {
    if shorthand.len() > 0 {
        seq!['#', ' '] + shorthand + seq![':', ' '] + name
    } else {
        seq!['#', ' '] + name
    }
}

/// The text of a new project file.
pub open spec fn project_file_text(
    id: Seq<char>,
    heading: Seq<char>,
    description: Seq<char>,
    timestamp: Seq<char>,
) -> Seq<char> {
    "---\n"@ + "completed: null\n"@ + "created: "@ + timestamp + seq!['\n'] + "id: "@ + id + seq![
        '\n',
    ] + "project_id: null\n"@ + "tags: []\n"@ + "---\n"@ + heading + seq!['\n'] + (
    if description.len() > 0 {
        description + seq!['\n']
    } else {
        Seq::empty()
    }) + "# Info \n"@
}

/// How a project id is written in a todo's front matter.
pub open spec fn formatted_project_id(project_id: Seq<char>) -> Seq<char> {
    if project_id.len() == 0 {
        seq!['\'', '\'']
    } else if starts_with(project_id, seq!['[', '[']) && ends_with(project_id, seq![']', ']']) {
        seq!['\''] + project_id + seq!['\'']
    } else {
        seq!['\'', '[', '['] + project_id + seq![']', ']', '\'']
    }
}

// ---------------------------------------------------------------------------
// Front matter and headings
// ---------------------------------------------------------------------------

/// A front matter value without surrounding whitespace and quotes.
pub open spec fn clean_field_value(v: Seq<char>) -> Seq<char> {
    trim_char(trim_char(trim(v), '"'), '\'')
}

/// Whether a cleaned value counts as present.
pub open spec fn field_value_present(v: Seq<char>) -> bool {
    v.len() > 0 && v != "null"@
}

/// The first present value of the line prefix `prefix` inside the front
/// matter (the lines between the first two `---` lines), scanning `ls`
/// with `inside` telling whether the scan is already in the front matter.
pub open spec fn frontmatter_field_in(ls: Seq<Seq<char>>, prefix: Seq<char>, inside: bool) -> Option<
    Seq<char>,
>
    decreases ls.len(),
{
    if ls.len() == 0 {
        None
    } else {
        let line = ls[0];
        if trim(line) == "---"@ {
            if inside {
                None
            } else {
                frontmatter_field_in(ls.drop_first(), prefix, true)
            }
        } else if inside && strip_prefix(line, prefix) is Some && field_value_present(
            clean_field_value(strip_prefix(line, prefix)->0),
        ) {
            Some(clean_field_value(strip_prefix(line, prefix)->0))
        } else {
            frontmatter_field_in(ls.drop_first(), prefix, inside)
        }
    }
}

/// The value of `field` in the front matter of `content`.
pub open spec fn frontmatter_field(content: Seq<char>, field: Seq<char>) -> Option<Seq<char>> {
    frontmatter_field_in(lines(content), field + seq![':'], false)
}

/// Shorthand and name that a heading text gives: the parts before and after
/// the first `':'`, or no shorthand and the whole heading.
pub open spec fn heading_info(h: Seq<char>) -> (Option<Seq<char>>, Option<Seq<char>>) {
    let i = index_of(h, ':');
    if i < h.len() {
        (Some(trim(h.take(i as int))), Some(trim(h.skip(i as int + 1))))
    } else {
        (None, Some(h))
    }
}

/// The heading text of a line that starts with `"# "`.
pub open spec fn heading_text(line: Seq<char>) -> Seq<char> {
    trim(trim_start_matches(line, seq!['#', ' ']))
}

/// Shorthand and name from the first line of `ls` that starts with `"# "`.
pub open spec fn project_info_in(ls: Seq<Seq<char>>) -> (Option<Seq<char>>, Option<Seq<char>>)
    decreases ls.len(),
{
    if ls.len() == 0 {
        (None, None)
    } else if starts_with(ls[0], seq!['#', ' ']) {
        heading_info(heading_text(ls[0]))
    } else {
        project_info_in(ls.drop_first())
    }
}

pub open spec fn project_info(content: Seq<char>) -> (Option<Seq<char>>, Option<Seq<char>>) {
    project_info_in(lines(content))
}

// ---------------------------------------------------------------------------
// Projects
// ---------------------------------------------------------------------------

/// A project: its id, the optional shorthand used in todo ids, its name and
/// the path of its file.
#[derive(Clone, Debug)]
pub struct Project {
    pub id: String,
    pub shorthand: Option<String>,
    pub name: String,
    pub filepath: String,
}

/// The view of an optional string.
/// A project as values.
pub struct ProjectView {
    pub id: Seq<char>,
    pub shorthand: Option<Seq<char>>,
    pub name: Seq<char>,
    pub filepath: Seq<char>,
}

impl Project {
    pub open spec fn view(&self) -> ProjectView {
        ProjectView {
            id: self.id@,
            shorthand: opt_view(self.shorthand),
            name: self.name@,
            filepath: self.filepath@,
        }
    }

    /// A copy of this project.
    pub fn copy(&self) -> (r: Project)
        ensures
            r.view() == self.view(),
    {
        Project {
            id: self.id.clone(),
            shorthand: match &self.shorthand {
                Some(s) => Some(s.clone()),
                None => None,
            },
            name: self.name.clone(),
            filepath: self.filepath.clone(),
        }
    }
}

pub open spec fn opt_view(o: Option<String>) -> Option<Seq<char>> {
    match o {
        Some(s) => Some(s@),
        None => None,
    }
}

/// Lexicographic order on character sequences (the order of `String`).
pub open spec fn seq_le(a: Seq<char>, b: Seq<char>) -> bool
    decreases a.len(),
{
    if a.len() == 0 {
        true
    } else if b.len() == 0 {
        false
    } else if a[0] != b[0] {
        a[0] < b[0]
    } else {
        seq_le(a.drop_first(), b.drop_first())
    }
}

pub proof fn lemma_seq_le_total(a: Seq<char>, b: Seq<char>)
    ensures
        seq_le(a, b) || seq_le(b, a),
    decreases a.len(),
{
    if a.len() > 0 && b.len() > 0 && a[0] == b[0] {
        lemma_seq_le_total(a.drop_first(), b.drop_first());
    }
}

/// `a <= b` for strings.
pub fn string_le(a: &str, b: &str) -> (r: bool)
    ensures
        r == seq_le(a@, b@),
{
    let x = to_chars(a);
    let y = to_chars(b);
    let mut i: usize = 0;
    assert(x@.skip(0) =~= x@);
    assert(y@.skip(0) =~= y@);
    while i < x.len() && i < y.len() && x[i] == y[i]
        invariant
            i <= x.len(),
            i <= y.len(),
            seq_le(x@, y@) == seq_le(x@.skip(i as int), y@.skip(i as int)),
        decreases x.len() - i,
    {
        assert(x@.skip(i as int).drop_first() =~= x@.skip(i + 1));
        assert(y@.skip(i as int).drop_first() =~= y@.skip(i + 1));
        i = i + 1;
    }
    if i == x.len() {
        true
    } else if i == y.len() {
        false
    } else {
        x[i] < y[i]
    }
}

/// The ids of projects.
pub open spec fn project_ids(ps: Seq<Project>) -> Seq<Seq<char>> {
    ps.map_values(|p: Project| p.id@)
}

impl Project {
    /// The projects ordered by id, equal ids in their order (`get_projects`
    /// sorts what it reads).
    pub fn sort_by_id(projects: Vec<Project>) -> (r: Vec<Project>)
        ensures
            r@.len() == projects@.len(),
            exists|p: Seq<int>|
                #[trigger] crate::order::is_stable_order(project_ids(projects@), p) && forall|i: int|
                    0 <= i < r@.len() ==> r@[i].view() == projects@[p[i]].view(),
    {
        let mut ids: Vec<String> = Vec::new();
        let mut i: usize = 0;
        while i < projects.len()
            invariant
                i <= projects@.len(),
                ids@.len() == i,
                forall|k: int| 0 <= k < i ==> (#[trigger] ids@[k])@ == projects@[k].id@,
            decreases projects.len() - i,
        {
            ids.push(projects[i].id.clone());
            i = i + 1;
        }
        let p = crate::order::stable_order(&ids);
        let ghost ps = crate::order::positions(p@);
        proof {
            assert(ids@.map_values(|s: String| s@) =~= project_ids(projects@));
            assert forall|k: int| 0 <= k < p@.len() implies #[trigger] p@[k] < projects@.len() by {
                assert(ps[k] == p@[k] as int);
            }
        }
        let mut r: Vec<Project> = Vec::new();
        let mut k: usize = 0;
        while k < p.len()
            invariant
                k <= p@.len(),
                p@.len() == projects@.len(),
                forall|j: int| 0 <= j < p@.len() ==> #[trigger] p@[j] < projects@.len(),
                r@.len() == k,
                forall|j: int| 0 <= j < k ==> (#[trigger] r@[j]).view() == projects@[p@[j] as int].view(),
            decreases p.len() - k,
        {
            r.push(projects[p[k]].copy());
            k = k + 1;
        }
        proof {
            assert forall|j: int| 0 <= j < r@.len() implies r@[j].view() == projects@[ps[j]].view() by {
                assert(ps[j] == p@[j] as int);
            }
        }
        r
    }
}

// ---------------------------------------------------------------------------
// The storage layout
// ---------------------------------------------------------------------------

/// A new project file: the project's id, where its file goes and what it
/// says.
pub struct NewProjectFile {
    pub id: String,
    pub filepath: String,
    pub content: String,
}

/// The Ted directory tree: `todos`, `done` and `projects` under one root.
pub struct FileStorage {
    ted_root: String,
}

/// The home directory, or `.` when it is not known.
pub open spec fn home_or_dot(home: Option<String>) -> Seq<char> {
    match home {
        Some(h) => h@,
        None => seq!['.'],
    }
}

impl FileStorage {
    /// The root of the tree.
    pub closed spec fn root(&self) -> Seq<char> {
        self.ted_root@
    }

    /// The tree under `<home>/.ted`, with `.` for an unknown home.
    pub fn new(home: Option<String>) -> (r: FileStorage)
        ensures
            r.root() == join_path(home_or_dot(home), ".ted"@),
    {
        let base = match home {
            Some(h) => h,
            None => string_from(&['.']),
        };
        assert(home_or_dot(home) =~= base@) by {
            if home is None {
                assert(base@ =~= seq!['.']);
            }
        }
        FileStorage { ted_root: join(base.as_str(), ".ted") }
    }

    /// Where open todos live.
    pub fn get_todos_dir(&self) -> (r: String)
        ensures
            r@ == join_path(self.root(), "todos"@),
    {
        join(self.ted_root.as_str(), "todos")
    }

    /// Where finished todos live.
    pub fn get_done_dir(&self) -> (r: String)
        ensures
            r@ == join_path(self.root(), "done"@),
    {
        join(self.ted_root.as_str(), "done")
    }

    /// Where project files live.
    pub fn get_projects_dir(&self) -> (r: String)
        ensures
            r@ == join_path(self.root(), "projects"@),
    {
        join(self.ted_root.as_str(), "projects")
    }

    /// The numeric id in a todo file name such as `ADM106_something.md`.
    pub fn extract_id_from_filename(&self, filename: &str) -> (r: Option<u32>)
        ensures
            r == captured_u32(todo_file_pattern(), filename@),
    {
        capture_u32("^\\p{L}+(\\d+)_", filename)
    }

    /// The next free todo id, one above every id in the file names of the
    /// todos and done folders; `None` when the largest id is `u32::MAX`.
    pub fn get_next_id(&self, todo_names: &Vec<String>, done_names: &Vec<String>) -> (r: Option<
        u32,
    >)
        ensures
            ({
                let m = vstd::math::max(
                    max_captured(todo_file_pattern(), views(todo_names@)) as int,
                    max_captured(todo_file_pattern(), views(done_names@)) as int,
                );
                if m < u32::MAX {
                    r == Some((m + 1) as u32)
                } else {
                    r is None
                }
            }),
    {
        let a = max_id_in("^\\p{L}+(\\d+)_", todo_names);
        let b = max_id_in("^\\p{L}+(\\d+)_", done_names);
        let m = if a > b {
            a
        } else {
            b
        };
        if m < u32::MAX {
            Some(m + 1)
        } else {
            None
        }
    }

    /// The next free project id, one above every id in the project file
    /// names; `None` when the largest id is `u32::MAX`.
    pub fn get_next_project_id(&self, project_names: &Vec<String>) -> (r: Option<u32>)
        ensures
            ({
                let m = max_captured(project_file_pattern(), views(project_names@));
                if m < u32::MAX {
                    r == Some((m + 1) as u32)
                } else {
                    r is None
                }
            }),
    {
        let m = max_id_in("^\\p{L}+(\\d+)", project_names);
        if m < u32::MAX {
            Some(m + 1)
        } else {
            None
        }
    }

    /// A name made safe for a file name.
    pub fn sanitize_name(&self, name: &str) -> (r: String)
        ensures
            r@ == sanitized_name(name@),
    {
        let chars = to_chars(name);
        let mut out: Vec<char> = Vec::new();
        let mut i: usize = 0;
        while i < chars.len()
            invariant
                i <= chars.len(),
                out@ == chars@.take(i as int).map_values(|c: char| sanitize_char(c)),
            decreases chars.len() - i,
        {
            let c = chars[i];
            let d = if c == ' ' || c == '/' || c == '\\' || c == ':' || c == '*' || c == '?' || c
                == '"' || c == '<' || c == '>' || c == '|' || is_control_char(c) {
                '_'
            } else {
                c
            };
            out.push(d);
            i = i + 1;
            assert(out@ =~= chars@.take(i as int).map_values(|c: char| sanitize_char(c)));
        }
        assert(chars@.take(i as int) =~= chars@);
        let s = string_from(out.as_slice());
        to_lowercase(s.as_str())
    }

    /// The id of a todo numbered `next_id` (with the project's shorthand if
    /// it has one).
    pub fn generate_id(&self, project_shorthand: Option<&str>, next_id: u32) -> (r: String)
        ensures
            r@ == todo_id(
                match project_shorthand {
                    Some(s) => Some(s@),
                    None => None,
                },
                next_id as nat,
            ),
    {
        match project_shorthand {
            Some(sh) => {
                let mut s = string_from(&[]);
                push_str(&mut s, sh);
                let digits = format_padded(next_id, 3);
                push_chars(&mut s, digits.as_slice());
                s
            },
            None => {
                let mut s = string_from(&['T']);
                let digits = format_padded(next_id, 5);
                push_chars(&mut s, digits.as_slice());
                s
            },
        }
    }

    /// The file name of a new todo numbered `next_id`.
    pub fn generate_filename(&self, name: &str, project_shorthand: Option<&str>, next_id: u32) -> (r:
        String)
        ensures
            r@ == todo_filename(
                name@,
                match project_shorthand {
                    Some(s) => Some(s@),
                    None => None,
                },
                next_id as nat,
            ),
    {
        let mut s = self.generate_id(project_shorthand, next_id);
        push_chars(&mut s, &['_']);
        let sanitized = self.sanitize_name(name);
        push_str(&mut s, sanitized.as_str());
        push_chars(&mut s, &['.', 'm', 'd']);
        s
    }

    /// The id, path and text of a new project file numbered `next_id`,
    /// created at `timestamp`.
    pub fn new_project_file(
        &self,
        name: &str,
        description: &str,
        shorthand: &str,
        next_id: u32,
        timestamp: &str,
    ) -> (r: NewProjectFile)
        ensures
            r.id@ == project_id(shorthand@, next_id as nat),
            r.filepath@ == join_path(
                join_path(self.root(), "projects"@),
                project_id(shorthand@, next_id as nat) + seq!['_'] + sanitized_name(name@) + seq![
                    '.',
                    'm',
                    'd',
                ],
            ),
            r.content@ == project_file_text(
                project_id(shorthand@, next_id as nat),
                project_heading(name@, shorthand@),
                description@,
                timestamp@,
            ),
    {
        let sh = to_chars(shorthand);
        let digits = format_padded(next_id, 5);
        let mut id = string_from(&[]);
        if sh.len() > 0 {
            push_str(&mut id, shorthand);
        } else {
            push_chars(&mut id, &['P']);
        }
        push_chars(&mut id, digits.as_slice());
        let mut filename = id.clone();
        push_chars(&mut filename, &['_']);
        let sanitized = self.sanitize_name(name);
        push_str(&mut filename, sanitized.as_str());
        push_chars(&mut filename, &['.', 'm', 'd']);
        let dir = self.get_projects_dir();
        let filepath = join(dir.as_str(), filename.as_str());
        let mut heading = string_from(&['#', ' ']);
        if sh.len() > 0 {
            push_str(&mut heading, shorthand);
            push_chars(&mut heading, &[':', ' ']);
        }
        push_str(&mut heading, name);
        let mut content = string_from(&[]);
        push_str(&mut content, "---\n");
        push_str(&mut content, "completed: null\n");
        push_str(&mut content, "created: ");
        push_str(&mut content, timestamp);
        push_chars(&mut content, &['\n']);
        push_str(&mut content, "id: ");
        push_str(&mut content, id.as_str());
        push_chars(&mut content, &['\n']);
        push_str(&mut content, "project_id: null\n");
        push_str(&mut content, "tags: []\n");
        push_str(&mut content, "---\n");
        push_str(&mut content, heading.as_str());
        push_chars(&mut content, &['\n']);
        let d = to_chars(description);
        if d.len() > 0 {
            push_str(&mut content, description);
            push_chars(&mut content, &['\n']);
        }
        push_str(&mut content, "# Info \n");
        proof {
            assert(content@ =~= project_file_text(
                project_id(shorthand@, next_id as nat),
                project_heading(name@, shorthand@),
                description@,
                timestamp@,
            ));
        }
        NewProjectFile { id, filepath, content }
    }

    /// How a project id is written in a todo's front matter.
    pub fn format_project_id(project_id: &str) -> (r: String)
        ensures
            r@ == formatted_project_id(project_id@),
    {
        let p = to_chars(project_id);
        if p.len() == 0 {
            string_from(&['\'', '\''])
        } else if has_prefix(p.as_slice(), &['[', '[']) && has_suffix(p.as_slice(), &[']', ']']) {
            let mut s = string_from(&['\'']);
            push_chars(&mut s, p.as_slice());
            push_chars(&mut s, &['\'']);
            s
        } else {
            let mut s = string_from(&['\'', '[', '[']);
            push_chars(&mut s, p.as_slice());
            push_chars(&mut s, &[']', ']', '\'']);
            s
        }
    }

    /// The value of `field` in the front matter of `content`.
    pub fn extract_frontmatter_field(&self, content: &str, field: &str) -> (r: Option<String>)
        ensures
            opt_view(r) == frontmatter_field(content@, field@),
    {
        let text = to_chars(content);
        let ls = split_lines(text.as_slice());
        let ghost all = lines(content@);
        let mut prefix = to_chars(field);
        prefix.push(':');
        let ghost pre = field@ + seq![':'];
        assert(prefix@ =~= pre);
        let dashes = to_chars("---");
        let null = to_chars("null");
        let mut inside = false;
        let mut i: usize = 0;
        assert(all.skip(0) =~= all);
        while i < ls.len()
            invariant
                i <= ls.len(),
                all == lines(content@),
                ls@.len() == all.len(),
                forall|k: int| 0 <= k < ls@.len() ==> (#[trigger] ls@[k])@ == all[k],
                prefix@ == pre,
                pre == field@ + seq![':'],
                dashes@ == "---"@,
                null@ == "null"@,
                frontmatter_field_in(all, pre, false) == frontmatter_field_in(
                    all.skip(i as int),
                    pre,
                    inside,
                ),
            decreases ls.len() - i,
        {
            let line = &ls[i];
            proof {
                assert(line@ == all[i as int]);
                assert(all.skip(i as int)[0] == all[i as int]);
                assert(all.skip(i as int).drop_first() =~= all.skip(i + 1));
            }
            let t = trim_ws(line.as_slice());
            if chars_eq(t.as_slice(), dashes.as_slice()) {
                if inside {
                    assert(frontmatter_field_in(all.skip(i as int), pre, inside) is None);
                    return None;
                }
                inside = true;
            } else if inside {
                match remove_prefix(line.as_slice(), prefix.as_slice()) {
                    Some(value) => {
                        let v1 = trim_ws(value.as_slice());
                        let v2 = trim_matches(v1.as_slice(), '"');
                        let v3 = trim_matches(v2.as_slice(), '\'');
                        if v3.len() > 0 && !chars_eq(v3.as_slice(), null.as_slice()) {
                            proof {
                                assert(field_value_present(v3@));
                                assert(frontmatter_field_in(all.skip(i as int), pre, inside)
                                    == Some(v3@));
                            }
                            return Some(string_from(v3.as_slice()));
                        }
                    },
                    None => {},
                }
            }
            i = i + 1;
        }
        None
    }

    /// Shorthand and name from the first `"# "` heading of `content`.
    pub fn extract_project_info_from_content(&self, content: &str) -> (r: (
        Option<String>,
        Option<String>,
    ))
        ensures
            (opt_view(r.0), opt_view(r.1)) == project_info(content@),
    {
        let text = to_chars(content);
        let ls = split_lines(text.as_slice());
        let ghost all = lines(content@);
        let mut i: usize = 0;
        assert(all.skip(0) =~= all);
        while i < ls.len()
            invariant
                i <= ls.len(),
                all == lines(content@),
                ls@.len() == all.len(),
                forall|k: int| 0 <= k < ls@.len() ==> (#[trigger] ls@[k])@ == all[k],
                project_info_in(all) == project_info_in(all.skip(i as int)),
            decreases ls.len() - i,
        {
            let line = &ls[i];
            proof {
                assert(all.skip(i as int)[0] == all[i as int]);
                assert(all.skip(i as int).drop_first() =~= all.skip(i + 1));
            }
            if has_prefix(line.as_slice(), &['#', ' ']) {
                let stripped = remove_leading(line.as_slice(), &['#', ' ']);
                let heading = trim_ws(stripped.as_slice());
                let pos = find_char(heading.as_slice(), ':');
                if pos < heading.len() {
                    let before = copy_range(heading.as_slice(), 0, pos);
                    let after = copy_range(heading.as_slice(), pos + 1, heading.len());
                    let sh = trim_ws(before.as_slice());
                    let nm = trim_ws(after.as_slice());
                    proof {
                        assert(before@ =~= heading@.take(pos as int));
                        assert(after@ =~= heading@.skip(pos as int + 1));
                    }
                    return (Some(string_from(sh.as_slice())), Some(string_from(nm.as_slice())));
                } else {
                    return (None, Some(string_from(heading.as_slice())));
                }
            }
            i = i + 1;
        }
        assert(all.skip(i as int) =~= Seq::<Seq<char>>::empty());
        (None, None)
    }

    /// The project a project file describes, if its front matter names an
    /// id: its shorthand and name come from the first heading, and the name
    /// falls back to the id.
    pub fn project_from_content(&self, content: &str, filepath: &str) -> (r: Option<Project>)
        ensures
            match frontmatter_field(content@, "id"@) {
                Some(id) => match r {
                    Some(p) => {
                        &&& p.id@ == id
                        &&& opt_view(p.shorthand) == project_info(content@).0
                        &&& p.name@ == match project_info(content@).1 {
                            Some(n) => n,
                            None => id,
                        }
                        &&& p.filepath@ == filepath@
                    },
                    None => false,
                },
                None => r is None,
            },
    {
        let id = match self.extract_frontmatter_field(content, "id") {
            Some(v) => v,
            None => {
                return None;
            },
        };
        let (shorthand, name) = self.extract_project_info_from_content(content);
        let name = match name {
            Some(n) => n,
            None => id.clone(),
        };
        Some(Project { id, shorthand, name, filepath: string_from(to_chars(filepath).as_slice()) })
    }
}

} // verus!
