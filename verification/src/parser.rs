//! Reading a todo file: front matter, heading, goal, tasks, note and history.
use vstd::prelude::*;
use crate::text::{
    chars_eq, copy_range, has_prefix, has_suffix, lines, push_chars, remove_leading,
    remove_prefix, split_lines, starts_with, ends_with, string_from, strip_prefix, to_chars, trim,
    trim_char, trim_matches, trim_start_matches, trim_ws,
};

verus! {

// ---------------------------------------------------------------------------
// YAML escapes
// ---------------------------------------------------------------------------

pub open spec fn is_hex_digit(c: char) -> bool {
    ('0' <= c && c <= '9') || ('a' <= c && c <= 'f') || ('A' <= c && c <= 'F')
}

pub open spec fn hex_digit_value(c: char) -> nat {
    if '0' <= c && c <= '9' {
        (c as int - '0' as int) as nat
    } else if 'a' <= c && c <= 'f' {
        (c as int - 'a' as int + 10) as nat
    } else {
        (c as int - 'A' as int + 10) as nat
    }
}

/// The value of at most two characters as `u32::from_str_radix(_, 16)`
/// reads them: an optional `'+'`, then at least one hexadecimal digit.
pub open spec fn hex_value(h: Seq<char>) -> Option<nat> {
    let d = if h.len() > 0 && h[0] == '+' {
        h.drop_first()
    } else {
        h
    };
    if d.len() == 1 && is_hex_digit(d[0]) {
        Some(hex_digit_value(d[0]))
    } else if d.len() == 2 && is_hex_digit(d[0]) && is_hex_digit(d[1]) {
        Some(hex_digit_value(d[0]) * 16 + hex_digit_value(d[1]))
    } else {
        None
    }
}

/// `s` with its `\xHH` escapes replaced by the characters they denote;
/// any other backslash stays as it is.
pub open spec fn unescape(s: Seq<char>) -> Seq<char>
    decreases s.len(),
{
    if s.len() == 0 {
        Seq::empty()
    } else if s[0] != '\\' {
        seq![s[0]] + unescape(s.drop_first())
    } else if s.len() == 1 {
        seq!['\\']
    } else if s[1] != 'x' {
        seq!['\\', s[1]] + unescape(s.skip(2))
    } else {
        let n: int = if s.len() >= 4 {
            2
        } else {
            s.len() - 2
        };
        let hex = s.subrange(2, 2 + n);
        match hex_value(hex) {
            Some(v) => seq![(v as u32) as char] + unescape(s.skip(2 + n)),
            None => seq!['\\', 'x'] + hex + unescape(s.skip(2 + n)),
        }
    }
}

fn hex_digit(c: char) -> (r: Option<u32>)
    ensures
        is_hex_digit(c) ==> r == Some(hex_digit_value(c) as u32),
        !is_hex_digit(c) ==> r is None,
{
    if '0' <= c && c <= '9' {
        Some((c as u32) - ('0' as u32))
    } else if 'a' <= c && c <= 'f' {
        Some((c as u32) - ('a' as u32) + 10)
    } else if 'A' <= c && c <= 'F' {
        Some((c as u32) - ('A' as u32) + 10)
    } else {
        None
    }
}

fn parse_hex(h: &[char]) -> (r: Option<u32>)
    requires
        h@.len() <= 2,
    ensures
        match hex_value(h@) {
            Some(v) => r == Some(v as u32),
            None => r is None,
        },
{
    let start: usize = if h.len() > 0 && h[0] == '+' {
        1
    } else {
        0
    };
    let d = copy_range(h, start, h.len());
    assert(d@ =~= (if h@.len() > 0 && h@[0] == '+' {
        h@.drop_first()
    } else {
        h@
    }));
    if d.len() == 1 {
        hex_digit(d[0])
    } else if d.len() == 2 {
        match (hex_digit(d[0]), hex_digit(d[1])) {
            (Some(a), Some(b)) => Some(a * 16 + b),
            _ => None,
        }
    } else {
        None
    }
}

/// `s` with its `\xHH` escapes replaced by the characters they denote.
pub fn unescape_yaml_string(s: &[char]) -> (r: Vec<char>)
    ensures
        r@ == unescape(s@),
{
    let mut out: Vec<char> = Vec::new();
    let mut i: usize = 0;
    assert(s@.skip(0) =~= s@);
    while i < s.len()
        invariant
            i <= s.len(),
            out@ + unescape(s@.skip(i as int)) == unescape(s@),
        decreases s.len() - i,
    {
        let ghost rest = s@.skip(i as int);
        let ghost out0 = out@;
        let c = s[i];
        assert(rest[0] == c);
        if c != '\\' {
            out.push(c);
            assert(rest.drop_first() =~= s@.skip(i + 1));
            assert(unescape(rest) == seq![c] + unescape(s@.skip(i + 1)));
            i = i + 1;
            assert(out@ + unescape(s@.skip(i as int)) =~= out0 + unescape(rest));
        } else if i + 1 == s.len() {
            out.push('\\');
            assert(rest.len() == 1);
            assert(s@.skip(i + 1) =~= Seq::<char>::empty());
            i = i + 1;
            assert(out@ + unescape(s@.skip(i as int)) =~= out0 + unescape(rest));
        } else if s[i + 1] != 'x' {
            let d = s[i + 1];
            out.push('\\');
            out.push(d);
            assert(rest[1] == d);
            assert(rest.skip(2) =~= s@.skip(i + 2));
            i = i + 2;
            assert(out@ + unescape(s@.skip(i as int)) =~= out0 + unescape(rest));
        } else {
            assert(rest[1] == 'x');
            let n: usize = if s.len() - i >= 4 {
                2
            } else {
                s.len() - i - 2
            };
            let hex = copy_range(s, i + 2, i + 2 + n);
            assert(hex@ =~= rest.subrange(2, 2 + n as int));
            assert(rest.skip(2 + n as int) =~= s@.skip(i + 2 + n));
            match parse_hex(hex.as_slice()) {
                Some(v) => {
                    let ch = (v as u8) as char;
                    proof {
                        let hv = hex_value(hex@)->0;
                        assert(hv < 256);
                        assert(ch == (hv as u32) as char);
                    }
                    out.push(ch);
                    assert(out@ =~= out0 + seq![ch]);
                },
                None => {
                    out.push('\\');
                    out.push('x');
                    let mut k: usize = 0;
                    while k < hex.len()
                        invariant
                            k <= hex.len(),
                            out@ == out0 + seq!['\\', 'x'] + hex@.take(k as int),
                        decreases hex.len() - k,
                    {
                        out.push(hex[k]);
                        k = k + 1;
                        assert(hex@.take(k as int) =~= hex@.take(k - 1).push(hex@[k - 1]));
                        assert(out@ =~= out0 + seq!['\\', 'x'] + hex@.take(k as int));
                    }
                    assert(hex@.take(k as int) =~= hex@);
                },
            }
            i = i + 2 + n;
            assert(out@ + unescape(s@.skip(i as int)) =~= out0 + unescape(rest));
        }
    }
    assert(s@.skip(i as int) =~= Seq::<char>::empty());
    out
}

// ---------------------------------------------------------------------------
// Todo files
// ---------------------------------------------------------------------------

/// One task of a todo.
#[derive(Clone, Debug)]
pub struct Task {
    pub text: String,
    pub completed: bool,
}

/// What a todo file holds.
#[derive(Clone, Debug)]
pub struct ParsedTodo {
    pub name: String,
    pub project_id: String,
    pub info: String,
    pub goal: String,
    pub tasks: Vec<Task>,
    pub note: String,
    pub history: String,
    pub id: String,
    pub created: String,
}

/// A task as text and completion.
pub struct TaskView {
    pub text: Seq<char>,
    pub completed: bool,
}

/// A todo file's fields as text.
pub struct TodoView {
    pub name: Seq<char>,
    pub project_id: Seq<char>,
    pub info: Seq<char>,
    pub goal: Seq<char>,
    pub tasks: Seq<TaskView>,
    pub note: Seq<char>,
    pub history: Seq<char>,
    pub id: Seq<char>,
    pub created: Seq<char>,
}

impl Task {
    pub open spec fn view(&self) -> TaskView {
        TaskView { text: self.text@, completed: self.completed }
    }
}

impl ParsedTodo {
    pub open spec fn view(&self) -> TodoView {
        TodoView {
            name: self.name@,
            project_id: self.project_id@,
            info: self.info@,
            goal: self.goal@,
            tasks: self.tasks@.map_values(|t: Task| t.view()),
            note: self.note@,
            history: self.history@,
            id: self.id@,
            created: self.created@,
        }
    }
}

/// The part of a todo file that a line belongs to.
#[derive(Clone, Copy, PartialEq, Eq, Structural)]
pub enum Section {
    Initial,
    Frontmatter,
    Goal,
    Tasks,
    Note,
    History,
    Other,
}

/// Where the reader stands after some lines, and what it has read.
pub struct ReadState {
    pub section: Section,
    pub found_heading: bool,
    pub todo: TodoView,
}

pub open spec fn empty_todo() -> TodoView {
    TodoView {
        name: Seq::empty(),
        project_id: Seq::empty(),
        info: Seq::empty(),
        goal: Seq::empty(),
        tasks: Seq::empty(),
        note: Seq::empty(),
        history: Seq::empty(),
        id: Seq::empty(),
        created: Seq::empty(),
    }
}

/// `text` with `line` appended on a line of its own.
pub open spec fn append_line(text: Seq<char>, line: Seq<char>) -> Seq<char> {
    if text.len() == 0 {
        line
    } else {
        text + seq!['\n'] + line
    }
}

/// What a front matter line sets.
pub open spec fn read_frontmatter_line(t: TodoView, line: Seq<char>) -> TodoView {
    if strip_prefix(line, "id:"@) is Some {
        let v = strip_prefix(line, "id:"@)->0;
        TodoView { id: unescape(trim_char(trim_char(trim(v), '"'), '\'')), ..t }
    } else if strip_prefix(line, "project_id:"@) is Some {
        let val = trim_char(trim(strip_prefix(line, "project_id:"@)->0), '\'');
        if starts_with(val, "[["@) && ends_with(val, "]]"@) {
            TodoView { project_id: unescape(trim_char(trim_char(val, '['), ']')), ..t }
        } else if val != "''"@ && val != "null"@ {
            TodoView { project_id: unescape(val), ..t }
        } else {
            t
        }
    } else if strip_prefix(line, "info:"@) is Some {
        let val = trim_char(trim_char(trim(strip_prefix(line, "info:"@)->0), '\''), '"');
        if val != "''"@ && val != "null"@ {
            TodoView { info: val, ..t }
        } else {
            t
        }
    } else if strip_prefix(line, "created:"@) is Some {
        TodoView { created: trim(strip_prefix(line, "created:"@)->0), ..t }
    } else {
        t
    }
}

/// What a task line adds: `- [x] `/`- [X] ` for a completed task,
/// `- [ ] ` for an open one; other lines add nothing.
pub open spec fn read_task_line(t: TodoView, line: Seq<char>) -> TodoView {
    if strip_prefix(line, "- [x] "@) is Some {
        TodoView {
            tasks: t.tasks.push(
                TaskView { text: trim(strip_prefix(line, "- [x] "@)->0), completed: true },
            ),
            ..t
        }
    } else if strip_prefix(line, "- [X] "@) is Some {
        TodoView {
            tasks: t.tasks.push(
                TaskView { text: trim(strip_prefix(line, "- [X] "@)->0), completed: true },
            ),
            ..t
        }
    } else if strip_prefix(line, "- [ ] "@) is Some {
        TodoView {
            tasks: t.tasks.push(
                TaskView { text: trim(strip_prefix(line, "- [ ] "@)->0), completed: false },
            ),
            ..t
        }
    } else {
        t
    }
}

/// What a line in the body of a section adds.
pub open spec fn read_body_line(section: Section, t: TodoView, line: Seq<char>) -> TodoView {
    match section {
        Section::Tasks => read_task_line(t, line),
        Section::Note => if line.len() > 0 {
            TodoView { note: append_line(t.note, line), ..t }
        } else {
            t
        },
        Section::History => if line.len() > 0 {
            TodoView { history: append_line(t.history, line), ..t }
        } else {
            t
        },
        Section::Goal => if trim(line).len() > 0 {
            TodoView { goal: append_line(t.goal, line), ..t }
        } else {
            t
        },
        _ => t,
    }
}

/// The reader's state after one more line.
pub open spec fn read_line(st: ReadState, line: Seq<char>) -> ReadState {
    if trim(line) == "---"@ {
        ReadState {
            section: if st.section == Section::Frontmatter {
                if st.found_heading {
                    Section::Goal
                } else {
                    Section::Initial
                }
            } else {
                Section::Frontmatter
            },
            ..st
        }
    } else if st.section == Section::Frontmatter {
        ReadState { todo: read_frontmatter_line(st.todo, line), ..st }
    } else if starts_with(line, "# "@) && !st.found_heading {
        ReadState {
            section: Section::Goal,
            found_heading: true,
            todo: TodoView { name: trim(trim_start_matches(line, "# "@)), ..st.todo },
        }
    } else if trim(line) == "# Tasks"@ {
        ReadState { section: Section::Tasks, ..st }
    } else if trim(line) == "# note"@ || trim(line) == "# Note"@ {
        ReadState { section: Section::Note, ..st }
    } else if trim(line) == "# History"@ || trim(line) == "# Info"@ {
        ReadState { section: Section::History, ..st }
    } else if starts_with(line, "# "@) {
        ReadState { section: Section::Other, ..st }
    } else {
        ReadState { todo: read_body_line(st.section, st.todo, line), ..st }
    }
}

/// The reader's state after the lines `ls`, from the start of a file.
pub open spec fn read_lines(ls: Seq<Seq<char>>) -> ReadState
    decreases ls.len(),
{
    if ls.len() == 0 {
        ReadState { section: Section::Initial, found_heading: false, todo: empty_todo() }
    } else {
        read_line(read_lines(ls.drop_last()), ls.last())
    }
}

/// The todo that a file with text `content` holds: what the reader
/// collected, with info, goal, note and history trimmed.
pub open spec fn parse_todo(content: Seq<char>) -> TodoView {
    let t = read_lines(lines(content)).todo;
    TodoView {
        info: trim(t.info),
        goal: trim(t.goal),
        note: trim(t.note),
        history: trim(t.history),
        ..t
    }
}

/// Appends `line` to `text` on a line of its own.
pub(crate) fn append_line_to(text: &mut String, line: &[char])
    ensures
        final(text)@ == append_line(old(text)@, line@),
{
    if text.as_str().is_empty() {
        push_chars(text, line);
        assert(text@ =~= line@);
    } else {
        push_chars(text, &['\n']);
        push_chars(text, line);
    }
}

/// Whether `a` equals the literal `lit`.
pub(crate) fn is_literal(a: &[char], lit: &str) -> (r: bool)
    ensures
        r == (a@ == lit@),
{
    let l = to_chars(lit);
    chars_eq(a, l.as_slice())
}

pub(crate) fn strip_literal(line: &[char], lit: &str) -> (r: Option<Vec<char>>)
    ensures
        match r {
            Some(v) => strip_prefix(line@, lit@) == Some(v@),
            None => strip_prefix(line@, lit@) is None,
        },
{
    let l = to_chars(lit);
    remove_prefix(line, l.as_slice())
}

fn read_frontmatter_line_into(t: &mut ParsedTodo, line: &[char])
    ensures
        final(t).view() == read_frontmatter_line(old(t).view(), line@),
{
    if let Some(v) = strip_literal(line, "id:") {
        let a = trim_ws(v.as_slice());
        let b = trim_matches(a.as_slice(), '"');
        let c = trim_matches(b.as_slice(), '\'');
        let u = unescape_yaml_string(c.as_slice());
        t.id = string_from(u.as_slice());
    } else if let Some(v) = strip_literal(line, "project_id:") {
        let a = trim_ws(v.as_slice());
        let val = trim_matches(a.as_slice(), '\'');
        let open = to_chars("[[");
        let close = to_chars("]]");
        if has_prefix(val.as_slice(), open.as_slice()) && has_suffix(
            val.as_slice(),
            close.as_slice(),
        ) {
            let b = trim_matches(val.as_slice(), '[');
            let c = trim_matches(b.as_slice(), ']');
            let u = unescape_yaml_string(c.as_slice());
            t.project_id = string_from(u.as_slice());
        } else if !is_literal(val.as_slice(), "''") && !is_literal(val.as_slice(), "null") {
            let u = unescape_yaml_string(val.as_slice());
            t.project_id = string_from(u.as_slice());
        }
    } else if let Some(v) = strip_literal(line, "info:") {
        let a = trim_ws(v.as_slice());
        let b = trim_matches(a.as_slice(), '\'');
        let val = trim_matches(b.as_slice(), '"');
        if !is_literal(val.as_slice(), "''") && !is_literal(val.as_slice(), "null") {
            t.info = string_from(val.as_slice());
        }
    } else if let Some(v) = strip_literal(line, "created:") {
        let a = trim_ws(v.as_slice());
        t.created = string_from(a.as_slice());
    }
}

fn read_task_line_into(t: &mut ParsedTodo, line: &[char])
    ensures
        final(t).view() == read_task_line(old(t).view(), line@),
{
    let ghost before = t.view();
    let found = match strip_literal(line, "- [x] ") {
        Some(v) => Some((v, true)),
        None => match strip_literal(line, "- [X] ") {
            Some(v) => Some((v, true)),
            None => match strip_literal(line, "- [ ] ") {
                Some(v) => Some((v, false)),
                None => None,
            },
        },
    };
    if let Some((v, completed)) = found {
        let text = trim_ws(v.as_slice());
        let task = Task { text: string_from(text.as_slice()), completed };
        t.tasks.push(task);
        proof {
            assert(t.tasks@.map_values(|t: Task| t.view()) =~= before.tasks.push(task.view()));
        }
    }
}

fn read_body_line_into(section: Section, t: &mut ParsedTodo, line: &[char])
    ensures
        final(t).view() == read_body_line(section, old(t).view(), line@),
{
    match section {
        Section::Tasks => read_task_line_into(t, line),
        Section::Note => {
            if line.len() > 0 {
                append_line_to(&mut t.note, line);
            }
        },
        Section::History => {
            if line.len() > 0 {
                append_line_to(&mut t.history, line);
            }
        },
        Section::Goal => {
            let tr = trim_ws(line);
            if tr.len() > 0 {
                append_line_to(&mut t.goal, line);
            }
        },
        _ => {},
    }
}

/// The reader of a todo file, one line at a time.
struct Reader {
    section: Section,
    found_heading: bool,
    todo: ParsedTodo,
}

impl Reader {
    spec fn view(&self) -> ReadState {
        ReadState { section: self.section, found_heading: self.found_heading, todo: self.todo.view() }
    }

    fn read(&mut self, line: &[char])
        ensures
            final(self).view() == read_line(old(self).view(), line@),
    {
        let t = trim_ws(line);
        let heading = to_chars("# ");
        if is_literal(t.as_slice(), "---") {
            self.section = if self.section == Section::Frontmatter {
                if self.found_heading {
                    Section::Goal
                } else {
                    Section::Initial
                }
            } else {
                Section::Frontmatter
            };
        } else if self.section == Section::Frontmatter {
            read_frontmatter_line_into(&mut self.todo, line);
        } else if has_prefix(line, heading.as_slice()) && !self.found_heading {
            let stripped = remove_leading(line, heading.as_slice());
            let name = trim_ws(stripped.as_slice());
            self.todo.name = string_from(name.as_slice());
            self.found_heading = true;
            self.section = Section::Goal;
        } else if is_literal(t.as_slice(), "# Tasks") {
            self.section = Section::Tasks;
        } else if is_literal(t.as_slice(), "# note") || is_literal(t.as_slice(), "# Note") {
            self.section = Section::Note;
        } else if is_literal(t.as_slice(), "# History") || is_literal(t.as_slice(), "# Info") {
            self.section = Section::History;
        } else if has_prefix(line, heading.as_slice()) {
            self.section = Section::Other;
        } else {
            read_body_line_into(self.section, &mut self.todo, line);
        }
    }
}

fn trimmed(s: &String) -> (r: String)
    ensures
        r@ == trim(s@),
{
    let v = to_chars(s.as_str());
    let t = trim_ws(v.as_slice());
    string_from(t.as_slice())
}

/// Reads a todo file whose text is `content`.
pub fn parse_markdown(content: &str) -> (r: ParsedTodo)
    ensures
        r.view() == parse_todo(content@),
{
    let text = to_chars(content);
    let ls = split_lines(text.as_slice());
    let ghost all = lines(content@);
    let mut reader = Reader {
        section: Section::Initial,
        found_heading: false,
        todo: ParsedTodo {
            name: String::new(),
            project_id: String::new(),
            info: String::new(),
            goal: String::new(),
            tasks: Vec::new(),
            note: String::new(),
            history: String::new(),
            id: String::new(),
            created: String::new(),
        },
    };
    assert(reader.todo.tasks@.map_values(|t: Task| t.view()) =~= Seq::<TaskView>::empty());
    assert(all.take(0) =~= Seq::<Seq<char>>::empty());
    let mut i: usize = 0;
    while i < ls.len()
        invariant
            i <= ls.len(),
            all == lines(content@),
            ls@.len() == all.len(),
            forall|k: int| 0 <= k < ls@.len() ==> (#[trigger] ls@[k])@ == all[k],
            reader.view() == read_lines(all.take(i as int)),
        decreases ls.len() - i,
    {
        proof {
            assert(all.take(i + 1).drop_last() =~= all.take(i as int));
            assert(all.take(i + 1).last() == all[i as int]);
            assert(ls@[i as int]@ == all[i as int]);
        }
        reader.read(ls[i].as_slice());
        i = i + 1;
    }
    assert(all.take(i as int) =~= all);
    let t = reader.todo;
    ParsedTodo {
        name: t.name,
        project_id: t.project_id,
        info: trimmed(&t.info),
        goal: trimmed(&t.goal),
        tasks: t.tasks,
        note: trimmed(&t.note),
        history: trimmed(&t.history),
        id: t.id,
        created: t.created,
    }
}

} // verus!
