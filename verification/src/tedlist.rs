//! The todo browser: todo files grouped by project, plans and inbox notes,
//! and what its keys do.
use vstd::prelude::*;
use crate::filestorage::{opt_view, Project, ProjectView};
use crate::order::{is_stable_order, positions, stable_order, stably_sorted};
use crate::parser::{ParsedTodo, Task, TaskView, TodoView};
use crate::text::{decimal, format_decimal, push_chars, push_str, split_lines, string_from, to_chars};

verus! {

// ---------------------------------------------------------------------------
// Files
// ---------------------------------------------------------------------------

/// A todo file: where it is, what it holds, and the name of its project
/// when that project is known.
pub struct TodoFile {
    pub path: String,
    pub parsed: ParsedTodo,
    pub project_tag: Option<String>,
}

/// A todo file as values.
pub struct TodoFileView {
    pub path: Seq<char>,
    pub todo: TodoView,
    pub tag: Option<Seq<char>>,
}

impl TodoFile {
    pub open spec fn view(&self) -> TodoFileView {
        TodoFileView { path: self.path@, todo: self.parsed.view(), tag: opt_view(self.project_tag) }
    }
}

/// A plan or an inbox note: where it is, its name and its text.
pub struct NoteFile {
    pub path: String,
    pub name: String,
    pub content: String,
}

/// The views of todo files.
pub open spec fn todo_views(v: Seq<TodoFile>) -> Seq<TodoFileView> {
    v.map_values(|t: TodoFile| t.view())
}

/// The name a todo is sorted by.
pub open spec fn todo_name(t: TodoFileView) -> Seq<char> {
    t.todo.name
}

fn copy_string(s: &String) -> (r: String)
    ensures
        r@ == s@,
{
    s.clone()
}

fn copy_parsed(p: &ParsedTodo) -> (r: ParsedTodo)
    ensures
        r.view() == p.view(),
{
    let mut tasks: Vec<Task> = Vec::new();
    let mut i: usize = 0;
    while i < p.tasks.len()
        invariant
            i <= p.tasks@.len(),
            tasks@.map_values(|t: Task| t.view()) == p.tasks@.take(i as int).map_values(
                |t: Task| t.view(),
            ),
        decreases p.tasks.len() - i,
    {
        let t = Task { text: copy_string(&p.tasks[i].text), completed: p.tasks[i].completed };
        let ghost before = tasks@;
        assert(t.view() == p.tasks@[i as int].view());
        tasks.push(t);
        assert(tasks@ == before.push(t));
        assert(tasks@.map_values(|t: Task| t.view()) =~= before.map_values(|t: Task| t.view()).push(
            t.view(),
        ));
        assert(p.tasks@.take(i + 1) =~= p.tasks@.take(i as int).push(p.tasks@[i as int]));
        assert(p.tasks@.take(i + 1).map_values(|t: Task| t.view()) =~= p.tasks@.take(
            i as int,
        ).map_values(|t: Task| t.view()).push(p.tasks@[i as int].view()));
        i = i + 1;
    }
    assert(p.tasks@.take(i as int) =~= p.tasks@);
    ParsedTodo {
        name: copy_string(&p.name),
        project_id: copy_string(&p.project_id),
        info: copy_string(&p.info),
        goal: copy_string(&p.goal),
        tasks,
        note: copy_string(&p.note),
        history: copy_string(&p.history),
        id: copy_string(&p.id),
        created: copy_string(&p.created),
    }
}

impl TodoFile {
    /// A copy of this todo file.
    pub fn copy(&self) -> (r: TodoFile)
        ensures
            r.view() == self.view(),
    {
        TodoFile {
            path: copy_string(&self.path),
            parsed: copy_parsed(&self.parsed),
            project_tag: match &self.project_tag {
                Some(s) => Some(copy_string(s)),
                None => None,
            },
        }
    }
}

/// Whether the todo has tasks and all of them are done.
pub open spec fn todo_complete(t: TodoView) -> bool {
    t.tasks.len() > 0 && forall|i: int| 0 <= i < t.tasks.len() ==> (#[trigger] t.tasks[i]).completed
}

/// How many tasks are done.
pub open spec fn done_count(ts: Seq<TaskView>) -> nat
    decreases ts.len(),
{
    if ts.len() == 0 {
        0
    } else {
        done_count(ts.drop_last()) + if ts.last().completed {
            1nat
        } else {
            0nat
        }
    }
}

/// No more tasks are done than there are.
pub proof fn lemma_done_count_bound(ts: Seq<TaskView>)
    ensures
        done_count(ts) <= ts.len(),
    decreases ts.len(),
{
    if ts.len() > 0 {
        lemma_done_count_bound(ts.drop_last());
    }
}

impl TodoFile {
    /// Whether the todo has tasks and all of them are done.
    pub fn is_complete(&self) -> (r: bool)
        ensures
            r == todo_complete(self.view().todo),
    {
        let tasks = &self.parsed.tasks;
        if tasks.len() == 0 {
            return false;
        }
        let mut i: usize = 0;
        while i < tasks.len()
            invariant
                i <= tasks@.len(),
                tasks@ == self.parsed.tasks@,
                forall|k: int| 0 <= k < i ==> tasks@[k].completed,
            decreases tasks.len() - i,
        {
            if !tasks[i].completed {
                assert(self.view().todo.tasks[i as int] == tasks@[i as int].view());
                return false;
            }
            i = i + 1;
        }
        assert forall|k: int| 0 <= k < self.view().todo.tasks.len() implies (
        #[trigger] self.view().todo.tasks[k]).completed by {
            assert(self.view().todo.tasks[k] == tasks@[k].view());
        }
        true
    }

    /// A check mark for a complete todo, a space otherwise.
    pub fn status_indicator(&self) -> (r: &'static str)
        ensures
            r@ == (if todo_complete(self.view().todo) {
                "\u{2713}"@
            } else {
                " "@
            }),
    {
        if self.is_complete() {
            "\u{2713}"
        } else {
            " "
        }
    }

    /// `done/total` for a todo with tasks, `None` for one without.
    pub fn completion_summary(&self) -> (r: Option<String>)
        ensures
            ({
                let ts = self.view().todo.tasks;
                if ts.len() == 0 {
                    r is None
                } else {
                    r matches Some(s) && s@ == decimal(done_count(ts)) + seq!['/'] + decimal(ts.len())
                }
            }),
    {
        let tasks = &self.parsed.tasks;
        let ghost ts = self.view().todo.tasks;
        if tasks.len() == 0 {
            return None;
        }
        let mut done: u64 = 0;
        let mut i: usize = 0;
        while i < tasks.len()
            invariant
                i <= tasks@.len(),
                ts == tasks@.map_values(|t: Task| t.view()),
                done == done_count(ts.take(i as int)),
                done <= i,
            decreases tasks.len() - i,
        {
            assert(ts.take(i + 1).drop_last() =~= ts.take(i as int));
            assert(ts[i as int] == tasks@[i as int].view());
            if tasks[i].completed {
                done = done + 1;
            }
            i = i + 1;
        }
        assert(ts.take(i as int) =~= ts);
        let mut s = String::new();
        let a = format_decimal(done);
        push_chars(&mut s, a.as_slice());
        push_chars(&mut s, &['/']);
        let b = format_decimal(tasks.len() as u64);
        push_chars(&mut s, b.as_slice());
        Some(s)
    }

    /// How many of the todo's tasks are done.
    pub fn done_tasks(&self) -> (r: usize)
        ensures
            r == done_count(self.view().todo.tasks),
    {
        let tasks = &self.parsed.tasks;
        let ghost ts = self.view().todo.tasks;
        let mut done: usize = 0;
        let mut i: usize = 0;
        while i < tasks.len()
            invariant
                i <= tasks@.len(),
                ts == tasks@.map_values(|t: Task| t.view()),
                done == done_count(ts.take(i as int)),
                done <= i,
            decreases tasks.len() - i,
        {
            assert(ts.take(i + 1).drop_last() =~= ts.take(i as int));
            assert(ts[i as int] == tasks@[i as int].view());
            if tasks[i].completed {
                done = done + 1;
            }
            i = i + 1;
        }
        assert(ts.take(i as int) =~= ts);
        done
    }

    /// The todo's line in a list (see `todo_row_text`).
    pub fn row_text(&self) -> (r: String)
        ensures
            r@ == todo_row_text(self.view().todo),
    {
        let mut r = String::new();
        if self.is_complete() {
            push_str(&mut r, "\u{2713} ");
        } else {
            push_str(&mut r, "  ");
        }
        push_str(&mut r, self.parsed.name.as_str());
        if let Some(summary) = self.completion_summary() {
            push_str(&mut r, " [");
            push_str(&mut r, summary.as_str());
            push_str(&mut r, "]");
        }
        r
    }

    /// The todo's project tag as the list of all todos shows it (see
    /// `tag_label_text`).
    pub fn tag_label(&self) -> (r: String)
        ensures
            r@ == tag_label_text(
                match self.project_tag {
                    Some(t) => t@,
                    None => "?"@,
                },
            ),
    {
        match &self.project_tag {
            Some(t) => tag_label(t.as_str()),
            None => tag_label("?"),
        }
    }
}

/// What the overview counts of a list of todos.
pub struct Overview {
    /// The todos.
    pub todos: usize,
    /// Those whose tasks are all done.
    pub completed: usize,
    /// Those with a task still open.
    pub in_progress: usize,
    /// Those without tasks.
    pub no_tasks: usize,
    /// Their tasks.
    pub tasks: usize,
    /// Their tasks that are done.
    pub done: usize,
}

/// The counts of the overview over `ts`: complete todos, todos in
/// progress, todos without tasks, tasks, and done tasks.
pub open spec fn overview_of(ts: Seq<TodoView>) -> (nat, nat, nat, nat, nat)
    decreases ts.len(),
{
    if ts.len() == 0 {
        (0, 0, 0, 0, 0)
    } else {
        let (c, p, n, t, d) = overview_of(ts.drop_last());
        let x = ts.last();
        if x.tasks.len() == 0 {
            (c, p, n + 1, t, d)
        } else if todo_complete(x) {
            (c + 1, p, n, t + x.tasks.len(), d + done_count(x.tasks))
        } else {
            (c, p + 1, n, t + x.tasks.len(), d + done_count(x.tasks))
        }
    }
}

/// The counts of a prefix of a list are no larger than those of the list,
/// and the todos counted are those of the prefix.
pub proof fn lemma_overview_prefix(ts: Seq<TodoView>, i: int)
    requires
        0 <= i <= ts.len(),
    ensures
        overview_of(ts.take(i)).3 <= overview_of(ts).3,
        overview_of(ts).4 <= overview_of(ts).3,
        overview_of(ts).0 + overview_of(ts).1 + overview_of(ts).2 == ts.len(),
    decreases ts.len(),
{
    if ts.len() > 0 {
        lemma_done_count_bound(ts.last().tasks);
        if i == ts.len() {
            assert(ts.take(i) =~= ts);
            lemma_overview_prefix(ts.drop_last(), i - 1);
        } else {
            assert(ts.take(i) =~= ts.drop_last().take(i));
            lemma_overview_prefix(ts.drop_last(), i);
        }
    }
}

/// A todo's line in a list: a check mark when it is complete, its name, and
/// `[done/total]` when it has tasks.
pub open spec fn todo_row_text(t: TodoView) -> Seq<char> {
    let check = if todo_complete(t) {
        "\u{2713} "@
    } else {
        "  "@
    };
    let suffix = if t.tasks.len() == 0 {
        Seq::empty()
    } else {
        " ["@ + decimal(done_count(t.tasks)) + seq!['/'] + decimal(t.tasks.len()) + "]"@
    };
    check + t.name + suffix
}

/// A project tag in brackets, ten characters wide: one longer than ten
/// bytes keeps its first seven characters and gets `...`; a shorter one is
/// padded with spaces.
pub open spec fn tag_label_text(tag: Seq<char>) -> Seq<char> {
    let inner = if vstd::utf8::encode_utf8(tag).len() > 10 {
        tag.take(vstd::math::min(7, tag.len() as int)) + "..."@
    } else if tag.len() < 10 {
        tag + Seq::new((10 - tag.len()) as nat, |i: int| ' ')
    } else {
        tag
    };
    seq!['['] + inner + seq![']']
}

fn tag_label(tag: &str) -> (r: String)
    ensures
        r@ == tag_label_text(tag@),
{
    let chars = to_chars(tag);
    let mut inner: Vec<char> = Vec::new();
    let ghost label = tag_label_text(tag@);
    if tag.as_bytes().len() > 10 {
        let n = if chars.len() < 7 {
            chars.len()
        } else {
            7
        };
        let mut i: usize = 0;
        while i < n
            invariant
                i <= n <= chars@.len(),
                chars@ == tag@,
                inner@ == chars@.take(i as int),
            decreases n - i,
        {
            inner.push(chars[i]);
            i = i + 1;
            assert(inner@ =~= chars@.take(i as int));
        }
        inner.push('.');
        inner.push('.');
        inner.push('.');
        proof {
            reveal_strlit("...");
            assert(inner@ =~= tag@.take(vstd::math::min(7, tag@.len() as int)) + "..."@);
        }
    } else {
        let mut i: usize = 0;
        while i < chars.len()
            invariant
                i <= chars@.len(),
                chars@ == tag@,
                inner@ == chars@.take(i as int),
            decreases chars.len() - i,
        {
            inner.push(chars[i]);
            i = i + 1;
            assert(inner@ =~= chars@.take(i as int));
        }
        assert(inner@ =~= tag@);
        while inner.len() < 10
            invariant
                chars@ == tag@,
                tag@.len() <= inner@.len(),
                inner@.len() <= vstd::math::max(10, tag@.len() as int),
                inner@.subrange(0, tag@.len() as int) == tag@,
                forall|k: int| tag@.len() <= k < inner@.len() ==> inner@[k] == ' ',
            decreases 10 - inner.len(),
        {
            inner.push(' ');
        }
        proof {
            if tag@.len() < 10 {
                assert(inner@ =~= tag@ + Seq::new((10 - tag@.len()) as nat, |i: int| ' '));
            } else {
                assert(inner@ =~= tag@);
            }
        }
    }
    let mut r = String::new();
    push_chars(&mut r, &['[']);
    push_chars(&mut r, inner.as_slice());
    push_chars(&mut r, &[']']);
    proof {
        assert(r@ =~= label);
    }
    r
}

// ---------------------------------------------------------------------------
// Sorting by name
// ---------------------------------------------------------------------------

/// The todo files `v[p[0]], v[p[1]], ...`.
fn gather_todos(v: &Vec<TodoFile>, p: &Vec<usize>) -> (r: Vec<TodoFile>)
    requires
        forall|i: int| 0 <= i < p@.len() ==> #[trigger] p@[i] < v@.len(),
    ensures
        r@.len() == p@.len(),
        forall|i: int| 0 <= i < p@.len() ==> (#[trigger] r@[i]).view() == v@[p@[i] as int].view(),
{
    let mut r: Vec<TodoFile> = Vec::new();
    let mut i: usize = 0;
    while i < p.len()
        invariant
            i <= p@.len(),
            forall|k: int| 0 <= k < p@.len() ==> #[trigger] p@[k] < v@.len(),
            r@.len() == i,
            forall|k: int| 0 <= k < i ==> (#[trigger] r@[k]).view() == v@[p@[k] as int].view(),
        decreases p.len() - i,
    {
        r.push(v[p[i]].copy());
        i = i + 1;
    }
    r
}

/// The todo files sorted by name, equal names in their order (what
/// `sort_by` on the name does).
pub fn sort_todos_by_name(v: &Vec<TodoFile>) -> (r: Vec<TodoFile>)
    ensures
        stably_sorted(todo_views(r@), todo_views(v@), |t: TodoFileView| todo_name(t)),
{
    let mut names: Vec<String> = Vec::new();
    let mut i: usize = 0;
    while i < v.len()
        invariant
            i <= v@.len(),
            names@.len() == i,
            forall|k: int| 0 <= k < i ==> (#[trigger] names@[k])@ == v@[k].parsed.name@,
        decreases v.len() - i,
    {
        names.push(copy_string(&v[i].parsed.name));
        i = i + 1;
    }
    let p = stable_order(&names);
    let ghost keys = names@.map_values(|s: String| s@);
    let ghost src = todo_views(v@);
    proof {
        assert(keys =~= src.map_values(|t: TodoFileView| todo_name(t)));
        assert forall|k: int| 0 <= k < p@.len() implies #[trigger] p@[k] < v@.len() by {
            assert(positions(p@)[k] == p@[k] as int);
        }
    }
    let r = gather_todos(v, &p);
    proof {
        let ps = positions(p@);
        assert(is_stable_order(src.map_values(|t: TodoFileView| todo_name(t)), ps));
        assert forall|k: int| 0 <= k < todo_views(r@).len() implies todo_views(r@)[k] == src[
            #[trigger] ps[k]] by {
            assert(ps[k] == p@[k] as int);
        }
    }
    r
}

// ---------------------------------------------------------------------------
// Grouping by project
// ---------------------------------------------------------------------------

/// The views of projects.
pub open spec fn project_views(v: Seq<Project>) -> Seq<ProjectView> {
    v.map_values(|p: Project| p.view())
}

/// The position of the first project with id `pid`.
pub open spec fn project_index(projects: Seq<ProjectView>, pid: Seq<char>) -> Option<int>
    decreases projects.len(),
{
    if projects.len() == 0 {
        None
    } else if projects[0].id == pid {
        Some(0)
    } else {
        match project_index(projects.drop_first(), pid) {
            Some(i) => Some(i + 1),
            None => None,
        }
    }
}

/// The group a todo with project id `pid` goes to: the first project with
/// that id; none for a todo without a project id or with an unknown one.
pub open spec fn group_of(projects: Seq<ProjectView>, pid: Seq<char>) -> Option<int> {
    if pid.len() == 0 {
        None
    } else {
        project_index(projects, pid)
    }
}

/// The project name a todo shows as its tag.
pub open spec fn tag_for(projects: Seq<ProjectView>, pid: Seq<char>) -> Option<Seq<char>> {
    match group_of(projects, pid) {
        Some(i) => Some(projects[i].name),
        None => None,
    }
}

/// A todo file read from `path`, tagged with its project's name.
pub open spec fn loaded(projects: Seq<ProjectView>, path: Seq<char>, t: TodoView) -> TodoFileView {
    TodoFileView { path, todo: t, tag: tag_for(projects, t.project_id) }
}

/// The todo files read, as values.
pub open spec fn loaded_all(projects: Seq<ProjectView>, files: Seq<(String, ParsedTodo)>) -> Seq<
    TodoFileView,
> {
    files.map_values(|f: (String, ParsedTodo)| loaded(projects, f.0@, f.1.view()))
}

/// The todos of `files` that go to group `g`, in their order.
pub open spec fn members(projects: Seq<ProjectView>, files: Seq<TodoFileView>, g: Option<int>) -> Seq<
    TodoFileView,
>
    decreases files.len(),
{
    if files.len() == 0 {
        Seq::empty()
    } else if group_of(projects, files.last().todo.project_id) == g {
        members(projects, files.drop_last(), g).push(files.last())
    } else {
        members(projects, files.drop_last(), g)
    }
}

/// A project with its todos.
pub struct ProjectGroup {
    pub project: Project,
    pub todos: Vec<TodoFile>,
}

/// Whether `groups` holds, in order, the projects at the positions `gp`,
/// each with its todos sorted by name.
pub open spec fn grouped(
    projects: Seq<ProjectView>,
    files: Seq<TodoFileView>,
    groups: Seq<ProjectGroup>,
    gp: Seq<int>,
) -> bool {
    &&& groups.len() == gp.len()
    &&& forall|k: int| 0 <= k < gp.len() ==> 0 <= #[trigger] gp[k] < projects.len()
    &&& forall|k: int|
        0 <= k < gp.len() ==> (#[trigger] groups[k]).project.view() == projects[gp[k]]
            && stably_sorted(
            todo_views(groups[k].todos@),
            members(projects, files, Some(gp[k])),
            |t: TodoFileView| todo_name(t),
        )
}

/// The todos of the groups, one group after the other.
pub open spec fn group_todos(groups: Seq<ProjectGroup>) -> Seq<TodoFileView>
    decreases groups.len(),
{
    if groups.len() == 0 {
        Seq::empty()
    } else {
        group_todos(groups.drop_last()) + todo_views(groups.last().todos@)
    }
}

pub open spec fn opt_int(g: Option<usize>) -> Option<int> {
    match g {
        Some(i) => Some(i as int),
        None => None,
    }
}

/// The position of the first project with id `pid`.
fn find_project(projects: &Vec<Project>, pid: &str) -> (r: Option<usize>)
    ensures
        opt_int(r) == project_index(project_views(projects@), pid@),
        r matches Some(k) ==> k < projects@.len(),
{
    let ghost pv = project_views(projects@);
    let mut i: usize = 0;
    while i < projects.len()
        invariant
            i <= projects@.len(),
            pv == project_views(projects@),
            forall|k: int| 0 <= k < i ==> pv[k].id != pid@,
        decreases projects.len() - i,
    {
        if crate::text::str_eq(projects[i].id.as_str(), pid) {
            proof {
                lemma_project_index_first(pv, pid@, i as int);
            }
            return Some(i);
        }
        assert(pv[i as int].id == projects@[i as int].id@);
        i = i + 1;
    }
    proof {
        lemma_project_index_none(pv, pid@);
    }
    None
}

proof fn lemma_project_index_first(pv: Seq<ProjectView>, pid: Seq<char>, i: int)
    requires
        0 <= i < pv.len(),
        pv[i].id == pid,
        forall|k: int| 0 <= k < i ==> pv[k].id != pid,
    ensures
        project_index(pv, pid) == Some(i),
    decreases i,
{
    if i > 0 {
        assert forall|k: int| 0 <= k < i - 1 implies pv.drop_first()[k].id != pid by {
            assert(pv.drop_first()[k] == pv[k + 1]);
        }
        lemma_project_index_first(pv.drop_first(), pid, i - 1);
    }
}

proof fn lemma_project_index_none(pv: Seq<ProjectView>, pid: Seq<char>)
    requires
        forall|k: int| 0 <= k < pv.len() ==> pv[k].id != pid,
    ensures
        project_index(pv, pid) is None,
    decreases pv.len(),
{
    if pv.len() > 0 {
        assert forall|k: int| 0 <= k < pv.len() - 1 implies pv.drop_first()[k].id != pid by {
            assert(pv.drop_first()[k] == pv[k + 1]);
        }
        lemma_project_index_none(pv.drop_first(), pid);
    }
}

proof fn lemma_project_index_bound(pv: Seq<ProjectView>, pid: Seq<char>)
    ensures
        project_index(pv, pid) matches Some(i) ==> 0 <= i < pv.len(),
    decreases pv.len(),
{
    if pv.len() > 0 {
        lemma_project_index_bound(pv.drop_first(), pid);
    }
}

/// The group a todo with project id `pid` goes to.
fn group_index(projects: &Vec<Project>, pid: &str) -> (r: Option<usize>)
    ensures
        opt_int(r) == group_of(project_views(projects@), pid@),
        r matches Some(k) ==> k < projects@.len(),
{
    proof {
        lemma_project_index_bound(project_views(projects@), pid@);
    }
    if pid.is_empty() {
        None
    } else {
        find_project(projects, pid)
    }
}

/// The todo files read, each tagged with its project's name.
fn load_files(projects: &Vec<Project>, files: &Vec<(String, ParsedTodo)>) -> (r: Vec<TodoFile>)
    ensures
        todo_views(r@) == loaded_all(project_views(projects@), files@),
{
    let ghost pv = project_views(projects@);
    let mut r: Vec<TodoFile> = Vec::new();
    let mut i: usize = 0;
    while i < files.len()
        invariant
            i <= files@.len(),
            pv == project_views(projects@),
            todo_views(r@) == loaded_all(pv, files@.take(i as int)),
        decreases files.len() - i,
    {
        let (path, parsed) = &files[i];
        let gi = group_index(projects, parsed.project_id.as_str());
        let tag = match gi {
            Some(g) => {
                assert(pv[g as int].name == projects@[g as int].name@);
                Some(copy_string(&projects[g].name))
            },
            None => None,
        };
        let f = TodoFile { path: copy_string(path), parsed: copy_parsed(parsed), project_tag: tag };
        assert(opt_view(tag) == tag_for(pv, parsed.project_id@));
        assert(path@ == files@[i as int].0@);
        assert(parsed.view() == files@[i as int].1.view());
        let ghost before = r@;
        r.push(f);
        proof {
            assert(f.view() == loaded(pv, files@[i as int].0@, files@[i as int].1.view()));
            assert(todo_views(r@) =~= todo_views(before).push(f.view()));
            assert(files@.take(i + 1) =~= files@.take(i as int).push(files@[i as int]));
            assert(loaded_all(pv, files@.take(i + 1)) =~= loaded_all(pv, files@.take(i as int)).push(
                f.view(),
            ));
        }
        i = i + 1;
    }
    assert(files@.take(i as int) =~= files@);
    r
}

/// The todos of `files` that go to group `g`, in their order.
fn collect_members(projects: &Vec<Project>, files: &Vec<TodoFile>, g: Option<usize>) -> (r: Vec<
    TodoFile,
>)
    ensures
        todo_views(r@) == members(project_views(projects@), todo_views(files@), opt_int(g)),
{
    let ghost pv = project_views(projects@);
    let ghost fv = todo_views(files@);
    let mut r: Vec<TodoFile> = Vec::new();
    let mut i: usize = 0;
    while i < files.len()
        invariant
            i <= files@.len(),
            pv == project_views(projects@),
            fv == todo_views(files@),
            todo_views(r@) == members(pv, fv.take(i as int), opt_int(g)),
        decreases files.len() - i,
    {
        let gi = group_index(projects, files[i].parsed.project_id.as_str());
        proof {
            assert(fv.take(i + 1).drop_last() =~= fv.take(i as int));
            assert(fv.take(i + 1).last() == files@[i as int].view());
        }
        let same = match (gi, g) {
            (Some(a), Some(b)) => a == b,
            (None, None) => true,
            _ => false,
        };
        assert(opt_int(gi) == group_of(pv, files@[i as int].parsed.project_id@));
        assert(fv[i as int].todo.project_id == files@[i as int].parsed.project_id@);
        assert(same == (group_of(pv, fv[i as int].todo.project_id) == opt_int(g)));
        if same {
            let ghost before = r@;
            let f = files[i].copy();
            r.push(f);
            assert(todo_views(r@) =~= todo_views(before).push(f.view()));
        }
        i = i + 1;
    }
    assert(fv.take(i as int) =~= fv);
    r
}

/// The names of the projects, in order.
fn project_names(projects: &Vec<Project>) -> (r: Vec<String>)
    ensures
        r@.map_values(|s: String| s@) == project_views(projects@).map_values(|p: ProjectView| p.name),
{
    let mut r: Vec<String> = Vec::new();
    let mut i: usize = 0;
    while i < projects.len()
        invariant
            i <= projects@.len(),
            r@.len() == i,
            forall|k: int| 0 <= k < i ==> (#[trigger] r@[k])@ == projects@[k].name@,
        decreases projects.len() - i,
    {
        r.push(copy_string(&projects[i].name));
        i = i + 1;
    }
    assert(r@.map_values(|s: String| s@) =~= project_views(projects@).map_values(
        |p: ProjectView| p.name,
    ));
    r
}

/// The groups of the projects at the positions `order`, each with its todos
/// sorted by name.
fn build_groups(projects: &Vec<Project>, files: &Vec<TodoFile>, order: &Vec<usize>) -> (r: Vec<
    ProjectGroup,
>)
    requires
        forall|k: int| 0 <= k < order@.len() ==> #[trigger] order@[k] < projects@.len(),
    ensures
        grouped(project_views(projects@), todo_views(files@), r@, positions(order@)),
{
    let ghost pv = project_views(projects@);
    let ghost fv = todo_views(files@);
    let mut r: Vec<ProjectGroup> = Vec::new();
    let mut k: usize = 0;
    while k < order.len()
        invariant
            k <= order@.len(),
            pv == project_views(projects@),
            fv == todo_views(files@),
            forall|j: int| 0 <= j < order@.len() ==> #[trigger] order@[j] < projects@.len(),
            grouped(pv, fv, r@, positions(order@).take(k as int)),
        decreases order.len() - k,
    {
        let g = order[k];
        let ms = collect_members(projects, files, Some(g));
        let todos = sort_todos_by_name(&ms);
        let group = ProjectGroup { project: projects[g].copy(), todos };
        let ghost before = r@;
        r.push(group);
        proof {
            let ps = positions(order@);
            let pk = ps.take(k + 1);
            assert(ps[k as int] == g as int);
            assert forall|j: int| 0 <= j < pk.len() implies 0 <= #[trigger] pk[j] < pv.len() by {
                assert(pk[j] == order@[j] as int);
            }
            assert forall|j: int| 0 <= j < pk.len() implies (#[trigger] r@[j]).project.view()
                == pv[pk[j]] && stably_sorted(
                todo_views(r@[j].todos@),
                members(pv, fv, Some(pk[j])),
                |t: TodoFileView| todo_name(t),
            ) by {
                if j < k {
                    assert(r@[j] == before[j]);
                    assert(pk[j] == ps.take(k as int)[j]);
                } else {
                    assert(r@[j] == group);
                    assert(pk[j] == g as int);
                }
            }
        }
        k = k + 1;
    }
    assert(positions(order@).take(k as int) =~= positions(order@));
    r
}

/// The todo files of `groups`, one group after the other, then `rest`.
fn concat_todos(groups: &Vec<ProjectGroup>, rest: &Vec<TodoFile>) -> (r: Vec<TodoFile>)
    ensures
        todo_views(r@) == group_todos(groups@) + todo_views(rest@),
{
    let mut r: Vec<TodoFile> = Vec::new();
    let mut k: usize = 0;
    while k < groups.len()
        invariant
            k <= groups@.len(),
            todo_views(r@) == group_todos(groups@.take(k as int)),
        decreases groups.len() - k,
    {
        let todos = &groups[k].todos;
        let ghost base = r@;
        let mut i: usize = 0;
        while i < todos.len()
            invariant
                i <= todos@.len(),
                todos@ == groups@[k as int].todos@,
                todo_views(r@) == todo_views(base) + todo_views(todos@.take(i as int)),
            decreases todos.len() - i,
        {
            let ghost before = r@;
            let f = todos[i].copy();
            r.push(f);
            assert(todo_views(r@) =~= todo_views(before).push(f.view()));
            assert(todo_views(todos@.take(i + 1)) =~= todo_views(todos@.take(i as int)).push(
                f.view(),
            ));
            i = i + 1;
        }
        assert(todos@.take(i as int) =~= todos@);
        assert(groups@.take(k + 1).drop_last() =~= groups@.take(k as int));
        k = k + 1;
    }
    assert(groups@.take(k as int) =~= groups@);
    let ghost base = r@;
    let mut i: usize = 0;
    while i < rest.len()
        invariant
            i <= rest@.len(),
            todo_views(r@) == todo_views(base) + todo_views(rest@.take(i as int)),
        decreases rest.len() - i,
    {
        let ghost before = r@;
        let f = rest[i].copy();
        r.push(f);
        assert(todo_views(r@) =~= todo_views(before).push(f.view()));
        assert(todo_views(rest@.take(i + 1)) =~= todo_views(rest@.take(i as int)).push(f.view()));
        i = i + 1;
    }
    assert(rest@.take(i as int) =~= rest@);
    r
}

/// The todo files, grouped by project.
pub struct TodoStore {
    pub groups: Vec<ProjectGroup>,
    pub unassigned: Vec<TodoFile>,
    pub all_todos: Vec<TodoFile>,
}

/// The names of projects.
pub open spec fn project_name_keys(pv: Seq<ProjectView>) -> Seq<Seq<char>> {
    pv.map_values(|p: ProjectView| p.name)
}

impl TodoStore {
    /// The store for the projects and the todo files read (path and
    /// content): each project's todos, the projects ordered by name; the
    /// todos without a known project; and all todos; each list of todos
    /// sorted by name.
    pub fn build(projects: &Vec<Project>, files: &Vec<(String, ParsedTodo)>) -> (r: TodoStore)
        ensures
            ({
                let pv = project_views(projects@);
                let fv = loaded_all(pv, files@);
                &&& exists|gp: Seq<int>|
                    #[trigger] is_stable_order(project_name_keys(pv), gp) && grouped(
                        pv,
                        fv,
                        r.groups@,
                        gp,
                    )
                &&& stably_sorted(
                    todo_views(r.unassigned@),
                    members(pv, fv, None),
                    |t: TodoFileView| todo_name(t),
                )
                &&& stably_sorted(
                    todo_views(r.all_todos@),
                    group_todos(r.groups@) + todo_views(r.unassigned@),
                    |t: TodoFileView| todo_name(t),
                )
            }),
    {
        let loaded_files = load_files(projects, files);
        let names = project_names(projects);
        let order = stable_order(&names);
        proof {
            assert forall|k: int| 0 <= k < order@.len() implies #[trigger] order@[k] < projects@.len() by {
                assert(positions(order@)[k] == order@[k] as int);
            }
        }
        let groups = build_groups(projects, &loaded_files, &order);
        let un = collect_members(projects, &loaded_files, None);
        let unassigned = sort_todos_by_name(&un);
        let all = concat_todos(&groups, &unassigned);
        let all_todos = sort_todos_by_name(&all);
        proof {
            let pv = project_views(projects@);
            assert(names@.map_values(|s: String| s@) =~= project_name_keys(pv));
            assert(is_stable_order(project_name_keys(pv), positions(order@)));
            assert(grouped(pv, loaded_all(pv, files@), groups@, positions(order@)));
        }
        TodoStore { groups, unassigned, all_todos }
    }
}

/// The backlog: the same grouping, projects in the order given.
pub struct BacklogStore {
    pub groups: Vec<ProjectGroup>,
    pub unassigned: Vec<TodoFile>,
    pub all: Vec<TodoFile>,
}

/// The positions `0..n` in order.
pub open spec fn in_order(n: nat) -> Seq<int> {
    Seq::new(n, |i: int| i)
}

impl BacklogStore {
    /// The backlog for the projects and the backlog files read: each
    /// project's todos in the order the projects are given, the todos
    /// without a known project, and all todos; each list sorted by name.
    pub fn build(projects: &Vec<Project>, files: &Vec<(String, ParsedTodo)>) -> (r: BacklogStore)
        ensures
            ({
                let pv = project_views(projects@);
                let fv = loaded_all(pv, files@);
                &&& grouped(pv, fv, r.groups@, in_order(projects@.len()))
                &&& stably_sorted(
                    todo_views(r.unassigned@),
                    members(pv, fv, None),
                    |t: TodoFileView| todo_name(t),
                )
                &&& stably_sorted(todo_views(r.all@), fv, |t: TodoFileView| todo_name(t))
            }),
    {
        let loaded_files = load_files(projects, files);
        let mut order: Vec<usize> = Vec::new();
        let mut i: usize = 0;
        while i < projects.len()
            invariant
                i <= projects@.len(),
                order@.len() == i,
                forall|k: int| 0 <= k < i ==> #[trigger] order@[k] == k,
            decreases projects.len() - i,
        {
            order.push(i);
            i = i + 1;
        }
        proof {
            assert(positions(order@) =~= in_order(projects@.len()));
        }
        let groups = build_groups(projects, &loaded_files, &order);
        let un = collect_members(projects, &loaded_files, None);
        let unassigned = sort_todos_by_name(&un);
        let all = sort_todos_by_name(&loaded_files);
        BacklogStore { groups, unassigned, all }
    }
}

// ---------------------------------------------------------------------------
// What the sidebar lists
// ---------------------------------------------------------------------------

/// The positions of the groups shown: all of them, or only those with
/// todos.
pub open spec fn visible(groups: Seq<GroupView>, show_empty: bool) -> Seq<int>
    decreases groups.len(),
{
    if groups.len() == 0 {
        Seq::empty()
    } else if show_empty || groups.last().todos.len() > 0 {
        visible(groups.drop_last(), show_empty).push(groups.len() - 1)
    } else {
        visible(groups.drop_last(), show_empty)
    }
}

proof fn lemma_visible_bound(groups: Seq<GroupView>, show_empty: bool)
    ensures
        visible(groups, show_empty).len() <= groups.len(),
        forall|k: int|
            0 <= k < visible(groups, show_empty).len() ==> 0 <= #[trigger] visible(groups, show_empty)[k]
                < groups.len(),
    decreases groups.len(),
{
    if groups.len() > 0 {
        lemma_visible_bound(groups.drop_last(), show_empty);
    }
}

/// A sidebar entry: a name and how many todos it holds.
pub open spec fn entry_views(v: Seq<(String, usize)>) -> Seq<(Seq<char>, int)> {
    v.map_values(|e: (String, usize)| (e.0@, e.1 as int))
}

/// The entries for the groups at the positions `vis`.
pub open spec fn group_entries(groups: Seq<GroupView>, vis: Seq<int>) -> Seq<(Seq<char>, int)> {
    vis.map_values(|k: int| (groups[k].project.name, groups[k].todos.len() as int))
}

/// The sidebar's entries: the first entry, the groups shown, and
/// `Unassigned` when there are todos without a project.
pub open spec fn sidebar_entries(
    first: Seq<char>,
    all_len: int,
    groups: Seq<GroupView>,
    vis: Seq<int>,
    unassigned_len: int,
) -> Seq<(Seq<char>, int)> {
    seq![(first, all_len)] + group_entries(groups, vis) + if unassigned_len > 0 {
        seq![("Unassigned"@, unassigned_len)]
    } else {
        Seq::empty()
    }
}

fn build_entries(
    first: &str,
    all_len: usize,
    groups: &Vec<ProjectGroup>,
    vis: &Vec<usize>,
    unassigned_len: usize,
) -> (r: Vec<(String, usize)>)
    requires
        forall|k: int| 0 <= k < vis@.len() ==> #[trigger] vis@[k] < groups@.len(),
    ensures
        entry_views(r@) == sidebar_entries(
            first@,
            all_len as int,
            group_views(groups@),
            positions(vis@),
            unassigned_len as int,
        ),
{
    let mut r: Vec<(String, usize)> = Vec::new();
    r.push((string_from(to_chars(first).as_slice()), all_len));
    let mut i: usize = 0;
    while i < vis.len()
        invariant
            i <= vis@.len(),
            forall|k: int| 0 <= k < vis@.len() ==> #[trigger] vis@[k] < groups@.len(),
            entry_views(r@) == seq![(first@, all_len as int)] + group_entries(
                group_views(groups@),
                positions(vis@).take(i as int),
            ),
        decreases vis.len() - i,
    {
        let g = &groups[vis[i]];
        let e = (copy_string(&g.project.name), g.todos.len());
        let ghost before = r@;
        r.push(e);
        proof {
            let ps = positions(vis@);
            assert(ps[i as int] == vis@[i as int] as int);
            assert(ps.take(i + 1) =~= ps.take(i as int).push(ps[i as int]));
            assert(group_views(groups@)[ps[i as int]] == g.view());
            assert(group_entries(group_views(groups@), ps.take(i + 1)) =~= group_entries(
                group_views(groups@),
                ps.take(i as int),
            ).push((g.project.name@, g.todos@.len() as int)));
            assert(entry_views(r@) =~= entry_views(before).push((e.0@, e.1 as int)));
        }
        i = i + 1;
    }
    assert(positions(vis@).take(i as int) =~= positions(vis@));
    if unassigned_len > 0 {
        let ghost before = r@;
        let e = (string_from(to_chars("Unassigned").as_slice()), unassigned_len);
        r.push(e);
        assert(entry_views(r@) =~= entry_views(before).push((e.0@, e.1 as int)));
    }
    proof {
        let rest = if unassigned_len > 0 {
            seq![("Unassigned"@, unassigned_len as int)]
        } else {
            Seq::<(Seq<char>, int)>::empty()
        };
        assert(entry_views(r@) =~= seq![(first@, all_len as int)] + group_entries(
            group_views(groups@),
            positions(vis@),
        ) + rest);
    }
    r
}

impl TodoStore {
    /// The positions of the groups shown (see `visible`).
    pub fn visible_groups(&self, show_empty_projects: bool) -> (r: Vec<usize>)
        ensures
            positions(r@) == visible(group_views(self.groups@), show_empty_projects),
            forall|k: int| 0 <= k < r@.len() ==> #[trigger] r@[k] < self.groups@.len(),
    {
        let mut r: Vec<usize> = Vec::new();
        let mut i: usize = 0;
        while i < self.groups.len()
            invariant
                i <= self.groups@.len(),
                positions(r@) == visible(group_views(self.groups@).take(i as int), show_empty_projects),
                forall|k: int| 0 <= k < r@.len() ==> #[trigger] r@[k] < i,
            decreases self.groups.len() - i,
        {
            proof {
                assert(group_views(self.groups@).take(i + 1).drop_last() =~= group_views(
                    self.groups@,
                ).take(i as int));
                assert(group_views(self.groups@)[i as int].todos.len() == self.groups@[i as int].todos@.len());
            }
            if show_empty_projects || self.groups[i].todos.len() > 0 {
                let ghost before = r@;
                r.push(i);
                assert(positions(r@) =~= positions(before).push(i as int));
            }
            i = i + 1;
        }
        assert(group_views(self.groups@).take(i as int) =~= group_views(self.groups@));
        r
    }

    /// The sidebar's entries: `All Todos`, the groups shown, and
    /// `Unassigned` when some todos have no known project.
    pub fn entries(&self, show_empty_projects: bool) -> (r: Vec<(String, usize)>)
        ensures
            entry_views(r@) == sidebar_entries(
                "All Todos"@,
                self.all_todos@.len() as int,
                group_views(self.groups@),
                visible(group_views(self.groups@), show_empty_projects),
                self.unassigned@.len() as int,
            ),
    {
        let vis = self.visible_groups(show_empty_projects);
        build_entries("All Todos", self.all_todos.len(), &self.groups, &vis, self.unassigned.len())
    }

    /// The todos of sidebar entry `project_idx`: all of them for the first,
    /// a group's for a group, the todos without a project after them.
    pub fn todos_for(&self, project_idx: usize, show_empty_projects: bool) -> (r: &Vec<TodoFile>)
        ensures
            ({
                let vis = visible(group_views(self.groups@), show_empty_projects);
                if project_idx == 0 {
                    r@ == self.all_todos@
                } else if project_idx <= vis.len() {
                    r@ == self.groups@[vis[project_idx - 1]].todos@
                } else {
                    r@ == self.unassigned@
                }
            }),
    {
        if project_idx == 0 {
            &self.all_todos
        } else {
            let vis = self.visible_groups(show_empty_projects);
            if project_idx <= vis.len() {
                assert(positions(vis@)[project_idx - 1] == vis@[project_idx - 1] as int);
                &self.groups[vis[project_idx - 1]].todos
            } else {
                &self.unassigned
            }
        }
    }

    /// The name of sidebar entry `project_idx`.
    pub fn name_for(&self, project_idx: usize, show_empty_projects: bool) -> (r: &str)
        ensures
            ({
                let vis = visible(group_views(self.groups@), show_empty_projects);
                if project_idx == 0 {
                    r@ == "All Todos"@
                } else if project_idx <= vis.len() {
                    r@ == self.groups@[vis[project_idx - 1]].project.name@
                } else {
                    r@ == "Unassigned"@
                }
            }),
    {
        if project_idx == 0 {
            "All Todos"
        } else {
            let vis = self.visible_groups(show_empty_projects);
            if project_idx <= vis.len() {
                assert(positions(vis@)[project_idx - 1] == vis@[project_idx - 1] as int);
                self.groups[vis[project_idx - 1]].project.name.as_str()
            } else {
                "Unassigned"
            }
        }
    }
}

impl BacklogStore {
    /// The sidebar's entries: `Backlog`, every group, and `Unassigned`
    /// when some todos have no known project.
    pub fn entries(&self) -> (r: Vec<(String, usize)>)
        ensures
            entry_views(r@) == sidebar_entries(
                "Backlog"@,
                self.all@.len() as int,
                group_views(self.groups@),
                in_order(self.groups@.len()),
                self.unassigned@.len() as int,
            ),
    {
        let mut vis: Vec<usize> = Vec::new();
        let mut i: usize = 0;
        while i < self.groups.len()
            invariant
                i <= self.groups@.len(),
                vis@.len() == i,
                forall|k: int| 0 <= k < i ==> #[trigger] vis@[k] == k,
            decreases self.groups.len() - i,
        {
            vis.push(i);
            i = i + 1;
        }
        assert(positions(vis@) =~= in_order(self.groups@.len()));
        build_entries("Backlog", self.all.len(), &self.groups, &vis, self.unassigned.len())
    }

    /// The todos of sidebar entry `idx`.
    pub fn todos_for(&self, idx: usize) -> (r: &Vec<TodoFile>)
        ensures
            if idx == 0 {
                r@ == self.all@
            } else if idx <= self.groups@.len() {
                r@ == self.groups@[idx - 1].todos@
            } else {
                r@ == self.unassigned@
            },
    {
        if idx == 0 {
            &self.all
        } else if idx <= self.groups.len() {
            &self.groups[idx - 1].todos
        } else {
            &self.unassigned
        }
    }

    /// The name of sidebar entry `idx`.
    pub fn name_for(&self, idx: usize) -> (r: &str)
        ensures
            if idx == 0 {
                r@ == "Backlog"@
            } else if idx <= self.groups@.len() {
                r@ == self.groups@[idx - 1].project.name@
            } else {
                r@ == "Unassigned"@
            },
    {
        if idx == 0 {
            "Backlog"
        } else if idx <= self.groups.len() {
            self.groups[idx - 1].project.name.as_str()
        } else {
            "Unassigned"
        }
    }
}

// ---------------------------------------------------------------------------
// Sorting the projects
// ---------------------------------------------------------------------------

/// How the projects are ordered in the sidebar.
#[derive(Clone, Copy, Debug, PartialEq, Eq, Structural)]
pub enum SortMode {
    Alpha,
    MostTodos,
    LeastTodos,
}

pub open spec fn next_sort_mode(m: SortMode) -> SortMode {
    match m {
        SortMode::Alpha => SortMode::MostTodos,
        SortMode::MostTodos => SortMode::LeastTodos,
        SortMode::LeastTodos => SortMode::Alpha,
    }
}

impl SortMode {
    /// The next mode: by name, most todos first, fewest todos first, and
    /// round again.
    pub fn next(self) -> (r: SortMode)
        ensures
            r == next_sort_mode(self),
    {
        match self {
            SortMode::Alpha => SortMode::MostTodos,
            SortMode::MostTodos => SortMode::LeastTodos,
            SortMode::LeastTodos => SortMode::Alpha,
        }
    }
}

/// Where a panel's selections stand: the sidebar entry and the content line.
#[derive(Clone, Copy, Debug, PartialEq, Eq, Structural)]
pub struct PanelState {
    pub sidx: usize,
    pub cidx: usize,
}

impl PanelState {
    /// Both selections at the top.
    pub fn new() -> (r: PanelState)
        ensures
            r.sidx == 0 && r.cidx == 0,
    {
        PanelState { sidx: 0, cidx: 0 }
    }
}

/// A group as values: its project and its todos.
pub struct GroupView {
    pub project: ProjectView,
    pub todos: Seq<TodoFileView>,
}

pub open spec fn group_views(gs: Seq<ProjectGroup>) -> Seq<GroupView> {
    gs.map_values(|g: ProjectGroup| GroupView { project: g.project.view(), todos: todo_views(g.todos@) })
}

/// The number a counting sort mode orders the groups by: the number of
/// todos, negated for most todos first.
pub open spec fn count_keys(gs: Seq<GroupView>, m: SortMode) -> Seq<int> {
    gs.map_values(
        |g: GroupView|
            if m == SortMode::MostTodos {
                -(g.todos.len() as int)
            } else {
                g.todos.len() as int
            },
    )
}

/// The names the groups are ordered by in name order.
pub open spec fn group_names(gs: Seq<GroupView>) -> Seq<Seq<char>> {
    gs.map_values(|g: GroupView| g.project.name)
}

/// `r` is `src` sorted stably in mode `m`: by project name, by most todos
/// or by fewest todos; groups that compare equal keep their order.
pub open spec fn groups_sorted(r: Seq<GroupView>, src: Seq<GroupView>, m: SortMode) -> bool {
    exists|p: Seq<int>|
        #[trigger] crate::order::orders(src, p) && (if m == SortMode::Alpha {
            is_stable_order(group_names(src), p)
        } else {
            crate::order::is_int_order(count_keys(src, m), p)
        }) && r.len() == p.len() && forall|i: int| 0 <= i < r.len() ==> r[i] == src[#[trigger] p[i]]
}

impl ProjectGroup {
    pub open spec fn view(&self) -> GroupView {
        GroupView { project: self.project.view(), todos: todo_views(self.todos@) }
    }

    /// A copy of this group.
    pub fn copy(&self) -> (r: ProjectGroup)
        ensures
            r.view() == self.view(),
    {
        let mut todos: Vec<TodoFile> = Vec::new();
        let mut i: usize = 0;
        while i < self.todos.len()
            invariant
                i <= self.todos@.len(),
                todo_views(todos@) == todo_views(self.todos@.take(i as int)),
            decreases self.todos.len() - i,
        {
            let ghost before = todos@;
            let f = self.todos[i].copy();
            todos.push(f);
            assert(todo_views(todos@) =~= todo_views(before).push(f.view()));
            assert(todo_views(self.todos@.take(i + 1)) =~= todo_views(self.todos@.take(i as int)).push(
                f.view(),
            ));
            i = i + 1;
        }
        assert(self.todos@.take(i as int) =~= self.todos@);
        ProjectGroup { project: self.project.copy(), todos }
    }
}

/// The groups reordered for sort mode `mode` (stable: groups that compare
/// equal keep their order).
pub fn sort_groups(groups: &Vec<ProjectGroup>, mode: SortMode) -> (r: Vec<ProjectGroup>)
    ensures
        groups_sorted(group_views(r@), group_views(groups@), mode),
{
    let ghost src = group_views(groups@);
    let order: Vec<usize> = if mode == SortMode::Alpha {
        let mut names: Vec<String> = Vec::new();
        let mut i: usize = 0;
        while i < groups.len()
            invariant
                i <= groups@.len(),
                names@.len() == i,
                forall|k: int| 0 <= k < i ==> (#[trigger] names@[k])@ == groups@[k].project.name@,
            decreases groups.len() - i,
        {
            names.push(copy_string(&groups[i].project.name));
            i = i + 1;
        }
        let o = stable_order(&names);
        proof {
            assert(names@.map_values(|s: String| s@) =~= group_names(src));
        }
        o
    } else {
        let mut keys: Vec<i128> = Vec::new();
        let mut i: usize = 0;
        while i < groups.len()
            invariant
                i <= groups@.len(),
                keys@.len() == i,
                forall|k: int|
                    0 <= k < i ==> (#[trigger] keys@[k]) as int == count_keys(src, mode)[k],
                src == group_views(groups@),
            decreases groups.len() - i,
        {
            let n = groups[i].todos.len() as i128;
            proof {
                assert(src[i as int].todos.len() == groups@[i as int].todos@.len());
            }
            if mode == SortMode::MostTodos {
                keys.push(-n);
            } else {
                keys.push(n);
            }
            i = i + 1;
        }
        let o = crate::order::stable_order_ints(&keys);
        proof {
            assert(keys@.map_values(|k: i128| k as int) =~= count_keys(src, mode));
        }
        o
    };
    let mut r: Vec<ProjectGroup> = Vec::new();
    let mut k: usize = 0;
    proof {
        assert forall|j: int| 0 <= j < order@.len() implies #[trigger] order@[j] < groups@.len() by {
            assert(positions(order@)[j] == order@[j] as int);
        }
    }
    while k < order.len()
        invariant
            k <= order@.len(),
            order@.len() == groups@.len(),
            forall|j: int| 0 <= j < order@.len() ==> #[trigger] order@[j] < groups@.len(),
            r@.len() == k,
            forall|j: int| 0 <= j < k ==> (#[trigger] r@[j]).view() == groups@[order@[j] as int].view(),
        decreases order.len() - k,
    {
        r.push(groups[order[k]].copy());
        k = k + 1;
    }
    proof {
        let ps = positions(order@);
        assert(crate::order::orders(src, ps));
        assert forall|i: int| 0 <= i < group_views(r@).len() implies group_views(r@)[i] == src[
            #[trigger] ps[i]] by {
            assert(ps[i] == order@[i] as int);
        }
    }
    r
}

/// The groups ordered by project name.
pub fn sort_groups_alpha(groups: &Vec<ProjectGroup>) -> (r: Vec<ProjectGroup>)
    ensures
        groups_sorted(group_views(r@), group_views(groups@), SortMode::Alpha),
{
    sort_groups(groups, SortMode::Alpha)
}

// ---------------------------------------------------------------------------
// Search
// ---------------------------------------------------------------------------

/// Whether the characters of `q` occur in `t` in order (not necessarily
/// next to each other).
pub open spec fn is_subsequence(q: Seq<char>, t: Seq<char>) -> bool
    decreases t.len(),
{
    if q.len() == 0 {
        true
    } else if t.len() == 0 {
        false
    } else if q[0] == t[0] {
        is_subsequence(q.drop_first(), t.drop_first())
    } else {
        is_subsequence(q, t.drop_first())
    }
}

/// Whether a text matches the search: always when no search is active or
/// the query is empty; otherwise when the query's characters occur in the
/// text in order, ignoring case.
pub open spec fn matches_search(active: bool, query: Seq<char>, text: Seq<char>) -> bool {
    !active || query.len() == 0 || is_subsequence(
        crate::text::lowercase(query),
        crate::text::lowercase(text),
    )
}

fn subsequence(q: &[char], t: &[char]) -> (r: bool)
    ensures
        r == is_subsequence(q@, t@),
{
    let mut j: usize = 0;
    let mut i: usize = 0;
    assert(q@.skip(0) =~= q@);
    assert(t@.skip(0) =~= t@);
    while i < t.len()
        invariant
            j <= q.len(),
            i <= t.len(),
            is_subsequence(q@, t@) == is_subsequence(q@.skip(j as int), t@.skip(i as int)),
        decreases t.len() - i,
    {
        if j == q.len() {
            assert(q@.skip(j as int).len() == 0);
            return true;
        }
        assert(q@.skip(j as int)[0] == q@[j as int]);
        assert(t@.skip(i as int)[0] == t@[i as int]);
        assert(t@.skip(i as int).drop_first() =~= t@.skip(i + 1));
        if q[j] == t[i] {
            assert(q@.skip(j as int).drop_first() =~= q@.skip(j + 1));
            j = j + 1;
        }
        i = i + 1;
    }
    assert(t@.skip(i as int).len() == 0);
    j == q.len()
}

/// Whether `text` matches the search (see `matches_search`).
pub fn search_matches(search_active: bool, search_query: &str, text: &str) -> (r: bool)
    ensures
        r == matches_search(search_active, search_query@, text@),
{
    if !search_active || search_query.is_empty() {
        return true;
    }
    let lower = crate::text::to_lowercase(text);
    let q_lower = crate::text::to_lowercase(search_query);
    let q = to_chars(q_lower.as_str());
    let t = to_chars(lower.as_str());
    subsequence(q.as_slice(), t.as_slice())
}

/// A text matches a query made of its own characters, taken in order.
pub proof fn lemma_subsequence_of_itself(t: Seq<char>)
    ensures
        is_subsequence(t, t),
    decreases t.len(),
{
    if t.len() > 0 {
        lemma_subsequence_of_itself(t.drop_first());
    }
}

// ---------------------------------------------------------------------------
// Help line
// ---------------------------------------------------------------------------

/// The panels of the sidebar.
pub open spec fn panel_count() -> usize {
    4
}

/// The key hints of a panel.
pub open spec fn help_key_views(panel: usize) -> Seq<(Seq<char>, Seq<char>)> {
    if panel == 0 {
        seq![
            ("Enter"@, "Detail"@),
            ("Ctrl+E"@, "Edit"@),
            ("Ctrl+N"@, "New"@),
            ("Ctrl+D"@, "Done"@),
            ("Ctrl+B"@, "Bklog"@),
            ("o"@, "Ovw"@),
            ("s"@, "Sort"@),
            ("h"@, "Hide"@),
        ]
    } else if panel == 1 {
        seq![("Ctrl+E"@, "Edit"@)]
    } else if panel == 2 {
        seq![
            ("Ctrl+E"@, "Open in tedtui"@),
            ("d"@, "Delete"@),
            ("u"@, "Run inbox"@),
            ("o"@, "Obsidian"@),
        ]
    } else if panel == 3 {
        seq![("Enter"@, "Detail"@), ("Ctrl+E"@, "Edit"@), ("Ctrl+B"@, "Todos"@)]
    } else {
        seq![]
    }
}

pub open spec fn pair_views(v: Seq<(&str, &str)>) -> Seq<(Seq<char>, Seq<char>)> {
    v.map_values(|p: (&str, &str)| (p.0@, p.1@))
}

/// The key hints of panel `panel`: projects, plans, inbox, backlog.
pub fn help_keys(panel: usize) -> (r: Vec<(&'static str, &'static str)>)
    ensures
        pair_views(r@) == help_key_views(panel),
{
    let r = if panel == 0 {
        vec![
            ("Enter", "Detail"),
            ("Ctrl+E", "Edit"),
            ("Ctrl+N", "New"),
            ("Ctrl+D", "Done"),
            ("Ctrl+B", "Bklog"),
            ("o", "Ovw"),
            ("s", "Sort"),
            ("h", "Hide"),
        ]
    } else if panel == 1 {
        vec![("Ctrl+E", "Edit")]
    } else if panel == 2 {
        vec![("Ctrl+E", "Open in tedtui"), ("d", "Delete"), ("u", "Run inbox"), ("o", "Obsidian")]
    } else if panel == 3 {
        vec![("Enter", "Detail"), ("Ctrl+E", "Edit"), ("Ctrl+B", "Todos")]
    } else {
        vec![]
    };
    assert(pair_views(r@) =~= help_key_views(panel));
    r
}

// ---------------------------------------------------------------------------
// Inbox notes
// ---------------------------------------------------------------------------

/// Where the inbox reader stands, and what it has read.
pub struct InboxRead {
    pub in_fm: bool,
    pub past_fm: bool,
    pub found_heading: bool,
    pub name: Seq<char>,
    pub goal: Seq<char>,
    pub timestamp: Seq<char>,
}

pub open spec fn inbox_start() -> InboxRead {
    InboxRead {
        in_fm: false,
        past_fm: false,
        found_heading: false,
        name: Seq::empty(),
        goal: Seq::empty(),
        timestamp: Seq::empty(),
    }
}

/// The inbox reader after one more line: a `---` opens and then closes the
/// front matter, whose `timestamp:` is kept; the first `# ` heading after
/// it is the name; every line after the heading goes to the goal.
pub open spec fn inbox_step(st: InboxRead, line: Seq<char>) -> InboxRead {
    if crate::text::trim(line) == "---"@ {
        if st.in_fm {
            InboxRead { in_fm: false, past_fm: true, ..st }
        } else if !st.past_fm {
            InboxRead { in_fm: true, ..st }
        } else {
            st
        }
    } else if st.in_fm {
        match crate::text::strip_prefix(line, "timestamp:"@) {
            Some(v) => InboxRead { timestamp: crate::text::trim(v), ..st },
            None => st,
        }
    } else if st.past_fm && !st.found_heading && crate::text::starts_with(line, "# "@) {
        InboxRead {
            name: crate::text::trim(crate::text::trim_start_matches(line, "# "@)),
            found_heading: true,
            ..st
        }
    } else if st.found_heading {
        InboxRead { goal: crate::parser::append_line(st.goal, line), ..st }
    } else {
        st
    }
}

pub open spec fn inbox_read(ls: Seq<Seq<char>>) -> InboxRead
    decreases ls.len(),
{
    if ls.len() == 0 {
        inbox_start()
    } else {
        inbox_step(inbox_read(ls.drop_last()), ls.last())
    }
}

/// Name, goal and info of a new todo made from an inbox note: the heading
/// (or `fallback` when there is none), the text after it trimmed, and
/// `From inbox (timestamp)` when the front matter has a timestamp.
pub open spec fn inbox_fields(content: Seq<char>, fallback: Seq<char>) -> (Seq<char>, Seq<char>, Seq<char>) {
    let st = inbox_read(crate::text::lines(content));
    (
        if st.name.len() == 0 {
            fallback
        } else {
            st.name
        },
        crate::text::trim(st.goal),
        if st.timestamp.len() > 0 {
            "From inbox ("@ + st.timestamp + ")"@
        } else {
            Seq::empty()
        },
    )
}

/// Name, goal and info of a new todo made from an inbox note (see
/// `inbox_fields`).
pub fn parse_inbox_content(content: &str, fallback_name: &str) -> (r: (String, String, String))
    ensures
        (r.0@, r.1@, r.2@) == inbox_fields(content@, fallback_name@),
{
    let chars = to_chars(content);
    let ls = split_lines(chars.as_slice());
    let ghost all = crate::text::lines(content@);
    let mut name = String::new();
    let mut goal = String::new();
    let mut timestamp = String::new();
    let mut in_fm = false;
    let mut past_fm = false;
    let mut found_heading = false;
    let mut i: usize = 0;
    while i < ls.len()
        invariant
            i <= ls@.len(),
            ls@.len() == all.len(),
            forall|k: int| 0 <= k < ls@.len() ==> (#[trigger] ls@[k])@ == all[k],
            inbox_read(all.take(i as int)) == (InboxRead {
                in_fm,
                past_fm,
                found_heading,
                name: name@,
                goal: goal@,
                timestamp: timestamp@,
            }),
        decreases ls.len() - i,
    {
        let line = ls[i].as_slice();
        proof {
            assert(all.take(i + 1).drop_last() =~= all.take(i as int));
            assert(all.take(i + 1).last() == line@);
        }
        let t = crate::text::trim_ws(line);
        if crate::parser::is_literal(t.as_slice(), "---") {
            if in_fm {
                in_fm = false;
                past_fm = true;
            } else if !past_fm {
                in_fm = true;
            }
        } else if in_fm {
            if let Some(v) = crate::parser::strip_literal(line, "timestamp:") {
                let tv = crate::text::trim_ws(v.as_slice());
                timestamp = string_from(tv.as_slice());
            }
        } else if past_fm && !found_heading && crate::text::has_prefix(line, to_chars("# ").as_slice()) {
            let n = crate::text::remove_leading(line, to_chars("# ").as_slice());
            let n = crate::text::trim_ws(n.as_slice());
            name = string_from(n.as_slice());
            found_heading = true;
        } else if found_heading {
            crate::parser::append_line_to(&mut goal, line);
        }
        i = i + 1;
    }
    assert(all.take(i as int) =~= all);
    let name = if name.as_str().is_empty() {
        string_from(to_chars(fallback_name).as_slice())
    } else {
        name
    };
    let g = to_chars(goal.as_str());
    let g = crate::text::trim_ws(g.as_slice());
    let goal = string_from(g.as_slice());
    let info = if !timestamp.as_str().is_empty() {
        let mut s = String::new();
        push_str(&mut s, "From inbox (");
        push_str(&mut s, timestamp.as_str());
        push_str(&mut s, ")");
        s
    } else {
        String::new()
    };
    (name, goal, info)
}

// ---------------------------------------------------------------------------
// Completing a todo file
// ---------------------------------------------------------------------------

/// A line of a completed todo file: `completed: null` gets the time, an
/// open task is checked.
pub open spec fn completed_line_of(l: Seq<char>, ts: Seq<char>) -> Seq<char> {
    if crate::text::trim(l) == "completed: null"@ {
        "completed: "@ + ts
    } else if crate::text::starts_with(l, "- [ ] "@) {
        "- [x] "@ + l.skip(6)
    } else {
        l
    }
}

/// Whether line `i` of `ls` is a `completed:` field.
pub open spec fn completed_field_at(ls: Seq<Seq<char>>, i: int) -> bool {
    0 <= i < ls.len() && crate::text::starts_with(crate::text::trim(ls[i]), "completed:"@)
}

/// The lines of a todo file marked complete at `ts`: each line as
/// `completed_line_of` makes it and, when no line is a `completed:` field,
/// one added after the opening fence, or a front matter of its own before
/// the text.
pub open spec fn completed_file_lines(content: Seq<char>, ts: Seq<char>) -> Seq<Seq<char>> {
    let ls = crate::text::lines(content).map_values(|l: Seq<char>| completed_line_of(l, ts));
    let has_fm = ls.len() > 0 && crate::text::trim(ls[0]) == "---"@;
    if exists|i: int| #[trigger] completed_field_at(ls, i) {
        ls
    } else if has_fm {
        ls.insert(1, "completed: "@ + ts)
    } else {
        seq!["---"@, "completed: "@ + ts, "---"@] + ls
    }
}

/// The text of a todo file marked complete at `timestamp` (see
/// `completed_file_lines`), its lines joined by line breaks.
pub fn completed_file_content(content: &str, timestamp: &str) -> (r: String)
    ensures
        r@ == crate::text::join(completed_file_lines(content@, timestamp@), seq!['\n']),
{
    let chars = to_chars(content);
    let ls = split_lines(chars.as_slice());
    let ghost all = crate::text::lines(content@);
    let ghost marked = all.map_values(|l: Seq<char>| completed_line_of(l, timestamp@));
    let ts = to_chars(timestamp);
    let mut completed_line = to_chars("completed: ");
    let mut k: usize = 0;
    while k < ts.len()
        invariant
            k <= ts@.len(),
            completed_line@ == "completed: "@ + ts@.take(k as int),
        decreases ts.len() - k,
    {
        completed_line.push(ts[k]);
        k = k + 1;
        assert(ts@.take(k as int) =~= ts@.take(k - 1).push(ts@[k - 1]));
    }
    assert(ts@.take(k as int) =~= ts@);
    let mut out: Vec<Vec<char>> = Vec::new();
    let mut has_completed = false;
    let mut i: usize = 0;
    while i < ls.len()
        invariant
            i <= ls@.len(),
            ls@.len() == all.len(),
            forall|j: int| 0 <= j < ls@.len() ==> (#[trigger] ls@[j])@ == all[j],
            marked == all.map_values(|l: Seq<char>| completed_line_of(l, timestamp@)),
            completed_line@ == "completed: "@ + timestamp@,
            out@.len() == i,
            forall|j: int| 0 <= j < i ==> (#[trigger] out@[j])@ == marked[j],
            has_completed == exists|j: int| 0 <= j < i && #[trigger] completed_field_at(marked, j),
        decreases ls.len() - i,
    {
        let line = ls[i].as_slice();
        let t = crate::text::trim_ws(line);
        let new_line = if crate::parser::is_literal(t.as_slice(), "completed: null") {
            crate::text::copy_range(completed_line.as_slice(), 0, completed_line.len())
        } else if let Some(rest) = crate::parser::strip_literal(line, "- [ ] ") {
            let head = to_chars("- [x] ");
            crate::text::concat(head.as_slice(), rest.as_slice())
        } else {
            crate::text::copy_range(line, 0, line.len())
        };
        proof {
            reveal_strlit("- [ ] ");
            assert(completed_line@.subrange(0, completed_line@.len() as int) =~= completed_line@);
            assert(line@.subrange(0, line@.len() as int) =~= line@);
            assert(marked[i as int] == completed_line_of(all[i as int], timestamp@));
            assert(new_line@ == marked[i as int]);
        }
        let nt = crate::text::trim_ws(new_line.as_slice());
        let is_field = crate::text::has_prefix(nt.as_slice(), to_chars("completed:").as_slice());
        proof {
            assert(is_field == completed_field_at(marked, i as int));
            if is_field {
                assert(completed_field_at(marked, i as int));
            }
        }
        has_completed = has_completed || is_field;
        out.push(new_line);
        i = i + 1;
    }
    proof {
        assert(out@.map_values(|l: Vec<char>| l@) =~= marked);
        if !has_completed {
            assert forall|j: int| !completed_field_at(marked, j) by {
                if 0 <= j < marked.len() {
                }
            }
        }
    }
    let has_fm = out.len() > 0 && {
        let t0 = crate::text::trim_ws(out[0].as_slice());
        crate::parser::is_literal(t0.as_slice(), "---")
    };
    if !has_completed {
        if has_fm {
            let ghost before = out@;
            out.insert(1, completed_line);
            proof {
                assert(out@.map_values(|l: Vec<char>| l@) =~= marked.insert(
                    1,
                    "completed: "@ + timestamp@,
                ));
            }
        } else {
            let ghost before = out@;
            let mut front: Vec<Vec<char>> = Vec::new();
            front.push(to_chars("---"));
            front.push(completed_line);
            front.push(to_chars("---"));
            front.append(&mut out);
            out = front;
            proof {
                assert(out@.map_values(|l: Vec<char>| l@) =~= seq![
                    "---"@,
                    "completed: "@ + timestamp@,
                    "---"@,
                ] + marked);
            }
        }
    }
    let n = out.len();
    let joined = crate::view::join_lines(&out, 0, n);
    assert(out@.subrange(0, n as int) =~= out@);
    string_from(joined.as_slice())
}

// ---------------------------------------------------------------------------
// Sending an inbox note to Obsidian
// ---------------------------------------------------------------------------

/// A character as it goes inside a double-quoted shell word: `\`, `"`,
/// `$` and a backquote get a backslash before them.
pub open spec fn shell_escape_char(c: char) -> Seq<char> {
    if c == '\\' || c == '"' || c == '$' || c == '`' {
        seq!['\\', c]
    } else {
        seq![c]
    }
}

/// `s` with every character escaped for a double-quoted shell word.
pub open spec fn shell_escaped(s: Seq<char>) -> Seq<char>
    decreases s.len(),
{
    if s.len() == 0 {
        Seq::empty()
    } else {
        shell_escaped(s.drop_last()) + shell_escape_char(s.last())
    }
}

/// The position of the first line that starts with `# `.
pub open spec fn first_heading(ls: Seq<Seq<char>>) -> Option<int>
    decreases ls.len(),
{
    if ls.len() == 0 {
        None
    } else if crate::text::starts_with(ls[0], "# "@) {
        Some(0)
    } else {
        match first_heading(ls.drop_first()) {
            Some(i) => Some(i + 1),
            None => None,
        }
    }
}

/// The title of an inbox note: its first `# ` heading, or `name` when it
/// has none or the heading is empty.
pub open spec fn note_title(content: Seq<char>, name: Seq<char>) -> Seq<char> {
    let ls = crate::text::lines(content);
    match first_heading(ls) {
        Some(i) => {
            let t = crate::text::trim(crate::text::trim_start_matches(ls[i], "# "@));
            if t.len() > 0 {
                t
            } else {
                name
            }
        },
        None => name,
    }
}

/// The shell command that creates an Obsidian note from an inbox note.
pub open spec fn obsidian_command_text(content: Seq<char>, name: Seq<char>) -> Seq<char> {
    "obsidian vault=\"TomtomsVault\" create name=\""@ + note_title(content, name)
        + "\" content=\""@ + shell_escaped(content) + "\" path=\"Zettelkasten/\" open"@
}

fn first_heading_index(ls: &Vec<Vec<char>>) -> (r: Option<usize>)
    ensures
        opt_int(r) == first_heading(ls@.map_values(|l: Vec<char>| l@)),
        r matches Some(i) ==> i < ls@.len(),
{
    let ghost v = ls@.map_values(|l: Vec<char>| l@);
    let hash = to_chars("# ");
    let mut i: usize = 0;
    assert(v.skip(0) =~= v);
    while i < ls.len()
        invariant
            i <= ls@.len(),
            v == ls@.map_values(|l: Vec<char>| l@),
            hash@ == "# "@,
            first_heading(v) == match first_heading(v.skip(i as int)) {
                Some(k) => Some(k + i),
                None => None,
            },
        decreases ls.len() - i,
    {
        assert(v.skip(i as int)[0] == ls@[i as int]@);
        if crate::text::has_prefix(ls[i].as_slice(), hash.as_slice()) {
            return Some(i);
        }
        assert(v.skip(i as int).drop_first() =~= v.skip(i + 1));
        i = i + 1;
    }
    assert(v.skip(i as int) =~= Seq::<Seq<char>>::empty());
    None
}

/// The shell command that creates an Obsidian note from the inbox note
/// with text `content` and file name `name` (see `obsidian_command_text`).
pub fn obsidian_command(content: &str, name: &str) -> (r: String)
    ensures
        r@ == obsidian_command_text(content@, name@),
{
    let chars = to_chars(content);
    let ls = split_lines(chars.as_slice());
    proof {
        assert(ls@.map_values(|l: Vec<char>| l@) =~= crate::text::lines(content@));
    }
    let title = match first_heading_index(&ls) {
        Some(i) => {
            let t = crate::text::remove_leading(ls[i].as_slice(), to_chars("# ").as_slice());
            let t = crate::text::trim_ws(t.as_slice());
            if t.len() > 0 {
                t
            } else {
                to_chars(name)
            }
        },
        None => to_chars(name),
    };
    let mut esc: Vec<char> = Vec::new();
    let mut i: usize = 0;
    while i < chars.len()
        invariant
            i <= chars@.len(),
            chars@ == content@,
            esc@ == shell_escaped(chars@.take(i as int)),
        decreases chars.len() - i,
    {
        let c = chars[i];
        if c == '\\' || c == '"' || c == '$' || c == '`' {
            esc.push('\\');
        }
        esc.push(c);
        proof {
            assert(chars@.take(i + 1).drop_last() =~= chars@.take(i as int));
            assert(esc@ =~= shell_escaped(chars@.take(i as int)) + shell_escape_char(c));
        }
        i = i + 1;
    }
    assert(chars@.take(i as int) =~= chars@);
    let mut r = String::new();
    push_str(&mut r, "obsidian vault=\"TomtomsVault\" create name=\"");
    push_chars(&mut r, title.as_slice());
    push_str(&mut r, "\" content=\"");
    push_chars(&mut r, esc.as_slice());
    push_str(&mut r, "\" path=\"Zettelkasten/\" open");
    r
}

// ---------------------------------------------------------------------------
// Plans and inbox notes
// ---------------------------------------------------------------------------

impl NoteFile {
    /// A copy of this note.
    pub fn copy(&self) -> (r: NoteFile)
        ensures
            r.path@ == self.path@,
            r.name@ == self.name@,
            r.content@ == self.content@,
    {
        NoteFile { path: self.path.clone(), name: self.name.clone(), content: self.content.clone() }
    }
}

/// The names of notes.
pub open spec fn note_names(v: Seq<NoteFile>) -> Seq<Seq<char>> {
    v.map_values(|n: NoteFile| n.name@)
}

/// The notes sorted by name, equal names in their order.
pub fn sort_notes_by_name(v: &Vec<NoteFile>) -> (r: Vec<NoteFile>)
    ensures
        r@.len() == v@.len(),
        exists|p: Seq<int>|
            #[trigger] is_stable_order(note_names(v@), p) && forall|i: int|
                0 <= i < r@.len() ==> r@[i].path@ == v@[p[i]].path@ && r@[i].name@ == v@[p[i]].name@
                    && r@[i].content@ == v@[p[i]].content@,
{
    let mut names: Vec<String> = Vec::new();
    let mut i: usize = 0;
    while i < v.len()
        invariant
            i <= v@.len(),
            names@.len() == i,
            forall|k: int| 0 <= k < i ==> (#[trigger] names@[k])@ == v@[k].name@,
        decreases v.len() - i,
    {
        names.push(copy_string(&v[i].name));
        i = i + 1;
    }
    let p = stable_order(&names);
    let ghost ps = positions(p@);
    proof {
        assert(names@.map_values(|s: String| s@) =~= note_names(v@));
        assert forall|k: int| 0 <= k < p@.len() implies #[trigger] p@[k] < v@.len() by {
            assert(ps[k] == p@[k] as int);
        }
    }
    let mut r: Vec<NoteFile> = Vec::new();
    let mut k: usize = 0;
    while k < p.len()
        invariant
            k <= p@.len(),
            p@.len() == v@.len(),
            forall|j: int| 0 <= j < p@.len() ==> #[trigger] p@[j] < v@.len(),
            r@.len() == k,
            forall|j: int|
                0 <= j < k ==> (#[trigger] r@[j]).path@ == v@[p@[j] as int].path@ && r@[j].name@
                    == v@[p@[j] as int].name@ && r@[j].content@ == v@[p@[j] as int].content@,
        decreases p.len() - k,
    {
        r.push(v[p[k]].copy());
        k = k + 1;
    }
    proof {
        assert forall|j: int| 0 <= j < r@.len() implies r@[j].path@ == v@[ps[j]].path@ && r@[j].name@
            == v@[ps[j]].name@ && r@[j].content@ == v@[ps[j]].content@ by {
            assert(ps[j] == p@[j] as int);
        }
    }
    r
}

} // verus!
