//! The todo browser's state and what each key does to it: a sidebar of
//! panels (projects, plans, inbox, backlog), their entries, the todos of
//! the selected entry, search, and the dialogs.
use vstd::prelude::*;
use crate::order::positions;
use crate::parser::TodoView;
use crate::tedlist::{
    entry_views, group_views, groups_sorted, in_order, lemma_done_count_bound, lemma_overview_prefix,
    matches_search, next_sort_mode, overview_of, search_matches, sidebar_entries, todo_views, visible,
    BacklogStore, GroupView, NoteFile, Overview, PanelState, SortMode, TodoFile, TodoFileView,
    TodoStore,
};

verus! {

/// Which side of the browser has the keyboard.
#[derive(Clone, Copy, Debug, PartialEq, Eq, Structural)]
pub enum Focus {
    Sidebar,
    Content,
}

/// A plan or an inbox note as values.
pub struct NoteView {
    pub path: Seq<char>,
    pub name: Seq<char>,
    pub content: Seq<char>,
}

impl NoteFile {
    pub open spec fn view(&self) -> NoteView {
        NoteView { path: self.path@, name: self.name@, content: self.content@ }
    }
}

pub open spec fn note_views(v: Seq<NoteFile>) -> Seq<NoteView> {
    v.map_values(|n: NoteFile| n.view())
}

/// The keys the browser tells apart.
#[derive(Clone, Copy, Debug, PartialEq, Eq, Structural)]
pub enum BrowserCode {
    Char(char),
    Esc,
    Tab,
    BackTab,
    Up,
    Down,
    Left,
    Right,
    Enter,
    Backspace,
    Other,
}

/// The modifiers held with a key: none, Control alone, or anything else.
#[derive(Clone, Copy, Debug, PartialEq, Eq, Structural)]
pub enum Modifiers {
    Plain,
    Control,
    Other,
}

/// A key press.
#[derive(Clone, Copy, Debug, PartialEq, Eq, Structural)]
pub struct BrowserKey {
    pub code: BrowserCode,
    pub mods: Modifiers,
}

/// What the program around the browser does after a key: nothing, or run
/// an editor, the todo form or a command, or change files.
pub enum ViewAction {
    Idle,
    OpenEditor(String),
    NewTodo,
    OpenInTedtui(NoteFile),
    EditInTedtui(String),
    DeleteFile(String),
    CompleteFile(String),
    RunBackground(String),
    RunObsidian(String),
    MoveFile(String, String),
}

/// An action as values.
pub enum ActionView {
    Idle,
    OpenEditor(Seq<char>),
    NewTodo,
    OpenInTedtui(NoteView),
    EditInTedtui(Seq<char>),
    DeleteFile(Seq<char>),
    CompleteFile(Seq<char>),
    RunBackground(Seq<char>),
    RunObsidian(Seq<char>),
    MoveFile(Seq<char>, Seq<char>),
}

impl ViewAction {
    pub open spec fn view(&self) -> ActionView {
        match self {
            ViewAction::Idle => ActionView::Idle,
            ViewAction::OpenEditor(p) => ActionView::OpenEditor(p@),
            ViewAction::NewTodo => ActionView::NewTodo,
            ViewAction::OpenInTedtui(n) => ActionView::OpenInTedtui(n.view()),
            ViewAction::EditInTedtui(p) => ActionView::EditInTedtui(p@),
            ViewAction::DeleteFile(p) => ActionView::DeleteFile(p@),
            ViewAction::CompleteFile(p) => ActionView::CompleteFile(p@),
            ViewAction::RunBackground(c) => ActionView::RunBackground(c@),
            ViewAction::RunObsidian(c) => ActionView::RunObsidian(c@),
            ViewAction::MoveFile(a, b) => ActionView::MoveFile(a@, b@),
        }
    }
}

/// The browser as values.
#[verifier::ext_equal]
pub struct BrowserView {
    pub groups: Seq<GroupView>,
    pub unassigned: Seq<TodoFileView>,
    pub all_todos: Seq<TodoFileView>,
    pub backlog_groups: Seq<GroupView>,
    pub backlog_unassigned: Seq<TodoFileView>,
    pub backlog_all: Seq<TodoFileView>,
    pub plans: Seq<NoteView>,
    pub inbox: Seq<NoteView>,
    pub panels: Seq<PanelState>,
    pub panel_mode: usize,
    pub focus: Focus,
    pub selected_left: usize,
    pub confirm_delete: Option<Seq<char>>,
    pub confirm_complete: Option<Seq<char>>,
    pub show_detail: bool,
    pub detail_scroll: usize,
    pub show_overview: bool,
    pub sort_mode: SortMode,
    pub show_empty_projects: bool,
    pub query: Seq<char>,
    pub search_active: bool,
    pub search_typing: bool,
    pub home: Seq<char>,
    pub quit: bool,
}

// ---------------------------------------------------------------------------
// The sidebar
// ---------------------------------------------------------------------------

/// The panels, in the order the sidebar lists them.
pub open spec fn proj() -> usize {
    0
}

pub open spec fn plans_panel() -> usize {
    1
}

pub open spec fn inbox_panel() -> usize {
    2
}

pub open spec fn backlog_panel() -> usize {
    3
}

pub open spec fn searching_sidebar(v: BrowserView) -> bool {
    v.focus == Focus::Sidebar && v.search_active && v.query.len() > 0
}

pub open spec fn searching_content(v: BrowserView) -> bool {
    v.focus == Focus::Content && v.search_active && v.query.len() > 0
}

pub open spec fn matches(v: BrowserView, text: Seq<char>) -> bool {
    matches_search(v.search_active, v.query, text)
}

/// The projects panel's entries.
pub open spec fn store_entries(v: BrowserView) -> Seq<(Seq<char>, int)> {
    sidebar_entries(
        "All Todos"@,
        v.all_todos.len() as int,
        v.groups,
        visible(v.groups, v.show_empty_projects),
        v.unassigned.len() as int,
    )
}

/// The backlog panel's entries.
pub open spec fn backlog_entries(v: BrowserView) -> Seq<(Seq<char>, int)> {
    sidebar_entries(
        "Backlog"@,
        v.backlog_all.len() as int,
        v.backlog_groups,
        in_order(v.backlog_groups.len()),
        v.backlog_unassigned.len() as int,
    )
}

/// How many entries panel `mode` has.
pub open spec fn sidebar_len(v: BrowserView, mode: int) -> nat {
    if mode == 0 {
        store_entries(v).len()
    } else if mode == 1 {
        v.plans.len()
    } else if mode == 2 {
        v.inbox.len()
    } else if mode == 3 {
        backlog_entries(v).len()
    } else {
        0
    }
}

/// Whether entry `k` of panel `mode` matches the search: a project or
/// backlog entry by its name, a plan or an inbox note by its name or text.
pub open spec fn sidebar_match(v: BrowserView, mode: int, k: int) -> bool {
    if mode == 0 {
        matches(v, store_entries(v)[k].0)
    } else if mode == 1 {
        matches(v, v.plans[k].name) || matches(v, v.plans[k].content)
    } else if mode == 2 {
        matches(v, v.inbox[k].name) || matches(v, v.inbox[k].content)
    } else if mode == 3 {
        matches(v, backlog_entries(v)[k].0)
    } else {
        false
    }
}

/// The positions below `n` of the entries of panel `mode` that match.
pub open spec fn matching_upto(v: BrowserView, mode: int, n: nat) -> Seq<int>
    decreases n,
{
    if n == 0 {
        Seq::empty()
    } else if sidebar_match(v, mode, n - 1) {
        matching_upto(v, mode, (n - 1) as nat).push(n - 1)
    } else {
        matching_upto(v, mode, (n - 1) as nat)
    }
}

/// The positions of the entries of panel `mode` that match the search.
pub open spec fn matching(v: BrowserView, mode: int) -> Seq<int> {
    matching_upto(v, mode, sidebar_len(v, mode))
}

/// How many entries the sidebar shows under panel `mode`: the matching
/// ones while searching the sidebar of that panel, all otherwise.
pub open spec fn mode_items(v: BrowserView, mode: int) -> nat {
    if searching_sidebar(v) && mode == v.panel_mode {
        matching(v, mode).len()
    } else {
        sidebar_len(v, mode)
    }
}

/// The entry of panel `mode` that its selection stands for: while
/// searching, the selection counts matching entries only.
pub open spec fn real_sidx(v: BrowserView, mode: int) -> int {
    let s = v.panels[mode].sidx as int;
    if !searching_sidebar(v) || mode != v.panel_mode {
        s
    } else if s < matching(v, mode).len() {
        matching(v, mode)[s]
    } else {
        0
    }
}

/// The todos of projects entry `idx`.
pub open spec fn store_todos_for(v: BrowserView, idx: int) -> Seq<TodoFileView> {
    let vis = visible(v.groups, v.show_empty_projects);
    if idx == 0 {
        v.all_todos
    } else if idx <= vis.len() {
        v.groups[vis[idx - 1]].todos
    } else {
        v.unassigned
    }
}

/// The todos of backlog entry `idx`.
pub open spec fn backlog_todos_for(v: BrowserView, idx: int) -> Seq<TodoFileView> {
    if idx == 0 {
        v.backlog_all
    } else if idx <= v.backlog_groups.len() {
        v.backlog_groups[idx - 1].todos
    } else {
        v.backlog_unassigned
    }
}

/// The todos on the right: those of the selected backlog entry in the
/// backlog panel, those of the selected projects entry otherwise.
pub open spec fn current_todos(v: BrowserView) -> Seq<TodoFileView> {
    if v.panel_mode == 3 {
        backlog_todos_for(v, real_sidx(v, 3))
    } else {
        store_todos_for(v, real_sidx(v, 0))
    }
}

/// The selected plan.
pub open spec fn current_plan(v: BrowserView) -> Option<NoteView> {
    let i = real_sidx(v, 1);
    if 0 <= i < v.plans.len() {
        Some(v.plans[i])
    } else {
        None
    }
}

/// The selected inbox note.
pub open spec fn current_inbox(v: BrowserView) -> Option<NoteView> {
    let i = real_sidx(v, 2);
    if 0 <= i < v.inbox.len() {
        Some(v.inbox[i])
    } else {
        None
    }
}

/// Whether task `i` of `t` matches the search.
pub open spec fn task_matches(v: BrowserView, t: TodoFileView, i: int) -> bool {
    0 <= i < t.todo.tasks.len() && matches(v, t.todo.tasks[i].text)
}

/// Whether a todo is listed while searching the content: its name,
/// project, info, goal, a task, its note or its history matches.
pub open spec fn todo_matches(v: BrowserView, t: TodoFileView) -> bool {
    ||| !searching_content(v)
    ||| v.query.len() == 0
    ||| matches(v, t.todo.name)
    ||| matches(v, t.todo.project_id)
    ||| matches(v, t.todo.info)
    ||| matches(v, t.todo.goal)
    ||| (exists|i: int| #[trigger] task_matches(v, t, i))
    ||| matches(v, t.todo.note)
    ||| matches(v, t.todo.history)
}

/// The positions below `n` of the listed todos.
pub open spec fn listed_upto(v: BrowserView, ts: Seq<TodoFileView>, n: nat) -> Seq<int>
    decreases n,
{
    if n == 0 {
        Seq::empty()
    } else if todo_matches(v, ts[n - 1]) {
        listed_upto(v, ts, (n - 1) as nat).push(n - 1)
    } else {
        listed_upto(v, ts, (n - 1) as nat)
    }
}

/// The positions of the listed todos among the current ones.
pub open spec fn listed(v: BrowserView) -> Seq<int> {
    listed_upto(v, current_todos(v), current_todos(v).len())
}

/// The current todo that the content selection stands for.
pub open spec fn real_content_idx(v: BrowserView) -> int {
    let c = v.panels[v.panel_mode as int].cidx as int;
    if !searching_content(v) {
        c
    } else if c < listed(v).len() {
        listed(v)[c]
    } else {
        0
    }
}

/// How many todos the content lists.
pub open spec fn filtered_content_len(v: BrowserView) -> nat {
    if !searching_content(v) {
        current_todos(v).len()
    } else {
        listed(v).len()
    }
}

/// The todos the content lists.
pub open spec fn shown_todos(v: BrowserView) -> Seq<TodoView> {
    listed(v).map_values(|i: int| current_todos(v)[i].todo)
}

/// The selected todo, if there is one.
pub open spec fn current_todo(v: BrowserView) -> Option<TodoFileView> {
    let i = real_content_idx(v);
    if 0 <= i < current_todos(v).len() {
        Some(current_todos(v)[i])
    } else {
        None
    }
}

/// How many lines the sidebar has: a header per panel and the entries of
/// the open one.
pub open spec fn left_len(v: BrowserView) -> int {
    4 + mode_items(v, v.panel_mode as int) as int
}

/// The sidebar line of panel `m`'s header.
pub open spec fn header_position(v: BrowserView, m: int) -> int {
    if m > v.panel_mode {
        m + mode_items(v, v.panel_mode as int)
    } else {
        m
    }
}

/// The panel whose header is sidebar line `idx`.
pub open spec fn is_header(v: BrowserView, idx: int) -> Option<int> {
    let n = mode_items(v, v.panel_mode as int);
    if 0 <= idx <= v.panel_mode {
        Some(idx)
    } else if v.panel_mode + n < idx < 4 + n {
        Some(idx - n)
    } else {
        None
    }
}

/// The entry of the open panel at sidebar line `idx`.
pub open spec fn sub_index(v: BrowserView, idx: int) -> Option<int> {
    let n = mode_items(v, v.panel_mode as int);
    if v.panel_mode + 1 <= idx < v.panel_mode + 1 + n {
        Some(idx - v.panel_mode - 1)
    } else {
        None
    }
}

// ---------------------------------------------------------------------------
// What the keys do
// ---------------------------------------------------------------------------

pub open spec fn with_panel(v: BrowserView, m: int, p: PanelState) -> BrowserView {
    BrowserView { panels: v.panels.update(m, p), ..v }
}

pub open spec fn set_sidx(v: BrowserView, m: int, s: usize) -> BrowserView {
    with_panel(v, m, PanelState { sidx: s, ..v.panels[m] })
}

pub open spec fn set_cidx(v: BrowserView, m: int, c: usize) -> BrowserView {
    with_panel(v, m, PanelState { cidx: c, ..v.panels[m] })
}

/// Selecting sidebar line `idx`: a header opens its panel, an entry
/// becomes the panel's selection with the content at its top.
pub open spec fn select_left(v: BrowserView, idx: int) -> BrowserView {
    if idx >= left_len(v) {
        v
    } else {
        match is_header(v, idx) {
            Some(m) => BrowserView { panel_mode: m as usize, selected_left: m as usize, ..v },
            None => match sub_index(v, idx) {
                Some(sub) => with_panel(
                    v,
                    v.panel_mode as int,
                    PanelState { sidx: sub as usize, cidx: 0 },
                ),
                None => v,
            },
        }
    }
}

/// The projects in a new order `sorted`, with the projects selection kept
/// within the entries shown.
pub open spec fn resort(v: BrowserView, sorted: Seq<GroupView>) -> BrowserView {
    let v1 = BrowserView { groups: sorted, ..v };
    let n = visible(sorted, v.show_empty_projects).len();
    if v.panels[0].sidx > n {
        set_sidx(v1, 0, n as usize)
    } else {
        v1
    }
}

/// Showing or hiding the projects without todos.
pub open spec fn toggle_empty(v: BrowserView) -> BrowserView {
    let v1 = BrowserView { show_empty_projects: !v.show_empty_projects, ..v };
    let n = visible(v.groups, v1.show_empty_projects).len();
    let v2 = if v.panels[0].sidx > n {
        set_sidx(v1, 0, n as usize)
    } else {
        v1
    };
    set_cidx(v2, 0, 0)
}

pub open spec fn sat_dec(n: usize) -> usize {
    if n > 0 {
        (n - 1) as usize
    } else {
        0
    }
}

/// The keys that act whatever the panel.
#[derive(Clone, Copy, Debug, PartialEq, Eq, Structural)]
pub enum GlobalAct {
    Quit,
    ToggleFocus,
    CyclePanel,
    Up,
    Down,
    Enter,
    Left,
    Edit,
    NewTodo,
    Complete,
    Backlog,
    Search,
}

/// The global key bindings: `q`, Esc and Ctrl+C quit; Tab and Shift+Tab
/// switch sides; `p` opens the next panel; the arrows and Enter move;
/// Ctrl+E edits, Ctrl+N makes a todo, Ctrl+D completes one, Ctrl+B moves
/// it to or from the backlog; `/` and Ctrl+F search.
pub open spec fn global_binding(key: BrowserKey) -> Option<GlobalAct> {
    let plain = key.mods == Modifiers::Plain;
    let ctrl = key.mods == Modifiers::Control;
    match key.code {
        BrowserCode::Char(c) => if c == 'q' && plain {
            Some(GlobalAct::Quit)
        } else if c == 'c' && ctrl {
            Some(GlobalAct::Quit)
        } else if c == 'p' && plain {
            Some(GlobalAct::CyclePanel)
        } else if c == 'e' && ctrl {
            Some(GlobalAct::Edit)
        } else if c == 'n' && ctrl {
            Some(GlobalAct::NewTodo)
        } else if c == 'd' && ctrl {
            Some(GlobalAct::Complete)
        } else if c == 'b' && ctrl {
            Some(GlobalAct::Backlog)
        } else if c == '/' && plain {
            Some(GlobalAct::Search)
        } else if c == 'f' && ctrl {
            Some(GlobalAct::Search)
        } else {
            None
        },
        BrowserCode::Esc => if plain {
            Some(GlobalAct::Quit)
        } else {
            None
        },
        BrowserCode::Tab => if plain {
            Some(GlobalAct::ToggleFocus)
        } else {
            None
        },
        BrowserCode::BackTab => if plain {
            Some(GlobalAct::ToggleFocus)
        } else {
            None
        },
        BrowserCode::Up => if plain {
            Some(GlobalAct::Up)
        } else {
            None
        },
        BrowserCode::Down => if plain {
            Some(GlobalAct::Down)
        } else {
            None
        },
        BrowserCode::Enter => if plain {
            Some(GlobalAct::Enter)
        } else {
            None
        },
        BrowserCode::Right => if plain {
            Some(GlobalAct::Enter)
        } else {
            None
        },
        BrowserCode::Left => if plain {
            Some(GlobalAct::Left)
        } else {
            None
        },
        _ => None,
    }
}

/// Whether all the tasks of a todo are done (true for a todo without
/// tasks).
pub open spec fn all_done(t: TodoFileView) -> bool {
    forall|i: int| 0 <= i < t.todo.tasks.len() ==> (#[trigger] t.todo.tasks[i]).completed
}

/// The directory a todo moves to with Ctrl+B: the backlog from the
/// projects panel, the todos from the backlog panel.
pub open spec fn move_target(v: BrowserView) -> Seq<char> {
    crate::paths::join_path(
        crate::paths::join_path(v.home, ".ted"@),
        if v.panel_mode == 3 {
            "todos"@
        } else {
            "backlog"@
        },
    )
}

/// What a global binding does: the new state, and the action for the
/// program around the browser when there is one.
pub open spec fn global_apply(v: BrowserView, a: GlobalAct) -> (BrowserView, Option<ActionView>) {
    let pm = v.panel_mode as int;
    let c = v.panels[pm].cidx;
    match a {
        GlobalAct::Quit => (BrowserView { quit: true, ..v }, None),
        GlobalAct::ToggleFocus => (
            BrowserView {
                focus: if v.focus == Focus::Sidebar {
                    Focus::Content
                } else {
                    Focus::Sidebar
                },
                ..v
            },
            None,
        ),
        GlobalAct::CyclePanel => {
            let m = ((v.panel_mode + 1) % 4) as usize;
            (BrowserView { panel_mode: m, selected_left: m, ..v }, None)
        },
        GlobalAct::Up => if v.focus == Focus::Sidebar && v.selected_left > 0 {
            let s = (v.selected_left - 1) as usize;
            (select_left(BrowserView { selected_left: s, ..v }, s as int), None)
        } else if v.focus == Focus::Content {
            if pm == 1 || pm == 2 {
                (set_cidx(v, pm, sat_dec(c)), None)
            } else if c > 0 {
                (set_cidx(v, pm, (c - 1) as usize), None)
            } else {
                (v, None)
            }
        } else {
            (v, None)
        },
        GlobalAct::Down => if v.focus == Focus::Sidebar {
            if v.selected_left + 1 < left_len(v) {
                let s = (v.selected_left + 1) as usize;
                (select_left(BrowserView { selected_left: s, ..v }, s as int), None)
            } else {
                (v, None)
            }
        } else if pm == 1 || pm == 2 {
            (set_cidx(v, pm, (c + 1) as usize), None)
        } else if c + 1 < filtered_content_len(v) {
            (set_cidx(v, pm, (c + 1) as usize), None)
        } else {
            (v, None)
        },
        GlobalAct::Enter => if v.focus == Focus::Sidebar {
            (BrowserView { focus: Focus::Content, ..select_left(v, v.selected_left as int) }, None)
        } else if (pm == 0 || pm == 3) && filtered_content_len(v) > 0 {
            (BrowserView { show_detail: true, detail_scroll: 0, ..v }, None)
        } else {
            (v, None)
        },
        GlobalAct::Left => if v.focus == Focus::Content {
            (BrowserView { focus: Focus::Sidebar, ..v }, None)
        } else {
            (v, None)
        },
        GlobalAct::Edit => (
            v,
            if pm == 0 || pm == 3 {
                match current_todo(v) {
                    Some(t) => Some(ActionView::EditInTedtui(t.path)),
                    None => None,
                }
            } else if pm == 1 {
                match current_plan(v) {
                    Some(p) => Some(ActionView::OpenEditor(p.path)),
                    None => None,
                }
            } else if pm == 2 {
                match current_inbox(v) {
                    Some(f) => Some(ActionView::OpenInTedtui(f)),
                    None => None,
                }
            } else {
                None
            },
        ),
        GlobalAct::NewTodo => (v, Some(ActionView::NewTodo)),
        GlobalAct::Complete => if pm != 0 || v.focus != Focus::Content {
            (v, None)
        } else {
            match current_todo(v) {
                Some(t) => if all_done(t) {
                    (v, Some(ActionView::CompleteFile(t.path)))
                } else {
                    (BrowserView { confirm_complete: Some(t.path), ..v }, None)
                },
                None => (v, None),
            }
        },
        GlobalAct::Backlog => if v.focus != Focus::Content || (pm != 0 && pm != 3) {
            (v, None)
        } else {
            match current_todo(v) {
                Some(t) => (v, Some(ActionView::MoveFile(t.path, move_target(v)))),
                None => (v, None),
            }
        },
        GlobalAct::Search => (BrowserView { search_active: true, search_typing: true, ..v }, None),
    }
}

/// The keys of a panel.
#[derive(Clone, Copy, Debug, PartialEq, Eq, Structural)]
pub enum PanelAct {
    Overview,
    Sort,
    ToggleEmpty,
    InboxDelete,
    InboxUpdate,
    InboxObsidian,
}

/// The panel key bindings (any modifiers): in the projects panel `o`
/// shows the overview, `s` sorts, `h` hides or shows empty projects; in
/// the inbox `d` deletes, `u` runs the inbox command, `o` sends the note
/// to Obsidian. Upper case works too.
pub open spec fn panel_binding(pm: usize, code: BrowserCode) -> Option<PanelAct> {
    match code {
        BrowserCode::Char(c) => if pm == 0 {
            if c == 'o' || c == 'O' {
                Some(PanelAct::Overview)
            } else if c == 's' || c == 'S' {
                Some(PanelAct::Sort)
            } else if c == 'h' || c == 'H' {
                Some(PanelAct::ToggleEmpty)
            } else {
                None
            }
        } else if pm == 2 {
            if c == 'd' || c == 'D' {
                Some(PanelAct::InboxDelete)
            } else if c == 'u' || c == 'U' {
                Some(PanelAct::InboxUpdate)
            } else if c == 'o' || c == 'O' {
                Some(PanelAct::InboxObsidian)
            } else {
                None
            }
        } else {
            None
        },
        _ => None,
    }
}

/// What a panel binding does; `sorted` is the projects in the next sort
/// mode's order.
pub open spec fn panel_apply(v: BrowserView, a: PanelAct, sorted: Seq<GroupView>) -> (
    BrowserView,
    Option<ActionView>,
) {
    match a {
        PanelAct::Overview => if filtered_content_len(v) > 0 {
            (BrowserView { show_overview: true, ..v }, None)
        } else {
            (v, None)
        },
        PanelAct::Sort => (
            resort(BrowserView { sort_mode: next_sort_mode(v.sort_mode), ..v }, sorted),
            None,
        ),
        PanelAct::ToggleEmpty => (toggle_empty(v), None),
        PanelAct::InboxDelete => if v.focus == Focus::Content {
            match current_inbox(v) {
                Some(f) => (BrowserView { confirm_delete: Some(f.path), ..v }, None),
                None => (v, None),
            }
        } else {
            (v, None)
        },
        PanelAct::InboxUpdate => (v, Some(ActionView::RunBackground("ted inbox"@))),
        PanelAct::InboxObsidian => (
            v,
            match current_inbox(v) {
                Some(f) => Some(
                    ActionView::RunObsidian(
                        crate::tedlist::obsidian_command_text(f.content, f.name),
                    ),
                ),
                None => None,
            },
        ),
    }
}

pub open spec fn panel_step(v: BrowserView, code: BrowserCode, sorted: Seq<GroupView>) -> (
    BrowserView,
    ActionView,
) {
    match panel_binding(v.panel_mode, code) {
        Some(a) => {
            let (v1, r) = panel_apply(v, a, sorted);
            (
                v1,
                match r {
                    Some(x) => x,
                    None => ActionView::Idle,
                },
            )
        },
        None => (v, ActionView::Idle),
    }
}

/// A key that reached the bindings: the global binding first; when it
/// hands nothing to the program, the panel binding of the same key.
pub open spec fn dispatch(v: BrowserView, key: BrowserKey, sorted: Seq<GroupView>) -> (
    BrowserView,
    ActionView,
) {
    match global_binding(key) {
        Some(a) => {
            let (v1, r) = global_apply(v, a);
            match r {
                Some(x) => (v1, x),
                None => panel_step(v1, key.code, sorted),
            }
        },
        None => panel_step(v, key.code, sorted),
    }
}

/// A key in the detail view: Esc closes it, the arrows scroll.
pub open spec fn detail_key(v: BrowserView, code: BrowserCode) -> BrowserView {
    match code {
        BrowserCode::Esc => BrowserView { show_detail: false, detail_scroll: 0, ..v },
        BrowserCode::Up => BrowserView { detail_scroll: sat_dec(v.detail_scroll), ..v },
        BrowserCode::Down => BrowserView { detail_scroll: (v.detail_scroll + 1) as usize, ..v },
        _ => v,
    }
}

/// A key while typing a search: Esc ends the search, Tab and Enter stop
/// typing, Backspace deletes, a plain character is typed; the sidebar
/// selection is then kept within the matching entries.
pub open spec fn typing_key(v: BrowserView, key: BrowserKey) -> BrowserView {
    let v1 = match key.code {
        BrowserCode::Esc => BrowserView {
            search_active: false,
            search_typing: false,
            query: Seq::empty(),
            ..v
        },
        BrowserCode::Tab => BrowserView { search_typing: false, ..v },
        BrowserCode::BackTab => BrowserView { search_typing: false, ..v },
        BrowserCode::Enter => BrowserView { search_typing: false, ..v },
        BrowserCode::Backspace => BrowserView {
            query: if v.query.len() > 0 {
                v.query.drop_last()
            } else {
                v.query
            },
            ..v
        },
        BrowserCode::Char(c) => if key.mods == Modifiers::Plain {
            BrowserView { query: v.query.push(c), ..v }
        } else {
            v
        },
        _ => v,
    };
    let pm = v1.panel_mode as int;
    if searching_sidebar(v1) && v1.panels[pm].sidx >= mode_items(v1, pm) {
        set_sidx(
            v1,
            pm,
            if mode_items(v1, pm) > 0 {
                (mode_items(v1, pm) - 1) as usize
            } else {
                0
            },
        )
    } else {
        v1
    }
}

pub open spec fn is_yes(code: BrowserCode) -> bool {
    code == BrowserCode::Char('y') || code == BrowserCode::Char('Y')
}

/// The state in which a key reaches the bindings, or `None` when the open
/// view, a question or the search takes it.
pub open spec fn pre_dispatch(v: BrowserView, key: BrowserKey) -> Option<BrowserView> {
    if v.show_detail || v.show_overview || v.confirm_delete is Some || v.confirm_complete is Some {
        None
    } else {
        let v1 = if v.search_typing {
            typing_key(v, key)
        } else {
            v
        };
        if v.search_typing && (v1.search_typing || key.code == BrowserCode::Esc) {
            None
        } else if v1.search_active && key.code == BrowserCode::Esc {
            None
        } else if v1.search_active && key.mods == Modifiers::Plain && key.code is Char {
            None
        } else {
            Some(v1)
        }
    }
}

/// What a key does when it does not reach the bindings.
pub open spec fn early_key(v: BrowserView, key: BrowserKey) -> (BrowserView, ActionView) {
    if v.show_detail {
        (detail_key(v, key.code), ActionView::Idle)
    } else if v.show_overview {
        (BrowserView { show_overview: false, ..v }, ActionView::Idle)
    } else if v.confirm_delete is Some {
        (
            BrowserView { confirm_delete: None, ..v },
            if is_yes(key.code) {
                ActionView::DeleteFile(v.confirm_delete->0)
            } else {
                ActionView::Idle
            },
        )
    } else if v.confirm_complete is Some {
        (
            BrowserView { confirm_complete: None, ..v },
            if is_yes(key.code) {
                ActionView::CompleteFile(v.confirm_complete->0)
            } else {
                ActionView::Idle
            },
        )
    } else {
        let v1 = if v.search_typing {
            typing_key(v, key)
        } else {
            v
        };
        if v.search_typing && (v1.search_typing || key.code == BrowserCode::Esc) {
            (v1, ActionView::Idle)
        } else if v1.search_active && key.code == BrowserCode::Esc {
            (BrowserView { search_active: false, query: Seq::empty(), ..v1 }, ActionView::Idle)
        } else {
            let c = key.code->Char_0;
            (BrowserView { query: v1.query.push(c), search_typing: true, ..v1 }, ActionView::Idle)
        }
    }
}

/// What a key press does: the new state and the action for the program
/// around the browser; `sorted` is the projects in the next sort mode's
/// order, used when the key sorts them.
pub open spec fn browser_key(v: BrowserView, key: BrowserKey, sorted: Seq<GroupView>) -> (
    BrowserView,
    ActionView,
) {
    match pre_dispatch(v, key) {
        Some(v1) => dispatch(v1, key, sorted),
        None => early_key(v, key),
    }
}

/// Whether a key press sorts the projects.
pub open spec fn key_sorts(v: BrowserView, key: BrowserKey) -> bool {
    match pre_dispatch(v, key) {
        Some(v1) => global_binding(key) is None && panel_binding(v1.panel_mode, key.code) == Some(
            PanelAct::Sort,
        ),
        None => false,
    }
}

/// Whether a key press would count past the largest `usize`: scrolling
/// the detail view or moving down from the last possible position.
pub open spec fn key_overflows(v: BrowserView, key: BrowserKey) -> bool {
    if v.show_detail {
        key.code == BrowserCode::Down && v.detail_scroll == usize::MAX
    } else {
        match pre_dispatch(v, key) {
            Some(v1) => global_binding(key) == Some(GlobalAct::Down) && (if v1.focus
                == Focus::Sidebar {
                v1.selected_left == usize::MAX
            } else {
                v1.panels[v1.panel_mode as int].cidx == usize::MAX
            }),
            None => false,
        }
    }
}

// ---------------------------------------------------------------------------
// The browser
// ---------------------------------------------------------------------------

/// The todo browser.
pub struct Browser {
    pub store: TodoStore,
    pub backlog_store: BacklogStore,
    pub plans: Vec<NoteFile>,
    pub inbox_files: Vec<NoteFile>,
    pub panels: Vec<PanelState>,
    pub panel_mode: usize,
    pub focus: Focus,
    pub selected_left: usize,
    pub confirm_delete: Option<String>,
    pub confirm_complete: Option<String>,
    pub show_detail: bool,
    pub detail_scroll: usize,
    pub show_overview: bool,
    pub sort_mode: SortMode,
    pub show_empty_projects: bool,
    pub search_query: String,
    pub search_active: bool,
    pub search_typing: bool,
    pub home: String,
    pub quit: bool,
}

/// Four panels, one of them open, and lists short enough to count their
/// sidebar lines in a `usize`.
pub open spec fn browser_inv(v: BrowserView) -> bool {
    &&& v.panels.len() == 4
    &&& v.panel_mode < 4
    &&& v.groups.len() + 10 <= usize::MAX
    &&& v.backlog_groups.len() + 10 <= usize::MAX
    &&& v.plans.len() + 10 <= usize::MAX
    &&& v.inbox.len() + 10 <= usize::MAX
}

impl Browser {
    pub open spec fn view(&self) -> BrowserView {
        BrowserView {
            groups: group_views(self.store.groups@),
            unassigned: todo_views(self.store.unassigned@),
            all_todos: todo_views(self.store.all_todos@),
            backlog_groups: group_views(self.backlog_store.groups@),
            backlog_unassigned: todo_views(self.backlog_store.unassigned@),
            backlog_all: todo_views(self.backlog_store.all@),
            plans: note_views(self.plans@),
            inbox: note_views(self.inbox_files@),
            panels: self.panels@,
            panel_mode: self.panel_mode,
            focus: self.focus,
            selected_left: self.selected_left,
            confirm_delete: crate::filestorage::opt_view(self.confirm_delete),
            confirm_complete: crate::filestorage::opt_view(self.confirm_complete),
            show_detail: self.show_detail,
            detail_scroll: self.detail_scroll,
            show_overview: self.show_overview,
            sort_mode: self.sort_mode,
            show_empty_projects: self.show_empty_projects,
            query: self.search_query@,
            search_active: self.search_active,
            search_typing: self.search_typing,
            home: self.home@,
            quit: self.quit,
        }
    }

    pub open spec fn inv(&self) -> bool {
        browser_inv(self.view())
    }
}

proof fn lemma_visible_len(groups: Seq<GroupView>, show: bool)
    ensures
        visible(groups, show).len() <= groups.len(),
        forall|k: int|
            0 <= k < visible(groups, show).len() ==> 0 <= #[trigger] visible(groups, show)[k]
                < groups.len(),
    decreases groups.len(),
{
    if groups.len() > 0 {
        lemma_visible_len(groups.drop_last(), show);
    }
}

proof fn lemma_sidebar_len(v: BrowserView, m: int)
    requires
        browser_inv(v),
    ensures
        sidebar_len(v, m) + 8 <= usize::MAX,
{
    lemma_visible_len(v.groups, v.show_empty_projects);
}

proof fn lemma_matching_upto(v: BrowserView, mode: int, n: nat)
    ensures
        matching_upto(v, mode, n).len() <= n,
        forall|k: int|
            0 <= k < matching_upto(v, mode, n).len() ==> 0 <= #[trigger] matching_upto(v, mode, n)[k]
                < n,
    decreases n,
{
    if n > 0 {
        lemma_matching_upto(v, mode, (n - 1) as nat);
    }
}

proof fn lemma_mode_items(v: BrowserView, m: int)
    requires
        browser_inv(v),
    ensures
        mode_items(v, m) <= sidebar_len(v, m),
        mode_items(v, m) + 8 <= usize::MAX,
{
    lemma_sidebar_len(v, m);
    lemma_matching_upto(v, m, sidebar_len(v, m));
}

impl Browser {
    /// Whether the sidebar is being searched.
    pub fn searching_sidebar(&self) -> (r: bool)
        ensures
            r == searching_sidebar(self.view()),
    {
        self.focus == Focus::Sidebar && self.search_active && !self.search_query.as_str().is_empty()
    }

    /// Whether the content is being searched.
    pub fn searching_content(&self) -> (r: bool)
        ensures
            r == searching_content(self.view()),
    {
        self.focus == Focus::Content && self.search_active && !self.search_query.as_str().is_empty()
    }

    /// Whether `text` matches the search.
    pub fn search_matches(&self, text: &str) -> (r: bool)
        ensures
            r == matches(self.view(), text@),
    {
        search_matches(self.search_active, self.search_query.as_str(), text)
    }

    fn store_entries(&self) -> (r: Vec<(String, usize)>)
        ensures
            entry_views(r@) == store_entries(self.view()),
    {
        self.store.entries(self.show_empty_projects)
    }

    fn backlog_entries(&self) -> (r: Vec<(String, usize)>)
        ensures
            entry_views(r@) == backlog_entries(self.view()),
    {
        self.backlog_store.entries()
    }

    /// The positions of the entries of panel `mode` that match the search.
    fn matching(&self, mode: usize) -> (r: Vec<usize>)
        requires
            self.inv(),
        ensures
            positions(r@) == matching(self.view(), mode as int),
            forall|k: int| 0 <= k < r@.len() ==> #[trigger] r@[k] < sidebar_len(self.view(), mode as int),
    {
        let ghost v = self.view();
        let entries = if mode == 0 {
            self.store_entries()
        } else if mode == 3 {
            self.backlog_entries()
        } else {
            Vec::new()
        };
        let n: usize = if mode == 0 || mode == 3 {
            entries.len()
        } else if mode == 1 {
            self.plans.len()
        } else if mode == 2 {
            self.inbox_files.len()
        } else {
            0
        };
        assert(n == sidebar_len(v, mode as int)) by {
            if mode == 0 || mode == 3 {
                assert(entry_views(entries@).len() == entries@.len());
            }
        }
        let mut r: Vec<usize> = Vec::new();
        let mut k: usize = 0;
        while k < n
            invariant
                k <= n,
                n == sidebar_len(v, mode as int),
                v == self.view(),
                mode == 0 ==> entry_views(entries@) == store_entries(v),
                mode == 3 ==> entry_views(entries@) == backlog_entries(v),
                (mode == 0 || mode == 3) ==> entries@.len() == n,
                positions(r@) == matching_upto(v, mode as int, k as nat),
                forall|j: int| 0 <= j < r@.len() ==> #[trigger] r@[j] < k,
            decreases n - k,
        {
            let hit = if mode == 0 || mode == 3 {
                assert(entry_views(entries@)[k as int].0 == entries@[k as int].0@);
                self.search_matches(entries[k].0.as_str())
            } else if mode == 1 {
                assert(v.plans[k as int] == self.plans@[k as int].view());
                self.search_matches(self.plans[k].name.as_str()) || self.search_matches(
                    self.plans[k].content.as_str(),
                )
            } else {
                assert(v.inbox[k as int] == self.inbox_files@[k as int].view());
                self.search_matches(self.inbox_files[k].name.as_str()) || self.search_matches(
                    self.inbox_files[k].content.as_str(),
                )
            };
            assert(hit == sidebar_match(v, mode as int, k as int));
            if hit {
                let ghost before = r@;
                r.push(k);
                assert(positions(r@) =~= positions(before).push(k as int));
            }
            k = k + 1;
        }
        r
    }

    /// How many entries panel `mode` has.
    fn sidebar_len(&self, mode: usize) -> (r: usize)
        requires
            self.inv(),
        ensures
            r == sidebar_len(self.view(), mode as int),
    {
        proof {
            lemma_sidebar_len(self.view(), mode as int);
        }
        if mode == 0 {
            let e = self.store_entries();
            assert(entry_views(e@).len() == e@.len());
            e.len()
        } else if mode == 1 {
            self.plans.len()
        } else if mode == 2 {
            self.inbox_files.len()
        } else if mode == 3 {
            let e = self.backlog_entries();
            assert(entry_views(e@).len() == e@.len());
            e.len()
        } else {
            0
        }
    }

    /// How many entries the sidebar shows under panel `mode`.
    pub fn mode_items(&self, mode: usize) -> (r: usize)
        requires
            self.inv(),
        ensures
            r == mode_items(self.view(), mode as int),
    {
        proof {
            lemma_mode_items(self.view(), mode as int);
        }
        if self.searching_sidebar() && mode == self.panel_mode {
            let m = self.matching(mode);
            assert(positions(m@).len() == m@.len());
            m.len()
        } else {
            self.sidebar_len(mode)
        }
    }

    /// The entry of panel `mode` that its selection stands for.
    pub fn real_sidx(&self, mode: usize) -> (r: usize)
        requires
            self.inv(),
            mode < 4,
        ensures
            r as int == real_sidx(self.view(), mode as int),
    {
        let s = self.panels[mode].sidx;
        if !self.searching_sidebar() || mode != self.panel_mode {
            s
        } else {
            let f = self.matching(mode);
            if s < f.len() {
                assert(positions(f@)[s as int] == f@[s as int] as int);
                f[s]
            } else {
                0
            }
        }
    }

    /// The todos on the right (see `current_todos`).
    pub fn current_todos(&self) -> (r: &Vec<TodoFile>)
        requires
            self.inv(),
        ensures
            todo_views(r@) == current_todos(self.view()),
    {
        if self.panel_mode == 3 {
            let i = self.real_sidx(3);
            let r = self.backlog_store.todos_for(i);
            proof {
                let v = self.view();
                if i > 0 && i <= self.backlog_store.groups@.len() {
                    assert(v.backlog_groups[i - 1] == self.backlog_store.groups@[i - 1].view());
                }
            }
            r
        } else {
            let i = self.real_sidx(0);
            let r = self.store.todos_for(i, self.show_empty_projects);
            proof {
                let v = self.view();
                let vis = visible(v.groups, v.show_empty_projects);
                lemma_visible_len(v.groups, v.show_empty_projects);
                if i > 0 && i <= vis.len() {
                    assert(v.groups[vis[i - 1]] == self.store.groups@[vis[i - 1]].view());
                }
            }
            r
        }
    }
}

impl Browser {
    /// Whether todo `t` is listed while searching the content (see
    /// `todo_matches`).
    pub fn todo_matches_search(&self, t: &TodoFile) -> (r: bool)
        ensures
            r == todo_matches(self.view(), t.view()),
    {
        let ghost v = self.view();
        if !self.searching_content() || self.search_query.as_str().is_empty() {
            return true;
        }
        let p = &t.parsed;
        if self.search_matches(p.name.as_str()) || self.search_matches(p.project_id.as_str())
            || self.search_matches(p.info.as_str()) || self.search_matches(p.goal.as_str()) {
            return true;
        }
        let mut i: usize = 0;
        while i < p.tasks.len()
            invariant
                i <= p.tasks@.len(),
                v == self.view(),
                p == &t.parsed,
                forall|k: int| 0 <= k < i ==> !#[trigger] task_matches(v, t.view(), k),
            decreases p.tasks.len() - i,
        {
            assert(t.view().todo.tasks[i as int] == p.tasks@[i as int].view());
            if self.search_matches(p.tasks[i].text.as_str()) {
                assert(task_matches(v, t.view(), i as int));
                return true;
            }
            i = i + 1;
        }
        assert(!exists|k: int| #[trigger] task_matches(v, t.view(), k));
        self.search_matches(p.note.as_str()) || self.search_matches(p.history.as_str())
    }

    /// The positions of the listed todos among the current ones.
    fn listed(&self) -> (r: Vec<usize>)
        requires
            self.inv(),
        ensures
            positions(r@) == listed(self.view()),
            forall|k: int| 0 <= k < r@.len() ==> #[trigger] r@[k] < current_todos(self.view()).len(),
    {
        let ghost v = self.view();
        let ts = self.current_todos();
        let mut r: Vec<usize> = Vec::new();
        let mut k: usize = 0;
        while k < ts.len()
            invariant
                k <= ts@.len(),
                v == self.view(),
                todo_views(ts@) == current_todos(v),
                positions(r@) == listed_upto(v, current_todos(v), k as nat),
                forall|j: int| 0 <= j < r@.len() ==> #[trigger] r@[j] < k,
            decreases ts.len() - k,
        {
            assert(current_todos(v)[k as int] == ts@[k as int].view());
            if self.todo_matches_search(&ts[k]) {
                let ghost before = r@;
                r.push(k);
                assert(positions(r@) =~= positions(before).push(k as int));
            }
            k = k + 1;
        }
        r
    }

    /// The current todo that the content selection stands for.
    pub fn real_content_idx(&self) -> (r: usize)
        requires
            self.inv(),
        ensures
            r as int == real_content_idx(self.view()),
    {
        let c = self.panels[self.panel_mode].cidx;
        if !self.searching_content() {
            return c;
        }
        let f = self.listed();
        if c < f.len() {
            assert(positions(f@)[c as int] == f@[c as int] as int);
            f[c]
        } else {
            0
        }
    }

    /// How many todos the content lists.
    pub fn filtered_content_len(&self) -> (r: usize)
        requires
            self.inv(),
        ensures
            r == filtered_content_len(self.view()),
    {
        if !self.searching_content() {
            let ts = self.current_todos();
            assert(todo_views(ts@).len() == ts@.len());
            ts.len()
        } else {
            let f = self.listed();
            assert(positions(f@).len() == f@.len());
            f.len()
        }
    }

    /// The overview of the todos the content lists (see `overview_of`);
    /// `None` when they have more tasks than a `usize` counts.
    pub fn overview(&self) -> (r: Option<Overview>)
        requires
            self.inv(),
        ensures
            ({
                let ts = shown_todos(self.view());
                let (c, p, n, t, d) = overview_of(ts);
                if t <= usize::MAX {
                    r matches Some(o) && {
                        &&& o.todos == ts.len()
                        &&& o.completed == c
                        &&& o.in_progress == p
                        &&& o.no_tasks == n
                        &&& o.tasks == t
                        &&& o.done == d
                    }
                } else {
                    r is None
                }
            }),
    {
        let ghost v = self.view();
        let ts = self.current_todos();
        let f = self.listed();
        let ghost shown = shown_todos(v);
        assert(shown.len() == f@.len());
        let mut c: usize = 0;
        let mut p: usize = 0;
        let mut n: usize = 0;
        let mut t: usize = 0;
        let mut d: usize = 0;
        let mut k: usize = 0;
        while k < f.len()
            invariant
                k <= f@.len(),
                v == self.view(),
                todo_views(ts@) == current_todos(v),
                positions(f@) == listed(v),
                forall|j: int| 0 <= j < f@.len() ==> #[trigger] f@[j] < current_todos(v).len(),
                shown == shown_todos(v),
                shown.len() == f@.len(),
                (c as nat, p as nat, n as nat, t as nat, d as nat) == overview_of(shown.take(k as int)),
                c + p + n == k,
                d <= t,
            decreases f.len() - k,
        {
            let x = &ts[f[k]];
            proof {
                assert(shown.take(k + 1).drop_last() =~= shown.take(k as int));
                assert(positions(f@)[k as int] == f@[k as int] as int);
                assert(shown[k as int] == x.view().todo);
                assert(x.view().todo.tasks.len() == x.parsed.tasks@.len());
            }
            let len = x.parsed.tasks.len();
            if len == 0 {
                n = n + 1;
            } else {
                let dn = x.done_tasks();
                proof {
                    lemma_done_count_bound(x.view().todo.tasks);
                }
                if t > usize::MAX - len {
                    proof {
                        lemma_overview_prefix(shown, k + 1);
                    }
                    return None;
                }
                if x.is_complete() {
                    c = c + 1;
                } else {
                    p = p + 1;
                }
                t = t + len;
                d = d + dn;
            }
            k = k + 1;
        }
        assert(shown.take(k as int) =~= shown);
        Some(Overview { todos: k, completed: c, in_progress: p, no_tasks: n, tasks: t, done: d })
    }

    /// The selected todo, if there is one.
    pub fn current_todo(&self) -> (r: Option<&TodoFile>)
        requires
            self.inv(),
        ensures
            match current_todo(self.view()) {
                Some(t) => r matches Some(x) && x.view() == t,
                None => r is None,
            },
    {
        let ts = self.current_todos();
        let i = self.real_content_idx();
        if i < ts.len() {
            assert(current_todos(self.view())[i as int] == ts@[i as int].view());
            Some(&ts[i])
        } else {
            None
        }
    }

    /// The selected plan.
    pub fn current_plan(&self) -> (r: Option<&NoteFile>)
        requires
            self.inv(),
        ensures
            match current_plan(self.view()) {
                Some(p) => r matches Some(x) && x.view() == p,
                None => r is None,
            },
    {
        let i = self.real_sidx(1);
        if i < self.plans.len() {
            assert(self.view().plans[i as int] == self.plans@[i as int].view());
            Some(&self.plans[i])
        } else {
            None
        }
    }

    /// The selected inbox note.
    pub fn current_inbox(&self) -> (r: Option<&NoteFile>)
        requires
            self.inv(),
        ensures
            match current_inbox(self.view()) {
                Some(p) => r matches Some(x) && x.view() == p,
                None => r is None,
            },
    {
        let i = self.real_sidx(2);
        if i < self.inbox_files.len() {
            assert(self.view().inbox[i as int] == self.inbox_files@[i as int].view());
            Some(&self.inbox_files[i])
        } else {
            None
        }
    }

    /// How many lines the sidebar has.
    pub fn left_len(&self) -> (r: usize)
        requires
            self.inv(),
        ensures
            r as int == left_len(self.view()),
    {
        proof {
            lemma_mode_items(self.view(), self.panel_mode as int);
        }
        4 + self.mode_items(self.panel_mode)
    }

    /// The sidebar line of panel `mode`'s header.
    pub fn header_position(&self, mode: usize) -> (r: usize)
        requires
            self.inv(),
            mode < 4,
        ensures
            r as int == header_position(self.view(), mode as int),
    {
        proof {
            lemma_mode_items(self.view(), self.panel_mode as int);
        }
        if mode > self.panel_mode {
            mode + self.mode_items(self.panel_mode)
        } else {
            mode
        }
    }

    /// The panel whose header is sidebar line `idx`.
    pub fn is_header(&self, idx: usize) -> (r: Option<usize>)
        requires
            self.inv(),
        ensures
            crate::tedlist::opt_int(r) == is_header(self.view(), idx as int),
    {
        proof {
            lemma_mode_items(self.view(), self.panel_mode as int);
        }
        let n = self.mode_items(self.panel_mode);
        if idx <= self.panel_mode {
            Some(idx)
        } else if self.panel_mode + n < idx && idx < 4 + n {
            Some(idx - n)
        } else {
            None
        }
    }

    /// The entry of the open panel at sidebar line `idx`.
    pub fn sub_index(&self, idx: usize) -> (r: Option<usize>)
        requires
            self.inv(),
        ensures
            crate::tedlist::opt_int(r) == sub_index(self.view(), idx as int),
    {
        proof {
            lemma_mode_items(self.view(), self.panel_mode as int);
        }
        let n = self.mode_items(self.panel_mode);
        if self.panel_mode + 1 <= idx && idx < self.panel_mode + 1 + n {
            Some(idx - self.panel_mode - 1)
        } else {
            None
        }
    }

    /// Selects sidebar line `idx` (see `select_left`).
    pub fn select_left(&mut self, idx: usize)
        requires
            old(self).inv(),
        ensures
            final(self).view() == select_left(old(self).view(), idx as int),
            final(self).inv(),
    {
        if idx >= self.left_len() {
            return;
        }
        match self.is_header(idx) {
            Some(m) => {
                self.panel_mode = m;
                self.selected_left = m;
            },
            None => match self.sub_index(idx) {
                Some(sub) => {
                    let pm = self.panel_mode;
                    self.panels.set(pm, PanelState { sidx: sub, cidx: 0 });
                },
                None => {},
            },
        }
    }
}

pub open spec fn opt_action(o: Option<ViewAction>) -> Option<ActionView> {
    match o {
        Some(a) => Some(a.view()),
        None => None,
    }
}

fn copy_note(n: &NoteFile) -> (r: NoteFile)
    ensures
        r.view() == n.view(),
{
    NoteFile { path: n.path.clone(), name: n.name.clone(), content: n.content.clone() }
}

impl Browser {
    /// Reorders the projects for the sort mode, keeping the projects
    /// selection within the entries shown.
    pub fn resort(&mut self)
        requires
            old(self).inv(),
        ensures
            groups_sorted(final(self).view().groups, old(self).view().groups, old(self).sort_mode),
            final(self).view() == resort(old(self).view(), final(self).view().groups),
            final(self).inv(),
    {
        let sorted = crate::tedlist::sort_groups(&self.store.groups, self.sort_mode);
        self.store.groups = sorted;
        let vis = self.store.visible_groups(self.show_empty_projects);
        let n = vis.len();
        proof {
            assert(positions(vis@).len() == vis@.len());
            let p = choose|p: Seq<int>| #[trigger] crate::order::orders(old(self).view().groups, p) && (if old(self).sort_mode == SortMode::Alpha {
                crate::order::is_stable_order(crate::tedlist::group_names(old(self).view().groups), p)
            } else {
                crate::order::is_int_order(crate::tedlist::count_keys(old(self).view().groups, old(self).sort_mode), p)
            }) && group_views(self.store.groups@).len() == p.len() && forall|i: int| 0 <= i < group_views(self.store.groups@).len() ==> group_views(self.store.groups@)[i] == old(self).view().groups[#[trigger] p[i]];
            assert(self.store.groups@.len() == old(self).store.groups@.len());
        }
        if self.panels[0].sidx > n {
            self.panels.set(0, PanelState { sidx: n, ..self.panels[0] });
        }
    }

    /// Shows or hides the projects without todos.
    pub fn toggle_empty(&mut self)
        requires
            old(self).inv(),
        ensures
            final(self).view() == toggle_empty(old(self).view()),
            final(self).inv(),
    {
        self.show_empty_projects = !self.show_empty_projects;
        let vis = self.store.visible_groups(self.show_empty_projects);
        let n = vis.len();
        assert(positions(vis@).len() == vis@.len());
        if self.panels[0].sidx > n {
            self.panels.set(0, PanelState { sidx: n, ..self.panels[0] });
        }
        self.panels.set(0, PanelState { cidx: 0, ..self.panels[0] });
    }

    fn move_target(&self) -> (r: String)
        ensures
            r@ == move_target(self.view()),
    {
        let ted = crate::paths::join(self.home.as_str(), ".ted");
        crate::paths::join(
            ted.as_str(),
            if self.panel_mode == 3 {
                "todos"
            } else {
                "backlog"
            },
        )
    }

    fn global_up(&mut self) -> (r: Option<ViewAction>)
        requires
            old(self).inv(),
        ensures
            (final(self).view(), opt_action(r)) == global_apply(old(self).view(), GlobalAct::Up),
            final(self).inv(),
    {
        let pm = self.panel_mode;
        let c = self.panels[pm].cidx;
        if self.focus == Focus::Sidebar && self.selected_left > 0 {
            let s = self.selected_left - 1;
            self.selected_left = s;
            self.select_left(s);
        } else if self.focus == Focus::Content {
            if pm == 1 || pm == 2 {
                let nc = if c > 0 {
                    c - 1
                } else {
                    0
                };
                self.panels.set(pm, PanelState { cidx: nc, ..self.panels[pm] });
            } else if c > 0 {
                self.panels.set(pm, PanelState { cidx: c - 1, ..self.panels[pm] });
            }
        }
        None
    }

    fn global_down(&mut self) -> (r: Option<ViewAction>)
        requires
            old(self).inv(),
            if old(self).focus == Focus::Sidebar {
                old(self).selected_left < usize::MAX
            } else {
                old(self).panels@[old(self).panel_mode as int].cidx < usize::MAX
            },
        ensures
            (final(self).view(), opt_action(r)) == global_apply(old(self).view(), GlobalAct::Down),
            final(self).inv(),
    {
        let pm = self.panel_mode;
        let c = self.panels[pm].cidx;
        if self.focus == Focus::Sidebar {
            if self.selected_left + 1 < self.left_len() {
                let s = self.selected_left + 1;
                self.selected_left = s;
                self.select_left(s);
            }
        } else if pm == 1 || pm == 2 {
            self.panels.set(pm, PanelState { cidx: c + 1, ..self.panels[pm] });
        } else if c + 1 < self.filtered_content_len() {
            self.panels.set(pm, PanelState { cidx: c + 1, ..self.panels[pm] });
        }
        None
    }

    fn global_enter(&mut self) -> (r: Option<ViewAction>)
        requires
            old(self).inv(),
        ensures
            (final(self).view(), opt_action(r)) == global_apply(old(self).view(), GlobalAct::Enter),
            final(self).inv(),
    {
        let pm = self.panel_mode;
        if self.focus == Focus::Sidebar {
            let s = self.selected_left;
            self.select_left(s);
            self.focus = Focus::Content;
        } else if (pm == 0 || pm == 3) && self.filtered_content_len() > 0 {
            self.show_detail = true;
            self.detail_scroll = 0;
        }
        None
    }

    fn global_edit(&self) -> (r: Option<ViewAction>)
        requires
            self.inv(),
        ensures
            (self.view(), opt_action(r)) == global_apply(self.view(), GlobalAct::Edit),
    {
        let pm = self.panel_mode;
        if pm == 0 || pm == 3 {
            match self.current_todo() {
                Some(t) => Some(ViewAction::EditInTedtui(t.path.clone())),
                None => None,
            }
        } else if pm == 1 {
            match self.current_plan() {
                Some(p) => Some(ViewAction::OpenEditor(p.path.clone())),
                None => None,
            }
        } else {
            match self.current_inbox() {
                Some(f) => Some(ViewAction::OpenInTedtui(copy_note(f))),
                None => None,
            }
        }
    }

    fn global_complete(&mut self) -> (r: Option<ViewAction>)
        requires
            old(self).inv(),
        ensures
            (final(self).view(), opt_action(r)) == global_apply(old(self).view(), GlobalAct::Complete),
            final(self).inv(),
    {
        if self.panel_mode != 0 || self.focus != Focus::Content {
            return None;
        }
        let found = match self.current_todo() {
            Some(t) => Some((t.path.clone(), all_tasks_done(t))),
            None => None,
        };
        match found {
            Some((path, done)) => {
                if done {
                    Some(ViewAction::CompleteFile(path))
                } else {
                    self.confirm_complete = Some(path);
                    None
                }
            },
            None => None,
        }
    }

    fn global_backlog(&self) -> (r: Option<ViewAction>)
        requires
            self.inv(),
        ensures
            (self.view(), opt_action(r)) == global_apply(self.view(), GlobalAct::Backlog),
    {
        let pm = self.panel_mode;
        if self.focus != Focus::Content || (pm != 0 && pm != 3) {
            return None;
        }
        match self.current_todo() {
            Some(t) => Some(ViewAction::MoveFile(t.path.clone(), self.move_target())),
            None => None,
        }
    }

    fn apply_global(&mut self, a: GlobalAct) -> (r: Option<ViewAction>)
        requires
            old(self).inv(),
            a == GlobalAct::Down ==> (if old(self).focus == Focus::Sidebar {
                old(self).selected_left < usize::MAX
            } else {
                old(self).panels@[old(self).panel_mode as int].cidx < usize::MAX
            }),
        ensures
            (final(self).view(), opt_action(r)) == global_apply(old(self).view(), a),
            final(self).inv(),
    {
        match a {
            GlobalAct::Quit => {
                self.quit = true;
                None
            },
            GlobalAct::ToggleFocus => {
                self.focus = if self.focus == Focus::Sidebar {
                    Focus::Content
                } else {
                    Focus::Sidebar
                };
                None
            },
            GlobalAct::CyclePanel => {
                let m = (self.panel_mode + 1) % 4;
                self.panel_mode = m;
                self.selected_left = m;
                None
            },
            GlobalAct::Up => self.global_up(),
            GlobalAct::Down => self.global_down(),
            GlobalAct::Enter => self.global_enter(),
            GlobalAct::Left => {
                if self.focus == Focus::Content {
                    self.focus = Focus::Sidebar;
                }
                None
            },
            GlobalAct::Edit => self.global_edit(),
            GlobalAct::NewTodo => Some(ViewAction::NewTodo),
            GlobalAct::Complete => self.global_complete(),
            GlobalAct::Backlog => self.global_backlog(),
            GlobalAct::Search => {
                self.search_active = true;
                self.search_typing = true;
                None
            },
        }
    }
}

/// Whether all the tasks of `t` are done.
fn all_tasks_done(t: &TodoFile) -> (r: bool)
    ensures
        r == all_done(t.view()),
{
    let ghost tv = t.view();
    let mut i: usize = 0;
    while i < t.parsed.tasks.len()
        invariant
            i <= t.parsed.tasks@.len(),
            tv == t.view(),
            forall|k: int| 0 <= k < i ==> (#[trigger] tv.todo.tasks[k]).completed,
        decreases t.parsed.tasks.len() - i,
    {
        assert(tv.todo.tasks[i as int] == t.parsed.tasks@[i as int].view());
        if !t.parsed.tasks[i].completed {
            return false;
        }
        i = i + 1;
    }
    true
}

/// The global binding of a key (see `global_binding`).
pub fn global_binding_of(key: BrowserKey) -> (r: Option<GlobalAct>)
    ensures
        r == global_binding(key),
{
    let plain = key.mods == Modifiers::Plain;
    let ctrl = key.mods == Modifiers::Control;
    match key.code {
        BrowserCode::Char(c) => if c == 'q' && plain {
            Some(GlobalAct::Quit)
        } else if c == 'c' && ctrl {
            Some(GlobalAct::Quit)
        } else if c == 'p' && plain {
            Some(GlobalAct::CyclePanel)
        } else if c == 'e' && ctrl {
            Some(GlobalAct::Edit)
        } else if c == 'n' && ctrl {
            Some(GlobalAct::NewTodo)
        } else if c == 'd' && ctrl {
            Some(GlobalAct::Complete)
        } else if c == 'b' && ctrl {
            Some(GlobalAct::Backlog)
        } else if c == '/' && plain {
            Some(GlobalAct::Search)
        } else if c == 'f' && ctrl {
            Some(GlobalAct::Search)
        } else {
            None
        },
        BrowserCode::Esc => if plain {
            Some(GlobalAct::Quit)
        } else {
            None
        },
        BrowserCode::Tab => if plain {
            Some(GlobalAct::ToggleFocus)
        } else {
            None
        },
        BrowserCode::BackTab => if plain {
            Some(GlobalAct::ToggleFocus)
        } else {
            None
        },
        BrowserCode::Up => if plain {
            Some(GlobalAct::Up)
        } else {
            None
        },
        BrowserCode::Down => if plain {
            Some(GlobalAct::Down)
        } else {
            None
        },
        BrowserCode::Enter => if plain {
            Some(GlobalAct::Enter)
        } else {
            None
        },
        BrowserCode::Right => if plain {
            Some(GlobalAct::Enter)
        } else {
            None
        },
        BrowserCode::Left => if plain {
            Some(GlobalAct::Left)
        } else {
            None
        },
        _ => None,
    }
}

/// The panel binding of a key in panel `pm` (see `panel_binding`).
pub fn panel_binding_of(pm: usize, code: BrowserCode) -> (r: Option<PanelAct>)
    ensures
        r == panel_binding(pm, code),
{
    match code {
        BrowserCode::Char(c) => if pm == 0 {
            if c == 'o' || c == 'O' {
                Some(PanelAct::Overview)
            } else if c == 's' || c == 'S' {
                Some(PanelAct::Sort)
            } else if c == 'h' || c == 'H' {
                Some(PanelAct::ToggleEmpty)
            } else {
                None
            }
        } else if pm == 2 {
            if c == 'd' || c == 'D' {
                Some(PanelAct::InboxDelete)
            } else if c == 'u' || c == 'U' {
                Some(PanelAct::InboxUpdate)
            } else if c == 'o' || c == 'O' {
                Some(PanelAct::InboxObsidian)
            } else {
                None
            }
        } else {
            None
        },
        _ => None,
    }
}

impl Browser {
    fn apply_panel(&mut self, a: PanelAct) -> (r: Option<ViewAction>)
        requires
            old(self).inv(),
        ensures
            (final(self).view(), opt_action(r)) == panel_apply(
                old(self).view(),
                a,
                final(self).view().groups,
            ),
            a == PanelAct::Sort ==> groups_sorted(
                final(self).view().groups,
                old(self).view().groups,
                next_sort_mode(old(self).sort_mode),
            ),
            a != PanelAct::Sort ==> final(self).view().groups == old(self).view().groups,
            final(self).inv(),
    {
        match a {
            PanelAct::Overview => {
                if self.filtered_content_len() > 0 {
                    self.show_overview = true;
                }
                None
            },
            PanelAct::Sort => {
                self.sort_mode = self.sort_mode.next();
                self.resort();
                None
            },
            PanelAct::ToggleEmpty => {
                self.toggle_empty();
                None
            },
            PanelAct::InboxDelete => {
                if self.focus == Focus::Content {
                    let found = match self.current_inbox() {
                        Some(f) => Some(f.path.clone()),
                        None => None,
                    };
                    match found {
                        Some(p) => {
                            self.confirm_delete = Some(p);
                        },
                        None => {},
                    }
                }
                None
            },
            PanelAct::InboxUpdate => Some(
                ViewAction::RunBackground(string_of("ted inbox")),
            ),
            PanelAct::InboxObsidian => match self.current_inbox() {
                Some(f) => Some(
                    ViewAction::RunObsidian(
                        crate::tedlist::obsidian_command(f.content.as_str(), f.name.as_str()),
                    ),
                ),
                None => None,
            },
        }
    }

    fn detail_key(&mut self, code: BrowserCode)
        requires
            old(self).inv(),
            code == BrowserCode::Down ==> old(self).detail_scroll < usize::MAX,
        ensures
            final(self).view() == detail_key(old(self).view(), code),
            final(self).inv(),
    {
        match code {
            BrowserCode::Esc => {
                self.show_detail = false;
                self.detail_scroll = 0;
            },
            BrowserCode::Up => {
                self.detail_scroll = if self.detail_scroll > 0 {
                    self.detail_scroll - 1
                } else {
                    0
                };
            },
            BrowserCode::Down => {
                self.detail_scroll = self.detail_scroll + 1;
            },
            _ => {},
        }
    }

    fn typing_key(&mut self, key: BrowserKey)
        requires
            old(self).inv(),
        ensures
            final(self).view() == typing_key(old(self).view(), key),
            final(self).inv(),
    {
        match key.code {
            BrowserCode::Esc => {
                self.search_active = false;
                self.search_typing = false;
                self.search_query = String::new();
            },
            BrowserCode::Tab | BrowserCode::BackTab | BrowserCode::Enter => {
                self.search_typing = false;
            },
            BrowserCode::Backspace => {
                crate::text::pop_char(&mut self.search_query);
            },
            BrowserCode::Char(c) => {
                if key.mods == Modifiers::Plain {
                    crate::text::push_char(&mut self.search_query, c);
                }
            },
            _ => {},
        }
        if self.searching_sidebar() {
            let pm = self.panel_mode;
            let count = self.mode_items(pm);
            if self.panels[pm].sidx >= count {
                let s = if count > 0 {
                    count - 1
                } else {
                    0
                };
                self.panels.set(pm, PanelState { sidx: s, ..self.panels[pm] });
            }
        }
    }
}

fn string_of(s: &str) -> (r: String)
    ensures
        r@ == s@,
{
    crate::text::string_from(crate::text::to_chars(s).as_slice())
}

impl Browser {
    /// What a key press does (see `browser_key`): the browser changes and
    /// the action for the program around it comes back. A key that sorts
    /// the projects puts them in the next sort mode's order.
    pub fn handle_key(&mut self, key: BrowserKey) -> (r: ViewAction)
        requires
            old(self).inv(),
            !key_overflows(old(self).view(), key),
        ensures
            (final(self).view(), r.view()) == browser_key(
                old(self).view(),
                key,
                final(self).view().groups,
            ),
            key_sorts(old(self).view(), key) ==> groups_sorted(
                final(self).view().groups,
                old(self).view().groups,
                next_sort_mode(old(self).sort_mode),
            ),
            !key_sorts(old(self).view(), key) ==> final(self).view().groups == old(
                self,
            ).view().groups,
            final(self).inv(),
    {
        if self.show_detail || self.show_overview || self.confirm_delete.is_some()
            || self.confirm_complete.is_some() {
            return self.answer_dialog(key);
        }
        let ghost v0 = self.view();
        if self.search_typing {
            self.typing_key(key);
            if self.search_typing || key.code == BrowserCode::Esc {
                return ViewAction::Idle;
            }
        }
        if self.search_active && key.code == BrowserCode::Esc {
            self.search_active = false;
            self.search_query = String::new();
            return ViewAction::Idle;
        }
        if self.search_active && key.mods == Modifiers::Plain {
            if let BrowserCode::Char(c) = key.code {
                crate::text::push_char(&mut self.search_query, c);
                self.search_typing = true;
                return ViewAction::Idle;
            }
        }
        assert(pre_dispatch(v0, key) == Some(self.view()));
        self.dispatch_key(key)
    }

    fn answer_dialog(&mut self, key: BrowserKey) -> (r: ViewAction)
        requires
            old(self).inv(),
            old(self).show_detail || old(self).show_overview || old(self).confirm_delete is Some
                || old(self).confirm_complete is Some,
            !key_overflows(old(self).view(), key),
        ensures
            (final(self).view(), r.view()) == early_key(old(self).view(), key),
            final(self).view().groups == old(self).view().groups,
            final(self).inv(),
    {
        if self.show_detail {
            self.detail_key(key.code);
            return ViewAction::Idle;
        }
        if self.show_overview {
            self.show_overview = false;
            return ViewAction::Idle;
        }
        let yes = key.code == BrowserCode::Char('y') || key.code == BrowserCode::Char('Y');
        let pending_delete = match &self.confirm_delete {
            Some(p) => Some(p.clone()),
            None => None,
        };
        if let Some(path) = pending_delete {
            self.confirm_delete = None;
            return if yes {
                ViewAction::DeleteFile(path)
            } else {
                ViewAction::Idle
            };
        }
        let pending_complete = match &self.confirm_complete {
            Some(p) => Some(p.clone()),
            None => None,
        };
        let path = pending_complete.unwrap();
        self.confirm_complete = None;
        if yes {
            ViewAction::CompleteFile(path)
        } else {
            ViewAction::Idle
        }
    }

    fn dispatch_key(&mut self, key: BrowserKey) -> (r: ViewAction)
        requires
            old(self).inv(),
            global_binding(key) == Some(GlobalAct::Down) ==> (if old(self).focus == Focus::Sidebar {
                old(self).selected_left < usize::MAX
            } else {
                old(self).panels@[old(self).panel_mode as int].cidx < usize::MAX
            }),
        ensures
            (final(self).view(), r.view()) == dispatch(old(self).view(), key, final(self).view().groups),
            (global_binding(key) is None && panel_binding(old(self).panel_mode, key.code) == Some(
                PanelAct::Sort,
            )) ==> groups_sorted(
                final(self).view().groups,
                old(self).view().groups,
                next_sort_mode(old(self).sort_mode),
            ),
            !(global_binding(key) is None && panel_binding(old(self).panel_mode, key.code) == Some(
                PanelAct::Sort,
            )) ==> final(self).view().groups == old(self).view().groups,
            final(self).inv(),
    {
        let ghost v0 = self.view();
        let g = global_binding_of(key);
        match g {
            Some(a) => {
                if let Some(x) = self.apply_global(a) {
                    return x;
                }
            },
            None => {},
        }
        let ghost v1 = self.view();
        proof {
            if g is Some {
                assert(v1.sort_mode == v0.sort_mode);
                assert(v1.panel_mode == global_apply(v0, g->0).0.panel_mode);
                assert(panel_binding(v1.panel_mode, key.code) != Some(PanelAct::Sort)) by {
                    if key.code is Char {
                        let c = key.code->Char_0;
                        assert(c != 's' && c != 'S');
                    }
                }
            }
        }
        match panel_binding_of(self.panel_mode, key.code) {
            Some(a) => match self.apply_panel(a) {
                Some(x) => x,
                None => ViewAction::Idle,
            },
            None => ViewAction::Idle,
        }
    }

    /// Whether `handle_key` can take this key without counting past the
    /// largest `usize` (see `key_overflows`).
    pub fn key_fits(&self, key: BrowserKey) -> (r: bool)
        requires
            self.inv(),
        ensures
            r == !key_overflows(self.view(), key),
    {
        if self.show_detail {
            return !(key.code == BrowserCode::Down && self.detail_scroll == usize::MAX);
        }
        if self.show_overview || self.confirm_delete.is_some() || self.confirm_complete.is_some() {
            return true;
        }
        if global_binding_of(key) != Some(GlobalAct::Down) {
            return true;
        }
        if self.search_typing {
            return true;
        }
        if self.search_active && key.mods == Modifiers::Plain {
            if let BrowserCode::Char(_) = key.code {
                return true;
            }
        }
        if self.focus == Focus::Sidebar {
            self.selected_left < usize::MAX
        } else {
            self.panels[self.panel_mode].cidx < usize::MAX
        }
    }
}

// ---------------------------------------------------------------------------
// Building, naming, reloading
// ---------------------------------------------------------------------------

/// Whether the lists are short enough for the browser (see `browser_inv`).
pub open spec fn lists_fit(store: &TodoStore, backlog: &BacklogStore, plans: Seq<NoteFile>, inbox: Seq<NoteFile>) -> bool {
    &&& store.groups@.len() + 10 <= usize::MAX
    &&& backlog.groups@.len() + 10 <= usize::MAX
    &&& plans.len() + 10 <= usize::MAX
    &&& inbox.len() + 10 <= usize::MAX
}

impl Browser {
    /// A browser over the given todos, backlog, plans and inbox notes, with
    /// the projects panel open, the sidebar focused and every selection at
    /// the top; `home` is the directory under which `.ted` lies.
    pub fn new(
        store: TodoStore,
        backlog_store: BacklogStore,
        plans: Vec<NoteFile>,
        inbox_files: Vec<NoteFile>,
        home: String,
    ) -> (r: Browser)
        requires
            lists_fit(&store, &backlog_store, plans@, inbox_files@),
        ensures
            r.inv(),
            r.store == store,
            r.backlog_store == backlog_store,
            r.plans@ == plans@,
            r.inbox_files@ == inbox_files@,
            r.home@ == home@,
            r.panels@ == seq![PanelState { sidx: 0, cidx: 0 }; 4],
            r.panel_mode == 0,
            r.focus == Focus::Sidebar,
            r.selected_left == 0,
            r.confirm_delete is None,
            r.confirm_complete is None,
            !r.show_detail,
            r.detail_scroll == 0,
            !r.show_overview,
            r.sort_mode == SortMode::Alpha,
            !r.show_empty_projects,
            r.search_query@.len() == 0,
            !r.search_active,
            !r.search_typing,
            !r.quit,
    {
        let mut panels: Vec<PanelState> = Vec::new();
        panels.push(PanelState::new());
        panels.push(PanelState::new());
        panels.push(PanelState::new());
        panels.push(PanelState::new());
        assert(panels@ =~= seq![PanelState { sidx: 0, cidx: 0 }; 4]);
        Browser {
            store,
            backlog_store,
            plans,
            inbox_files,
            panels,
            panel_mode: 0,
            focus: Focus::Sidebar,
            selected_left: 0,
            confirm_delete: None,
            confirm_complete: None,
            show_detail: false,
            detail_scroll: 0,
            show_overview: false,
            sort_mode: SortMode::Alpha,
            show_empty_projects: false,
            search_query: String::new(),
            search_active: false,
            search_typing: false,
            home,
            quit: false,
        }
    }
}

/// The name of the selected projects or backlog entry.
pub open spec fn current_name(v: BrowserView) -> Seq<char> {
    if v.panel_mode == 3 {
        let i = real_sidx(v, 3);
        if i == 0 {
            "Backlog"@
        } else if i <= v.backlog_groups.len() {
            v.backlog_groups[i - 1].project.name
        } else {
            "Unassigned"@
        }
    } else {
        let i = real_sidx(v, 0);
        let vis = visible(v.groups, v.show_empty_projects);
        if i == 0 {
            "All Todos"@
        } else if i <= vis.len() {
            v.groups[vis[i - 1]].project.name
        } else {
            "Unassigned"@
        }
    }
}

/// The label of entry `k` of panel `mode`: `name (count)` for projects and
/// backlog entries, the name for plans and inbox notes.
pub open spec fn sub_label(v: BrowserView, mode: int, k: int) -> Seq<char> {
    if mode == 0 {
        store_entries(v)[k].0 + " ("@ + crate::text::decimal(store_entries(v)[k].1 as nat) + ")"@
    } else if mode == 1 {
        v.plans[k].name
    } else if mode == 2 {
        v.inbox[k].name
    } else {
        backlog_entries(v)[k].0 + " ("@ + crate::text::decimal(backlog_entries(v)[k].1 as nat)
            + ")"@
    }
}

/// The positions of the entries the sidebar shows under panel `mode`.
pub open spec fn shown_entries(v: BrowserView, mode: int) -> Seq<int> {
    if searching_sidebar(v) && mode == v.panel_mode {
        matching(v, mode)
    } else {
        in_order(sidebar_len(v, mode))
    }
}

/// The labels of the entries the sidebar shows under panel `mode`.
pub open spec fn sub_labels(v: BrowserView, mode: int) -> Seq<Seq<char>> {
    shown_entries(v, mode).map_values(|k: int| sub_label(v, mode, k))
}

impl Browser {
    /// The name of the selected projects or backlog entry.
    pub fn current_name(&self) -> (r: &str)
        requires
            self.inv(),
        ensures
            r@ == current_name(self.view()),
    {
        if self.panel_mode == 3 {
            let i = self.real_sidx(3);
            proof {
                if i > 0 && i <= self.backlog_store.groups@.len() {
                    assert(self.view().backlog_groups[i - 1] == self.backlog_store.groups@[i - 1].view());
                }
            }
            self.backlog_store.name_for(i)
        } else {
            let i = self.real_sidx(0);
            proof {
                let v = self.view();
                let vis = visible(v.groups, v.show_empty_projects);
                lemma_visible_len(v.groups, v.show_empty_projects);
                if i > 0 && i <= vis.len() {
                    assert(v.groups[vis[i - 1]] == self.store.groups@[vis[i - 1]].view());
                }
            }
            self.store.name_for(i, self.show_empty_projects)
        }
    }

    /// The labels of the entries the sidebar shows under panel `mode`.
    pub fn mode_sub_labels(&self, mode: usize) -> (r: Vec<String>)
        requires
            self.inv(),
            mode < 4,
        ensures
            r@.map_values(|s: String| s@) == sub_labels(self.view(), mode as int),
    {
        let ghost v = self.view();
        let shown: Vec<usize> = if self.searching_sidebar() && mode == self.panel_mode {
            self.matching(mode)
        } else {
            let n = self.sidebar_len(mode);
            let mut all: Vec<usize> = Vec::new();
            let mut i: usize = 0;
            while i < n
                invariant
                    i <= n,
                    all@.len() == i,
                    forall|k: int| 0 <= k < i ==> #[trigger] all@[k] == k,
                decreases n - i,
            {
                all.push(i);
                i = i + 1;
            }
            assert(positions(all@) =~= in_order(n as nat));
            all
        };
        let entries = if mode == 0 {
            self.store_entries()
        } else if mode == 3 {
            self.backlog_entries()
        } else {
            Vec::new()
        };
        proof {
            lemma_matching_upto(v, mode as int, sidebar_len(v, mode as int));
            assert forall|k: int| 0 <= k < shown@.len() implies #[trigger] shown@[k] < sidebar_len(v, mode as int) by {
                assert(positions(shown@)[k] == shown@[k] as int);
                assert(shown_entries(v, mode as int)[k] == shown@[k] as int);
            }
            if mode == 0 || mode == 3 {
                assert(entry_views(entries@).len() == entries@.len());
            }
        }
        let mut r: Vec<String> = Vec::new();
        let mut j: usize = 0;
        while j < shown.len()
            invariant
                j <= shown@.len(),
                v == self.view(),
                positions(shown@) == shown_entries(v, mode as int),
                forall|k: int| 0 <= k < shown@.len() ==> #[trigger] shown@[k] < sidebar_len(v, mode as int),
                mode == 0 ==> entry_views(entries@) == store_entries(v),
                mode == 3 ==> entry_views(entries@) == backlog_entries(v),
                (mode == 0 || mode == 3) ==> entries@.len() == sidebar_len(v, mode as int),
                mode < 4,
                r@.map_values(|s: String| s@) == shown_entries(v, mode as int).take(j as int).map_values(
                    |k: int| sub_label(v, mode as int, k),
                ),
            decreases shown.len() - j,
        {
            let k = shown[j];
            assert(positions(shown@)[j as int] == k as int);
            let label = if mode == 0 || mode == 3 {
                let mut l = String::new();
                crate::text::push_str(&mut l, entries[k].0.as_str());
                crate::text::push_str(&mut l, " (");
                let d = crate::text::format_decimal(entries[k].1 as u64);
                crate::text::push_chars(&mut l, d.as_slice());
                crate::text::push_str(&mut l, ")");
                assert(entry_views(entries@)[k as int] == (entries@[k as int].0@, entries@[k as int].1 as int));
                l
            } else if mode == 1 {
                assert(v.plans[k as int] == self.plans@[k as int].view());
                self.plans[k].name.clone()
            } else {
                assert(v.inbox[k as int] == self.inbox_files@[k as int].view());
                self.inbox_files[k].name.clone()
            };
            let ghost before = r@;
            r.push(label);
            proof {
                let se = shown_entries(v, mode as int);
                assert(label@ == sub_label(v, mode as int, k as int));
                assert(se.take(j + 1) =~= se.take(j as int).push(se[j as int]));
                assert(r@.map_values(|s: String| s@) =~= before.map_values(|s: String| s@).push(label@));
            }
            j = j + 1;
        }
        assert(shown_entries(v, mode as int).take(j as int) =~= shown_entries(v, mode as int));
        r
    }
}

/// The names of the panels.
pub open spec fn panel_name(m: int) -> Seq<char> {
    if m == 0 {
        "Projects"@
    } else if m == 1 {
        "Plans"@
    } else if m == 2 {
        "Inbox"@
    } else {
        "Backlog"@
    }
}

/// The lines of panel `m`'s block, starting at sidebar line `idx`: its
/// header with an arrow (down for the open panel), then, for the open
/// panel, its entries indented; a line is marked when the sidebar is
/// focused and it is the selected one.
pub open spec fn panel_lines(v: BrowserView, m: int, idx: int) -> Seq<(Seq<char>, bool)> {
    let focused = v.focus == Focus::Sidebar;
    let open = m == v.panel_mode;
    let subs = if open {
        sub_labels(v, m)
    } else {
        Seq::empty()
    };
    seq![
        (
            (if open {
                "\u{25bc}"@
            } else {
                "\u{25b6}"@
            }) + " "@ + panel_name(m),
            idx == v.selected_left && focused,
        ),
    ] + indented_lines(subs, idx + 1, v.selected_left as int, focused)
}

/// `labels` indented, the first at line `first`.
pub open spec fn indented_lines(labels: Seq<Seq<char>>, first: int, sel: int, focused: bool) -> Seq<
    (Seq<char>, bool),
> {
    Seq::new(labels.len(), |j: int| ("    "@ + labels[j], first + j == sel && focused))
}

/// How many lines panel `m`'s block has.
pub open spec fn block_len(v: BrowserView, m: int) -> int {
    if m == v.panel_mode {
        1 + mode_items(v, m) as int
    } else {
        1
    }
}

/// The sidebar's lines from panel `m` on, starting at line `idx`.
pub open spec fn left_lines_from(v: BrowserView, m: int, idx: int) -> Seq<(Seq<char>, bool)>
    decreases 4 - m,
{
    if m >= 4 || m < 0 {
        Seq::empty()
    } else {
        panel_lines(v, m, idx) + left_lines_from(v, m + 1, idx + block_len(v, m))
    }
}

pub open spec fn line_views(v: Seq<(String, bool)>) -> Seq<(Seq<char>, bool)> {
    v.map_values(|e: (String, bool)| (e.0@, e.1))
}

fn indented(labels: &Vec<String>, first: usize, sel: usize, focused: bool) -> (r: Vec<(String, bool)>)
    requires
        first + labels@.len() <= usize::MAX,
    ensures
        line_views(r@) == indented_lines(
            labels@.map_values(|s: String| s@),
            first as int,
            sel as int,
            focused,
        ),
{
    let mut r: Vec<(String, bool)> = Vec::new();
    let mut j: usize = 0;
    while j < labels.len()
        invariant
            j <= labels@.len(),
            first + labels@.len() <= usize::MAX,
            r@.len() == j,
            forall|t: int|
                0 <= t < j ==> (#[trigger] r@[t]).0@ == "    "@ + labels@[t]@ && r@[t].1 == (first
                    + t == sel && focused),
        decreases labels.len() - j,
    {
        let mut line = String::new();
        crate::text::push_str(&mut line, "    ");
        crate::text::push_str(&mut line, labels[j].as_str());
        r.push((line, first + j == sel && focused));
        j = j + 1;
    }
    assert(line_views(r@) =~= indented_lines(
        labels@.map_values(|s: String| s@),
        first as int,
        sel as int,
        focused,
    ));
    r
}

impl Browser {
    fn panel_block(&self, m: usize, idx: usize) -> (r: Vec<(String, bool)>)
        requires
            self.inv(),
            m < 4,
            idx + block_len(self.view(), m as int) <= usize::MAX,
        ensures
            line_views(r@) == panel_lines(self.view(), m as int, idx as int),
            r@.len() == block_len(self.view(), m as int),
    {
        let ghost v = self.view();
        let focused = self.focus == Focus::Sidebar;
        let open = m == self.panel_mode;
        let mut head = String::new();
        crate::text::push_str(&mut head, if open { "\u{25bc}" } else { "\u{25b6}" });
        crate::text::push_str(&mut head, " ");
        crate::text::push_str(
            &mut head,
            if m == 0 {
                "Projects"
            } else if m == 1 {
                "Plans"
            } else if m == 2 {
                "Inbox"
            } else {
                "Backlog"
            },
        );
        let mut r: Vec<(String, bool)> = Vec::new();
        r.push((head, idx == self.selected_left && focused));
        let subs = if open {
            self.mode_sub_labels(m)
        } else {
            Vec::new()
        };
        proof {
            lemma_matching_upto(v, m as int, sidebar_len(v, m as int));
            if open {
                assert(subs@.len() == sub_labels(v, m as int).len());
            } else {
                assert(subs@.map_values(|s: String| s@) =~= Seq::<Seq<char>>::empty());
            }
        }
        let mut rest = indented(&subs, idx + 1, self.selected_left, focused);
        let ghost r0 = r@;
        let ghost rest0 = rest@;
        r.append(&mut rest);
        proof {
            assert(r@ == r0 + rest0);
            assert(line_views(r@) =~= line_views(r0) + line_views(rest0));
            assert(line_views(r@) =~= panel_lines(v, m as int, idx as int));
        }
        r
    }

    /// The sidebar's lines (see `left_lines_from`).
    pub fn left_items(&self) -> (r: Vec<(String, bool)>)
        requires
            self.inv(),
        ensures
            line_views(r@) == left_lines_from(self.view(), 0, 0),
    {
        let ghost v = self.view();
        let mut items: Vec<(String, bool)> = Vec::new();
        let mut idx: usize = 0;
        let mut m: usize = 0;
        proof {
            lemma_mode_items(v, v.panel_mode as int);
        }
        while m < 4
            invariant
                m <= 4,
                v == self.view(),
                browser_inv(v),
                idx == m + (if m > v.panel_mode {
                    mode_items(v, v.panel_mode as int)
                } else {
                    0
                }),
                mode_items(v, v.panel_mode as int) + 8 <= usize::MAX,
                line_views(items@) + left_lines_from(v, m as int, idx as int) == left_lines_from(
                    v,
                    0,
                    0,
                ),
            decreases 4 - m,
        {
            let mut block = self.panel_block(m, idx);
            let n = block.len();
            let ghost i0 = items@;
            let ghost b0 = block@;
            items.append(&mut block);
            proof {
                assert(line_views(items@) =~= line_views(i0) + line_views(b0));
                assert(left_lines_from(v, m as int, idx as int) == panel_lines(v, m as int, idx as int)
                    + left_lines_from(v, m + 1, idx + block_len(v, m as int)));
                assert(line_views(items@) + left_lines_from(v, m + 1, idx + n) =~= line_views(i0)
                    + left_lines_from(v, m as int, idx as int));
            }
            idx = idx + n;
            m = m + 1;
        }
        assert(left_lines_from(v, 4, idx as int) =~= Seq::<(Seq<char>, bool)>::empty());
        assert(line_views(items@) + Seq::<(Seq<char>, bool)>::empty() =~= line_views(items@));
        items
    }
}

// ---------------------------------------------------------------------------
// Reloading
// ---------------------------------------------------------------------------

/// The name of projects entry `idx`.
pub open spec fn store_name_for(v: BrowserView, idx: int) -> Seq<char> {
    let vis = visible(v.groups, v.show_empty_projects);
    if idx == 0 {
        "All Todos"@
    } else if idx <= vis.len() {
        v.groups[vis[idx - 1]].project.name
    } else {
        "Unassigned"@
    }
}

/// The position of the first entry named `name`.
pub open spec fn entry_named(es: Seq<(Seq<char>, int)>, name: Seq<char>) -> Option<int>
    decreases es.len(),
{
    if es.len() == 0 {
        None
    } else if es[0].0 == name {
        Some(0)
    } else {
        match entry_named(es.drop_first(), name) {
            Some(i) => Some(i + 1),
            None => None,
        }
    }
}

/// The position of the first todo named `name`.
pub open spec fn todo_named(ts: Seq<TodoFileView>, name: Seq<char>) -> Option<int>
    decreases ts.len(),
{
    if ts.len() == 0 {
        None
    } else if ts[0].todo.name == name {
        Some(0)
    } else {
        match todo_named(ts.drop_first(), name) {
            Some(i) => Some(i + 1),
            None => None,
        }
    }
}

/// The browser with new lists: the todos (when they could be read; the old
/// ones otherwise), the backlog, the plans and the inbox notes.
pub open spec fn with_lists(
    v: BrowserView,
    store: Option<(Seq<GroupView>, Seq<TodoFileView>, Seq<TodoFileView>)>,
    backlog: (Seq<GroupView>, Seq<TodoFileView>, Seq<TodoFileView>),
    plans: Seq<NoteView>,
    inbox: Seq<NoteView>,
) -> BrowserView {
    let v1 = match store {
        Some((g, u, a)) => BrowserView { groups: g, unassigned: u, all_todos: a, ..v },
        None => v,
    };
    BrowserView {
        backlog_groups: backlog.0,
        backlog_unassigned: backlog.1,
        backlog_all: backlog.2,
        plans,
        inbox,
        ..v1
    }
}

/// Reloading: the views close; the lists are replaced and the projects
/// sorted again (`sorted` is their new order); the projects selection goes
/// back to the entry of the same name (or the top), and the content
/// selection to the todo of the same name, or stays where it was, within
/// the list.
pub open spec fn reloaded(
    v: BrowserView,
    store: Option<(Seq<GroupView>, Seq<TodoFileView>, Seq<TodoFileView>)>,
    backlog: (Seq<GroupView>, Seq<TodoFileView>, Seq<TodoFileView>),
    plans: Seq<NoteView>,
    inbox: Seq<NoteView>,
    sorted: Seq<GroupView>,
) -> BrowserView {
    let v0 = BrowserView { show_detail: false, show_overview: false, ..v };
    let prev_project = store_name_for(v0, v0.panels[0].sidx as int);
    let pm = v0.panel_mode as int;
    let cidx = v0.panels[pm].cidx;
    let prev_todo = current_todo(v0);
    let v2 = resort(with_lists(v0, store, backlog, plans, inbox), sorted);
    let v3 = set_sidx(
        v2,
        0,
        match entry_named(store_entries(v2), prev_project) {
            Some(i) => i as usize,
            None => 0,
        },
    );
    let todos = current_todos(v3);
    let fallback = if cidx < sat_dec(todos.len() as usize) {
        cidx
    } else {
        sat_dec(todos.len() as usize)
    };
    set_cidx(
        v3,
        pm,
        match prev_todo {
            Some(t) => match todo_named(todos, t.todo.name) {
                Some(i) => i as usize,
                None => fallback,
            },
            None => fallback,
        },
    )
}

pub open spec fn store_lists(s: &TodoStore) -> (Seq<GroupView>, Seq<TodoFileView>, Seq<TodoFileView>) {
    (group_views(s.groups@), todo_views(s.unassigned@), todo_views(s.all_todos@))
}

pub open spec fn backlog_lists(s: &BacklogStore) -> (Seq<GroupView>, Seq<TodoFileView>, Seq<TodoFileView>) {
    (group_views(s.groups@), todo_views(s.unassigned@), todo_views(s.all@))
}

impl Browser {
    /// Reloads the browser with lists read anew (`store` is `None` when the
    /// todos could not be read): see `reloaded`.
    #[verifier::spinoff_prover]
    #[verifier::rlimit(80)]
    pub fn reload(
        &mut self,
        store: Option<TodoStore>,
        backlog_store: BacklogStore,
        plans: Vec<NoteFile>,
        inbox_files: Vec<NoteFile>,
    )
        requires
            old(self).inv(),
            match store {
                Some(s) => lists_fit(&s, &backlog_store, plans@, inbox_files@),
                None => lists_fit(&old(self).store, &backlog_store, plans@, inbox_files@),
            },
        ensures
            final(self).inv(),
            ({
                let st = match store {
                    Some(s) => Some(store_lists(&s)),
                    None => None,
                };
                let v1 = with_lists(
                    BrowserView { show_detail: false, show_overview: false, ..old(self).view() },
                    st,
                    backlog_lists(&backlog_store),
                    note_views(plans@),
                    note_views(inbox_files@),
                );
                &&& groups_sorted(final(self).view().groups, v1.groups, old(self).sort_mode)
                &&& final(self).view() == reloaded(
                    old(self).view(),
                    st,
                    backlog_lists(&backlog_store),
                    note_views(plans@),
                    note_views(inbox_files@),
                    final(self).view().groups,
                )
            }),
    {
        self.show_detail = false;
        self.show_overview = false;
        let ghost v0 = self.view();
        let prev_project = string_of(self.store.name_for(self.panels[0].sidx, self.show_empty_projects));
        proof {
            lemma_visible_len(v0.groups, v0.show_empty_projects);
            let vis = visible(v0.groups, v0.show_empty_projects);
            let i = v0.panels[0].sidx as int;
            if i > 0 && i <= vis.len() {
                assert(v0.groups[vis[i - 1]] == self.store.groups@[vis[i - 1]].view());
            }
        }
        let pm = self.panel_mode;
        let cidx = self.panels[pm].cidx;
        let prev_todo = match self.current_todo() {
            Some(t) => Some(t.parsed.name.clone()),
            None => None,
        };
        match store {
            Some(s) => {
                self.store = s;
            },
            None => {},
        }
        self.backlog_store = backlog_store;
        self.plans = plans;
        self.inbox_files = inbox_files;
        self.resort();
        let ghost v2 = self.view();
        let entries = self.store_entries();
        let sidx = match find_entry(&entries, prev_project.as_str()) {
            Some(k) => k,
            None => 0,
        };
        self.panels.set(0, PanelState { sidx, ..self.panels[0] });
        let ghost v3 = self.view();
        let todos = self.current_todos();
        let n = todos.len();
        assert(todo_views(todos@).len() == n);
        let fallback = if n > 0 && cidx < n - 1 {
            cidx
        } else if n > 0 {
            n - 1
        } else {
            0
        };
        let new_c = match &prev_todo {
            Some(name) => match find_todo(todos, name.as_str()) {
                Some(k) => k,
                None => fallback,
            },
            None => fallback,
        };
        self.panels.set(pm, PanelState { cidx: new_c, ..self.panels[pm] });
    }
}

fn find_entry(entries: &Vec<(String, usize)>, name: &str) -> (r: Option<usize>)
    ensures
        crate::tedlist::opt_int(r) == entry_named(entry_views(entries@), name@),
{
    let ghost es = entry_views(entries@);
    let mut i: usize = 0;
    assert(es.skip(0) =~= es);
    while i < entries.len()
        invariant
            i <= entries@.len(),
            es == entry_views(entries@),
            entry_named(es, name@) == match entry_named(es.skip(i as int), name@) {
                Some(k) => Some(k + i),
                None => None,
            },
        decreases entries.len() - i,
    {
        assert(es.skip(i as int)[0] == (entries@[i as int].0@, entries@[i as int].1 as int));
        if crate::text::str_eq(entries[i].0.as_str(), name) {
            return Some(i);
        }
        assert(es.skip(i as int).drop_first() =~= es.skip(i + 1));
        i = i + 1;
    }
    assert(es.skip(i as int) =~= Seq::<(Seq<char>, int)>::empty());
    None
}

fn find_todo(todos: &Vec<TodoFile>, name: &str) -> (r: Option<usize>)
    ensures
        crate::tedlist::opt_int(r) == todo_named(todo_views(todos@), name@),
{
    let ghost tv = todo_views(todos@);
    let mut k: usize = 0;
    assert(tv.skip(0) =~= tv);
    while k < todos.len()
        invariant
            k <= todos@.len(),
            tv == todo_views(todos@),
            todo_named(tv, name@) == match todo_named(tv.skip(k as int), name@) {
                Some(j) => Some(j + k),
                None => None,
            },
        decreases todos.len() - k,
    {
        assert(tv.skip(k as int)[0] == todos@[k as int].view());
        if crate::text::str_eq(todos[k].parsed.name.as_str(), name) {
            return Some(k);
        }
        assert(tv.skip(k as int).drop_first() =~= tv.skip(k + 1));
        k = k + 1;
    }
    assert(tv.skip(k as int) =~= Seq::<TodoFileView>::empty());
    None
}

} // verus!
