//! The todo form: its fields, the task list, the project selector, the
//! history viewer, and what each key does to them.
use vstd::prelude::*;
use crate::clock::{lemma_sample_stamp, local_timestamp, stamp_shaped};
use crate::filestorage::{opt_view, todo_filename, todo_id, FileStorage, Project, captured_u32, capture_u32};
use crate::markdown::TodoData;
use crate::parser::{append_line, ParsedTodo};
use crate::paths::{file_name, join, join_path, path_file_name};
use crate::text::{pop_char, push_char, push_chars, push_str, str_eq, string_from, to_chars, trim, trim_ws};
use crate::utils::{cap_usize, count_display_lines_with_wrapping, display_line_count};

verus! {

// ---------------------------------------------------------------------------
// Data
// ---------------------------------------------------------------------------

/// A todo described in JSON: every field optional.
pub struct JsonInput {
    pub name: Option<String>,
    pub project_id: Option<String>,
    pub info: Option<String>,
    pub goal: Option<String>,
    pub tasks: Option<Vec<String>>,
    pub note: Option<String>,
}

/// The fields of the form, in the order Tab visits them.
#[derive(Clone, Copy, Debug, PartialEq, Eq, Structural)]
pub enum InputField {
    Name,
    ProjectId,
    Info,
    Goal,
    Tasks,
    TaskList,
    Note,
}

/// A task of the todo being edited.
#[derive(Clone, Debug)]
pub struct Task {
    pub text: String,
    pub completed: bool,
}

/// What the form shows: the focused field, selections, overlays, scroll
/// positions, and the status line.
pub struct AppState {
    pub current_field: InputField,
    pub selected_task_index: Option<usize>,
    pub selected_project_index: Option<usize>,
    pub show_project_selector: bool,
    pub show_complete_confirmation: bool,
    pub show_history_viewer: bool,
    pub history_scroll_offset: usize,
    pub goal_scroll_offset: usize,
    pub note_scroll_offset: usize,
    pub quit: bool,
    pub status_message: Option<String>,
}

/// The todo being edited, and what is known of the file it came from.
pub struct TodoContent {
    pub name: String,
    pub project_id: String,
    pub info: String,
    pub goal: String,
    pub tasks: Vec<Task>,
    pub current_task_input: String,
    pub note: String,
    pub history: String,
    pub saved_filepath: Option<String>,
    pub original_id: Option<String>,
    pub original_created: Option<String>,
    pub original_project_id: Option<String>,
    pub completed_timestamp: Option<String>,
}

/// Where todos are written, and the known projects.
pub struct AppConfig {
    pub output_dir: String,
    pub projects: Vec<Project>,
}

/// The form.
pub struct App {
    pub state: AppState,
    pub content: TodoContent,
    pub config: AppConfig,
}

/// A key press, as the form reads it.
#[derive(Clone, Copy, Debug, PartialEq, Eq, Structural)]
pub enum KeyCode {
    Char(char),
    Enter,
    Tab,
    BackTab,
    Backspace,
    Delete,
    Esc,
    Up,
    Down,
    Other,
}

/// A key press and whether Control was held.
#[derive(Clone, Copy, Debug, PartialEq, Eq, Structural)]
pub struct Key {
    pub code: KeyCode,
    pub ctrl: bool,
}

/// Work that a key asks of the file system.
#[derive(Clone, Copy, Debug, PartialEq, Eq, Structural)]
pub enum Effect {
    Continue,
    Save,
    MoveToDone,
}

// ---------------------------------------------------------------------------
// Views
// ---------------------------------------------------------------------------

#[verifier::ext_equal]
pub struct TaskView {
    pub text: Seq<char>,
    pub completed: bool,
}

#[verifier::ext_equal]
pub struct StateView {
    pub current_field: InputField,
    pub selected_task_index: Option<usize>,
    pub selected_project_index: Option<usize>,
    pub show_project_selector: bool,
    pub show_complete_confirmation: bool,
    pub show_history_viewer: bool,
    pub history_scroll_offset: usize,
    pub goal_scroll_offset: usize,
    pub note_scroll_offset: usize,
    pub quit: bool,
    pub status_message: Option<Seq<char>>,
}

#[verifier::ext_equal]
pub struct ContentView {
    pub name: Seq<char>,
    pub project_id: Seq<char>,
    pub info: Seq<char>,
    pub goal: Seq<char>,
    pub tasks: Seq<TaskView>,
    pub current_task_input: Seq<char>,
    pub note: Seq<char>,
    pub history: Seq<char>,
    pub saved_filepath: Option<Seq<char>>,
    pub original_id: Option<Seq<char>>,
    pub original_created: Option<Seq<char>>,
    pub original_project_id: Option<Seq<char>>,
    pub completed_timestamp: Option<Seq<char>>,
}

/// The form as values: what the state and the content are, and the
/// projects and output directory it was given.
#[verifier::ext_equal]
pub struct AppView {
    pub state: StateView,
    pub content: ContentView,
    pub output_dir: Seq<char>,
    pub projects: Seq<Project>,
}

impl Task {
    pub open spec fn view(&self) -> TaskView {
        TaskView { text: self.text@, completed: self.completed }
    }
}

pub open spec fn task_views(ts: Seq<Task>) -> Seq<TaskView> {
    ts.map_values(|t: Task| t.view())
}

impl AppState {
    pub open spec fn view(&self) -> StateView {
        StateView {
            current_field: self.current_field,
            selected_task_index: self.selected_task_index,
            selected_project_index: self.selected_project_index,
            show_project_selector: self.show_project_selector,
            show_complete_confirmation: self.show_complete_confirmation,
            show_history_viewer: self.show_history_viewer,
            history_scroll_offset: self.history_scroll_offset,
            goal_scroll_offset: self.goal_scroll_offset,
            note_scroll_offset: self.note_scroll_offset,
            quit: self.quit,
            status_message: opt_view(self.status_message),
        }
    }
}

impl TodoContent {
    pub open spec fn view(&self) -> ContentView {
        ContentView {
            name: self.name@,
            project_id: self.project_id@,
            info: self.info@,
            goal: self.goal@,
            tasks: task_views(self.tasks@),
            current_task_input: self.current_task_input@,
            note: self.note@,
            history: self.history@,
            saved_filepath: opt_view(self.saved_filepath),
            original_id: opt_view(self.original_id),
            original_created: opt_view(self.original_created),
            original_project_id: opt_view(self.original_project_id),
            completed_timestamp: opt_view(self.completed_timestamp),
        }
    }
}

impl App {
    pub open spec fn view(&self) -> AppView {
        AppView {
            state: self.state.view(),
            content: self.content.view(),
            output_dir: self.config.output_dir@,
            projects: self.config.projects@,
        }
    }
}

// ---------------------------------------------------------------------------
// What each operation does, as values
// ---------------------------------------------------------------------------

pub open spec fn initial_state() -> StateView {
    StateView {
        current_field: InputField::Name,
        selected_task_index: None,
        selected_project_index: None,
        show_project_selector: false,
        show_complete_confirmation: false,
        show_history_viewer: false,
        history_scroll_offset: 0,
        goal_scroll_offset: 0,
        note_scroll_offset: 0,
        quit: false,
        status_message: None,
    }
}

pub open spec fn empty_content() -> ContentView {
    ContentView {
        name: Seq::empty(),
        project_id: Seq::empty(),
        info: Seq::empty(),
        goal: Seq::empty(),
        tasks: Seq::empty(),
        current_task_input: Seq::empty(),
        note: Seq::empty(),
        history: Seq::empty(),
        saved_filepath: None,
        original_id: None,
        original_created: None,
        original_project_id: None,
        completed_timestamp: None,
    }
}

/// Tab order.
pub open spec fn field_after(f: InputField) -> InputField {
    match f {
        InputField::Name => InputField::ProjectId,
        InputField::ProjectId => InputField::Info,
        InputField::Info => InputField::Goal,
        InputField::Goal => InputField::Tasks,
        InputField::Tasks => InputField::TaskList,
        InputField::TaskList => InputField::Note,
        InputField::Note => InputField::Name,
    }
}

/// Shift+Tab order.
pub open spec fn field_before(f: InputField) -> InputField {
    match f {
        InputField::Name => InputField::Note,
        InputField::ProjectId => InputField::Name,
        InputField::Info => InputField::ProjectId,
        InputField::Goal => InputField::Info,
        InputField::Tasks => InputField::Goal,
        InputField::TaskList => InputField::Tasks,
        InputField::Note => InputField::TaskList,
    }
}

/// Estimated text width used for scrolling the goal and the note.
pub open spec fn scroll_width() -> nat {
    100
}

/// The scroll offset that keeps the last of `count` lines visible in a box
/// of `visible` lines.
pub open spec fn scrolled_to_end(count: usize, offset: usize, visible: usize) -> usize {
    if count > offset + visible {
        (count - visible) as usize
    } else {
        offset
    }
}

/// Scrolls the goal or the note, whichever has focus, so that its end is
/// visible (three goal lines, six note lines are shown).
pub open spec fn auto_scroll(a: AppView) -> AppView {
    match a.state.current_field {
        InputField::Goal => AppView {
            state: StateView {
                goal_scroll_offset: scrolled_to_end(
                    cap_usize(display_line_count(a.content.goal, scroll_width())),
                    a.state.goal_scroll_offset,
                    3,
                ),
                ..a.state
            },
            ..a
        },
        InputField::Note => AppView {
            state: StateView {
                note_scroll_offset: scrolled_to_end(
                    cap_usize(display_line_count(a.content.note, scroll_width())),
                    a.state.note_scroll_offset,
                    6,
                ),
                ..a.state
            },
            ..a
        },
        _ => a,
    }
}

/// Tab: the next field. Leaving the task input or the task list clears the
/// task selection; entering the task list selects its first task.
pub open spec fn next_field(a: AppView) -> AppView {
    let f = a.state.current_field;
    let nf = field_after(f);
    let sel = if nf == InputField::TaskList && a.content.tasks.len() > 0 {
        Some(0usize)
    } else if f == InputField::Tasks || f == InputField::TaskList {
        None
    } else {
        a.state.selected_task_index
    };
    auto_scroll(
        AppView { state: StateView { current_field: nf, selected_task_index: sel, ..a.state }, ..a },
    )
}

/// Shift+Tab: the previous field, with the same rules for the task
/// selection.
pub open spec fn previous_field(a: AppView) -> AppView {
    let f = a.state.current_field;
    let nf = field_before(f);
    let sel = if nf == InputField::TaskList && a.content.tasks.len() > 0 {
        Some(0usize)
    } else if f == InputField::TaskList || f == InputField::Note {
        None
    } else {
        a.state.selected_task_index
    };
    auto_scroll(
        AppView { state: StateView { current_field: nf, selected_task_index: sel, ..a.state }, ..a },
    )
}

/// Clears the todo and the selections and focuses the name.
pub open spec fn clear_form(a: AppView) -> AppView {
    AppView {
        state: StateView {
            selected_task_index: None,
            selected_project_index: None,
            current_field: InputField::Name,
            ..a.state
        },
        content: empty_content(),
        ..a
    }
}

/// Opens or closes the project selector; opening it with no selection
/// selects the first project.
pub open spec fn toggle_project_selector(a: AppView) -> AppView {
    let show = !a.state.show_project_selector;
    let sel = if show && a.state.selected_project_index is None && a.projects.len() > 0 {
        Some(0usize)
    } else {
        a.state.selected_project_index
    };
    AppView {
        state: StateView { show_project_selector: show, selected_project_index: sel, ..a.state },
        ..a
    }
}

/// Opens or closes the history viewer; closing it resets its scroll.
pub open spec fn toggle_history_viewer(a: AppView) -> AppView {
    let show = !a.state.show_history_viewer;
    AppView {
        state: StateView {
            show_history_viewer: show,
            history_scroll_offset: if show {
                a.state.history_scroll_offset
            } else {
                0
            },
            ..a.state
        },
        ..a
    }
}

/// Takes the selected project's id and closes the selector.
pub open spec fn select_project(a: AppView) -> AppView {
    let content = match a.state.selected_project_index {
        Some(i) => if i < a.projects.len() {
            ContentView { project_id: a.projects[i as int].id@, ..a.content }
        } else {
            a.content
        },
        None => a.content,
    };
    AppView { state: StateView { show_project_selector: false, ..a.state }, content, ..a }
}

/// One step up in a list of `len` items, wrapping from the top to the
/// bottom; no selection selects the first item.
pub open spec fn select_up(sel: Option<usize>, len: nat) -> Option<usize> {
    if len == 0 {
        sel
    } else {
        match sel {
            Some(i) => if i > 0 {
                Some((i - 1) as usize)
            } else {
                Some((len - 1) as usize)
            },
            None => Some(0usize),
        }
    }
}

/// One step down in a list of `len` items, wrapping from the bottom to the
/// top; no selection selects the first item.
pub open spec fn select_down(sel: Option<usize>, len: nat) -> Option<usize> {
    if len == 0 {
        sel
    } else {
        match sel {
            Some(i) => if i < len - 1 {
                Some((i + 1) as usize)
            } else {
                Some(0usize)
            },
            None => Some(0usize),
        }
    }
}

pub open spec fn move_project_selection_up(a: AppView) -> AppView {
    AppView {
        state: StateView {
            selected_project_index: select_up(a.state.selected_project_index, a.projects.len()),
            ..a.state
        },
        ..a
    }
}

pub open spec fn move_project_selection_down(a: AppView) -> AppView {
    AppView {
        state: StateView {
            selected_project_index: select_down(a.state.selected_project_index, a.projects.len()),
            ..a.state
        },
        ..a
    }
}

pub open spec fn move_task_selection_up(a: AppView) -> AppView {
    AppView {
        state: StateView {
            selected_task_index: select_up(a.state.selected_task_index, a.content.tasks.len()),
            ..a.state
        },
        ..a
    }
}

pub open spec fn move_task_selection_down(a: AppView) -> AppView {
    AppView {
        state: StateView {
            selected_task_index: select_down(a.state.selected_task_index, a.content.tasks.len()),
            ..a.state
        },
        ..a
    }
}

/// Whether some task is not completed.
pub open spec fn has_incomplete_tasks(c: ContentView) -> bool {
    exists|i: int| 0 <= i < c.tasks.len() && !(#[trigger] c.tasks[i]).completed
}

/// Every task completed, texts unchanged.
pub open spec fn mark_all_tasks_complete(a: AppView) -> AppView {
    AppView {
        content: ContentView {
            tasks: a.content.tasks.map_values(|t: TaskView| TaskView { completed: true, ..t }),
            ..a.content
        },
        ..a
    }
}

/// Enter in the task input: a task with the typed text is added and the
/// input cleared, unless the input is blank.
pub open spec fn add_task(a: AppView) -> AppView {
    if trim(a.content.current_task_input).len() > 0 {
        AppView {
            content: ContentView {
                tasks: a.content.tasks.push(
                    TaskView { text: a.content.current_task_input, completed: false },
                ),
                current_task_input: Seq::empty(),
                ..a.content
            },
            ..a
        }
    } else {
        a
    }
}

/// Delete in the task list: the selected task goes; the selection stays at
/// the same place, moves to the new last task, or goes when none is left.
pub open spec fn delete_selected_task(a: AppView) -> AppView {
    match a.state.selected_task_index {
        Some(i) => if i < a.content.tasks.len() {
            let tasks = a.content.tasks.remove(i as int);
            let sel = if tasks.len() == 0 {
                None
            } else if i >= tasks.len() {
                Some((tasks.len() - 1) as usize)
            } else {
                Some(i)
            };
            AppView {
                state: StateView { selected_task_index: sel, ..a.state },
                content: ContentView { tasks, ..a.content },
                ..a
            }
        } else {
            a
        },
        None => a,
    }
}

/// The history line that completing a task at `now` adds.
pub open spec fn completed_task_entry(now: Seq<char>, text: Seq<char>) -> Seq<char> {
    now + ", Completed task: "@ + text
}

/// Space in the task list: the selected task flips; completing it adds a
/// history line stamped `now`.
pub open spec fn toggle_task_completion(a: AppView, now: Seq<char>) -> AppView {
    match a.state.selected_task_index {
        Some(i) => if i < a.content.tasks.len() {
            let t = a.content.tasks[i as int];
            let tasks = a.content.tasks.update(i as int, TaskView { completed: !t.completed, ..t });
            let history = if !t.completed {
                append_line(a.content.history, completed_task_entry(now, t.text))
            } else {
                a.content.history
            };
            AppView { content: ContentView { tasks, history, ..a.content }, ..a }
        } else {
            a
        },
        None => a,
    }
}

/// Whether toggling at this state completes a task (and so reads the clock).
pub open spec fn toggle_completes_task(a: AppView) -> bool {
    match a.state.selected_task_index {
        Some(i) => i < a.content.tasks.len() && !a.content.tasks[i as int].completed,
        None => false,
    }
}

// ---------------------------------------------------------------------------
// Construction
// ---------------------------------------------------------------------------

impl AppState {
    /// Focus on the name, nothing selected or open.
    pub fn new() -> (r: AppState)
        ensures
            r.view() == initial_state(),
    {
        AppState {
            current_field: InputField::Name,
            selected_task_index: None,
            selected_project_index: None,
            show_project_selector: false,
            show_complete_confirmation: false,
            show_history_viewer: false,
            history_scroll_offset: 0,
            goal_scroll_offset: 0,
            note_scroll_offset: 0,
            quit: false,
            status_message: None,
        }
    }
}

impl TodoContent {
    /// An empty todo.
    pub fn new() -> (r: TodoContent)
        ensures
            r.view() == empty_content(),
    {
        let r = TodoContent {
            name: String::new(),
            project_id: String::new(),
            info: String::new(),
            goal: String::new(),
            tasks: Vec::new(),
            current_task_input: String::new(),
            note: String::new(),
            history: String::new(),
            saved_filepath: None,
            original_id: None,
            original_created: None,
            original_project_id: None,
            completed_timestamp: None,
        };
        assert(r.view() =~= empty_content());
        r
    }

    /// Empties every field and forgets the file.
    pub fn clear(&mut self)
        ensures
            final(self).view() == empty_content(),
    {
        self.name = String::new();
        self.project_id = String::new();
        self.info = String::new();
        self.goal = String::new();
        self.tasks = Vec::new();
        self.current_task_input = String::new();
        self.note = String::new();
        self.history = String::new();
        self.original_id = None;
        self.original_created = None;
        self.original_project_id = None;
        self.saved_filepath = None;
        self.completed_timestamp = None;
        assert(self.view() =~= empty_content());
    }
}

impl AppConfig {
    /// A configuration writing to `output_dir`, knowing `projects`.
    pub fn new(output_dir: String, projects: Vec<Project>) -> (r: AppConfig)
        ensures
            r.output_dir == output_dir,
            r.projects == projects,
    {
        AppConfig { output_dir, projects }
    }

    /// An empty form with this configuration.
    pub fn into_app(self) -> (r: App)
        ensures
            r.state.view() == initial_state(),
            r.content.view() == empty_content(),
            r.config == self,
    {
        App { state: AppState::new(), content: TodoContent::new(), config: self }
    }
}

// ---------------------------------------------------------------------------
// Operations
// ---------------------------------------------------------------------------

impl App {
    /// Scrolls the focused goal or note so that its end is visible.
    pub fn auto_adjust_scroll(&mut self)
        ensures
            final(self).view() == auto_scroll(old(self).view()),
    {
        match self.state.current_field {
            InputField::Goal => {
                let count = count_display_lines_with_wrapping(self.content.goal.as_str(), 100);
                let off = self.state.goal_scroll_offset;
                if count > off && count - off > 3 {
                    self.state.goal_scroll_offset = count.saturating_sub(3);
                }
            },
            InputField::Note => {
                let count = count_display_lines_with_wrapping(self.content.note.as_str(), 100);
                let off = self.state.note_scroll_offset;
                if count > off && count - off > 6 {
                    self.state.note_scroll_offset = count.saturating_sub(6);
                }
            },
            _ => {},
        }
        assert(self.view() =~= auto_scroll(old(self).view()));
    }

    /// Tab.
    pub fn next_field(&mut self)
        ensures
            final(self).view() == next_field(old(self).view()),
    {
        let f = self.state.current_field;
        let nf = match f {
            InputField::Name => InputField::ProjectId,
            InputField::ProjectId => InputField::Info,
            InputField::Info => InputField::Goal,
            InputField::Goal => InputField::Tasks,
            InputField::Tasks => {
                self.state.selected_task_index = None;
                InputField::TaskList
            },
            InputField::TaskList => {
                self.state.selected_task_index = None;
                InputField::Note
            },
            InputField::Note => InputField::Name,
        };
        self.state.current_field = nf;
        if nf == InputField::TaskList && !self.content.tasks.is_empty() {
            self.state.selected_task_index = Some(0);
        }
        if nf == InputField::Goal || nf == InputField::Note {
            self.auto_adjust_scroll();
        }
        assert(self.view() =~= next_field(old(self).view()));
    }

    /// Shift+Tab.
    pub fn previous_field(&mut self)
        ensures
            final(self).view() == previous_field(old(self).view()),
    {
        let f = self.state.current_field;
        let nf = match f {
            InputField::Name => InputField::Note,
            InputField::ProjectId => InputField::Name,
            InputField::Info => InputField::ProjectId,
            InputField::Goal => InputField::Info,
            InputField::Tasks => InputField::Goal,
            InputField::TaskList => {
                self.state.selected_task_index = None;
                InputField::Tasks
            },
            InputField::Note => {
                self.state.selected_task_index = None;
                InputField::TaskList
            },
        };
        self.state.current_field = nf;
        if nf == InputField::TaskList && !self.content.tasks.is_empty() {
            self.state.selected_task_index = Some(0);
        }
        if nf == InputField::Goal || nf == InputField::Note {
            self.auto_adjust_scroll();
        }
        assert(self.view() =~= previous_field(old(self).view()));
    }

    /// Clears the form for a new todo.
    pub fn clear_form(&mut self)
        ensures
            final(self).view() == clear_form(old(self).view()),
    {
        self.content.clear();
        self.state.selected_task_index = None;
        self.state.selected_project_index = None;
        self.state.current_field = InputField::Name;
        assert(self.view() =~= clear_form(old(self).view()));
    }

    /// Ctrl+P.
    pub fn toggle_project_selector(&mut self)
        ensures
            final(self).view() == toggle_project_selector(old(self).view()),
    {
        self.state.show_project_selector = !self.state.show_project_selector;
        if self.state.show_project_selector && self.state.selected_project_index.is_none()
            && !self.config.projects.is_empty() {
            self.state.selected_project_index = Some(0);
        }
        assert(self.view() =~= toggle_project_selector(old(self).view()));
    }

    /// Ctrl+H.
    pub fn toggle_history_viewer(&mut self)
        ensures
            final(self).view() == toggle_history_viewer(old(self).view()),
    {
        self.state.show_history_viewer = !self.state.show_history_viewer;
        if !self.state.show_history_viewer {
            self.state.history_scroll_offset = 0;
        }
        assert(self.view() =~= toggle_history_viewer(old(self).view()));
    }

    /// Enter in the project selector.
    pub fn select_project(&mut self)
        ensures
            final(self).view() == select_project(old(self).view()),
    {
        if let Some(idx) = self.state.selected_project_index {
            if idx < self.config.projects.len() {
                self.content.project_id = self.config.projects[idx].id.clone();
            }
        }
        self.state.show_project_selector = false;
        assert(self.view() =~= select_project(old(self).view()));
    }

    /// Up in the project selector.
    pub fn move_project_selection_up(&mut self)
        ensures
            final(self).view() == move_project_selection_up(old(self).view()),
    {
        let len = self.config.projects.len();
        if len > 0 {
            self.state.selected_project_index = Some(
                match self.state.selected_project_index {
                    Some(i) => if i > 0 {
                        i - 1
                    } else {
                        len - 1
                    },
                    None => 0,
                },
            );
        }
        assert(self.view() =~= move_project_selection_up(old(self).view()));
    }

    /// Down in the project selector.
    pub fn move_project_selection_down(&mut self)
        ensures
            final(self).view() == move_project_selection_down(old(self).view()),
    {
        let len = self.config.projects.len();
        if len > 0 {
            self.state.selected_project_index = Some(
                match self.state.selected_project_index {
                    Some(i) => if i < len - 1 {
                        i + 1
                    } else {
                        0
                    },
                    None => 0,
                },
            );
        }
        assert(self.view() =~= move_project_selection_down(old(self).view()));
    }

    /// Up in the task list.
    pub fn move_task_selection_up(&mut self)
        ensures
            final(self).view() == move_task_selection_up(old(self).view()),
    {
        let len = self.content.tasks.len();
        if len > 0 {
            self.state.selected_task_index = Some(
                match self.state.selected_task_index {
                    Some(i) => if i > 0 {
                        i - 1
                    } else {
                        len - 1
                    },
                    None => 0,
                },
            );
        }
        assert(self.view() =~= move_task_selection_up(old(self).view()));
    }

    /// Down in the task list.
    pub fn move_task_selection_down(&mut self)
        ensures
            final(self).view() == move_task_selection_down(old(self).view()),
    {
        let len = self.content.tasks.len();
        if len > 0 {
            self.state.selected_task_index = Some(
                match self.state.selected_task_index {
                    Some(i) => if i < len - 1 {
                        i + 1
                    } else {
                        0
                    },
                    None => 0,
                },
            );
        }
        assert(self.view() =~= move_task_selection_down(old(self).view()));
    }

    /// Whether some task is still open.
    pub fn has_incomplete_tasks(&self) -> (r: bool)
        ensures
            r == has_incomplete_tasks(self.content.view()),
    {
        let mut i: usize = 0;
        while i < self.content.tasks.len()
            invariant
                i <= self.content.tasks.len(),
                forall|j: int| 0 <= j < i ==> (#[trigger] self.content.tasks@[j]).completed,
            decreases self.content.tasks.len() - i,
        {
            if !self.content.tasks[i].completed {
                assert(!self.content.view().tasks[i as int].completed);
                return true;
            }
            i = i + 1;
        }
        assert forall|j: int| 0 <= j < self.content.view().tasks.len() implies (
        #[trigger] self.content.view().tasks[j]).completed by {
            assert(self.content.tasks@[j].completed);
        }
        false
    }

    /// Marks every task completed.
    pub fn mark_all_tasks_complete(&mut self)
        ensures
            final(self).view() == mark_all_tasks_complete(old(self).view()),
    {
        let ghost target = mark_all_tasks_complete(old(self).view());
        let mut i: usize = 0;
        while i < self.content.tasks.len()
            invariant
                i <= self.content.tasks.len(),
                self.content.tasks@.len() == old(self).content.tasks@.len(),
                forall|j: int|
                    0 <= j < self.content.tasks@.len() ==> (#[trigger] self.content.tasks@[j]).text@
                        == old(self).content.tasks@[j].text@,
                forall|j: int| 0 <= j < i ==> (#[trigger] self.content.tasks@[j]).completed,
                forall|j: int|
                    i <= j < self.content.tasks@.len() ==> (#[trigger] self.content.tasks@[j]).completed
                        == old(self).content.tasks@[j].completed,
                self.state == old(self).state,
                self.config == old(self).config,
                self.content.name == old(self).content.name,
                self.content.project_id == old(self).content.project_id,
                self.content.info == old(self).content.info,
                self.content.goal == old(self).content.goal,
                self.content.current_task_input == old(self).content.current_task_input,
                self.content.note == old(self).content.note,
                self.content.history == old(self).content.history,
                self.content.saved_filepath == old(self).content.saved_filepath,
                self.content.original_id == old(self).content.original_id,
                self.content.original_created == old(self).content.original_created,
                self.content.original_project_id == old(self).content.original_project_id,
                self.content.completed_timestamp == old(self).content.completed_timestamp,
            decreases self.content.tasks.len() - i,
        {
            let t = Task { text: self.content.tasks[i].text.clone(), completed: true };
            self.content.tasks.set(i, t);
            i = i + 1;
        }
        assert(self.view().content.tasks =~= target.content.tasks);
        assert(self.view() =~= target);
    }

    /// Enter in the task input.
    pub fn add_task(&mut self)
        ensures
            final(self).view() == add_task(old(self).view()),
    {
        let input = to_chars(self.content.current_task_input.as_str());
        let t = trim_ws(input.as_slice());
        if t.len() > 0 {
            let task = Task { text: self.content.current_task_input.clone(), completed: false };
            self.content.tasks.push(task);
            self.content.current_task_input = String::new();
            assert(self.view().content.tasks =~= add_task(old(self).view()).content.tasks);
        }
        assert(self.view() =~= add_task(old(self).view()));
    }

    /// Delete in the task list.
    pub fn delete_selected_task(&mut self)
        ensures
            final(self).view() == delete_selected_task(old(self).view()),
    {
        if let Some(index) = self.state.selected_task_index {
            if index < self.content.tasks.len() {
                self.content.tasks.remove(index);
                if self.content.tasks.is_empty() {
                    self.state.selected_task_index = None;
                } else if index >= self.content.tasks.len() {
                    self.state.selected_task_index = Some(self.content.tasks.len() - 1);
                }
                assert(self.view().content.tasks =~= delete_selected_task(
                    old(self).view(),
                ).content.tasks);
            }
        }
        assert(self.view() =~= delete_selected_task(old(self).view()));
    }

    /// Space in the task list, with `now` as the time of a completion.
    pub fn toggle_task_completion_at(&mut self, now: &str)
        ensures
            final(self).view() == toggle_task_completion(old(self).view(), now@),
    {
        if let Some(index) = self.state.selected_task_index {
            if index < self.content.tasks.len() {
                let was_completed = self.content.tasks[index].completed;
                let text = self.content.tasks[index].text.clone();
                let t = Task { text: text.clone(), completed: !was_completed };
                self.content.tasks.set(index, t);
                if !was_completed {
                    let mut entry = string_from(&[]);
                    push_str(&mut entry, now);
                    push_str(&mut entry, ", Completed task: ");
                    push_str(&mut entry, text.as_str());
                    let e = to_chars(entry.as_str());
                    if !self.content.history.as_str().is_empty() {
                        push_char(&mut self.content.history, '\n');
                    }
                    push_chars(&mut self.content.history, e.as_slice());
                    assert(self.content.history@ =~= append_line(
                        old(self).content.history@,
                        completed_task_entry(now@, text@),
                    ));
                }
                assert(self.view().content.tasks =~= toggle_task_completion(
                    old(self).view(),
                    now@,
                ).content.tasks);
            }
        }
        assert(self.view() =~= toggle_task_completion(old(self).view(), now@));
    }

    /// Space in the task list; a completion is stamped with the local time.
    pub fn toggle_task_completion(&mut self)
        ensures
            exists|now: Seq<char>| final(self).view() == toggle_task_completion(old(self).view(), now),
            toggle_completes_task(old(self).view()) ==> exists|now: Seq<char>|
                stamp_shaped(now, ' ') && final(self).view() == #[trigger] toggle_task_completion(
                    old(self).view(),
                    now,
                ),
            !toggle_completes_task(old(self).view()) ==> final(self).view()
                == toggle_task_completion(old(self).view(), Seq::empty()),
    {
        let completes = match self.state.selected_task_index {
            Some(i) => i < self.content.tasks.len() && !self.content.tasks[i].completed,
            None => false,
        };
        let now = if completes {
            local_timestamp("%m-%d-%Y %H:%M:%S")
        } else {
            String::new()
        };
        self.toggle_task_completion_at(now.as_str());
    }
}

// ---------------------------------------------------------------------------
// Saving and moving to done
// ---------------------------------------------------------------------------

/// What saving needs from the file system: the todo to write, and what to
/// do with the file it was loaded from.
pub struct SaveRequest {
    pub todo: TodoData,
    pub project_changed: bool,
    pub old_filepath: Option<String>,
    pub updated_id: Option<String>,
}

/// Why a todo cannot be moved to the done directory.
#[derive(Clone, Copy, Debug, PartialEq, Eq, Structural)]
pub enum MoveError {
    SourceNotFound,
    InvalidFilename,
}

/// The file a save leaves behind: the one the todo was loaded from, when
/// its project changed and the todo was written to another file.
pub open spec fn stale_path(changed: bool, old_filepath: Option<Seq<char>>, written: Seq<char>) -> Option<
    Seq<char>,
> {
    match old_filepath {
        Some(o) => if changed && o != written {
            Some(o)
        } else {
            None
        },
        None => None,
    }
}

impl SaveRequest {
    /// The file to remove once the todo was written to `written` (see
    /// `stale_path`).
    pub fn stale_file(&self, written: &str) -> (r: Option<String>)
        ensures
            opt_view(r) == stale_path(self.project_changed, opt_view(self.old_filepath), written@),
    {
        match &self.old_filepath {
            Some(o) => if self.project_changed && !str_eq(o.as_str(), written) {
                Some(o.clone())
            } else {
                None
            },
            None => None,
        }
    }
}

/// What moving to done needs from the file system: the todo to write to
/// `dest`, and whether the file it comes from, `source`, is another file
/// that has to go.
pub struct MoveRequest {
    pub todo: TodoData,
    pub filename: String,
    pub dest: String,
    pub source: String,
    pub remove_source: bool,
}

/// The index of the first project with id `id`, or `ps.len()`.
pub open spec fn first_project_with_id(ps: Seq<Project>, id: Seq<char>) -> nat
    decreases ps.len(),
{
    if ps.len() == 0 {
        0
    } else if ps[0].id@ == id {
        0
    } else {
        1 + first_project_with_id(ps.drop_first(), id)
    }
}

/// The shorthand used in the todo's id: that of the selected project, or
/// else that of the first project whose id is the todo's project id.
pub open spec fn project_shorthand(a: AppView) -> Option<Seq<char>> {
    let from_selection = match a.state.selected_project_index {
        Some(i) => if i < a.projects.len() {
            opt_view(a.projects[i as int].shorthand)
        } else {
            None
        },
        None => None,
    };
    if from_selection is Some {
        from_selection
    } else if a.content.project_id.len() > 0 {
        let k = first_project_with_id(a.projects, a.content.project_id);
        if k < a.projects.len() {
            opt_view(a.projects[k as int].shorthand)
        } else {
            None
        }
    } else {
        None
    }
}

/// Whether the todo was loaded from a file and its project id changed.
pub open spec fn project_changed(a: AppView) -> bool {
    a.content.saved_filepath is Some && a.content.original_project_id != Some(
        a.content.project_id,
    )
}

/// Original ids read by the rename on a project change: upper-case
/// letters, then the number.
pub open spec fn original_id_pattern() -> Seq<char> {
    "^[A-Z]+(\\d+)$"@
}

/// Where the todo is written and with which id: unchanged unless the
/// project changed and the original id has a number; then a file named for
/// the new shorthand and that number, in the output directory.
pub open spec fn save_target(a: AppView, changed: bool, shorthand: Option<Seq<char>>) -> (
    Option<Seq<char>>,
    Option<Seq<char>>,
) {
    let unchanged = (a.content.saved_filepath, a.content.original_id);
    if !changed {
        unchanged
    } else {
        match a.content.original_id {
            None => unchanged,
            Some(o) => match captured_u32(original_id_pattern(), o) {
                None => unchanged,
                Some(n) => (
                    Some(join_path(a.output_dir, todo_filename(a.content.name, shorthand, n as nat))),
                    Some(todo_id(shorthand, n as nat)),
                ),
            },
        }
    }
}

/// A task as a line of the todo file, after its `- `.
pub open spec fn task_line(t: TaskView) -> Seq<char> {
    (if t.completed {
        "[x] "@
    } else {
        "[ ] "@
    }) + t.text
}

/// The history line that saving at `now` adds.
pub open spec fn save_entry(a: AppView, now: Seq<char>) -> Seq<char> {
    now + ", "@ + if a.content.saved_filepath is Some {
        "Updated"@
    } else {
        "Created"@
    }
}

/// Whether `d` holds the todo of `a` with the given shorthand, history,
/// id, target and completion time.
pub open spec fn todo_data_of(
    d: TodoData,
    a: AppView,
    history: Seq<char>,
    id: Option<Seq<char>>,
    target: Option<Seq<char>>,
    completed: Option<Seq<char>>,
) -> bool {
    &&& d.name@ == a.content.name
    &&& d.project_id@ == a.content.project_id
    &&& d.info@ == a.content.info
    &&& opt_view(d.project_shorthand) == project_shorthand(a)
    &&& d.goal@ == a.content.goal
    &&& d.tasks@.len() == a.content.tasks.len()
    &&& forall|i: int|
        0 <= i < d.tasks@.len() ==> (#[trigger] d.tasks@[i])@ == task_line(a.content.tasks[i])
    &&& d.note@ == a.content.note
    &&& d.history@ == history
    &&& opt_view(d.existing_id) == id
    &&& opt_view(d.existing_created) == a.content.original_created
    &&& opt_view(d.target_filepath) == target
    &&& opt_view(d.completed) == completed
}

/// The form after a save attempt whose request was made from `a`.
pub open spec fn finish_save(
    a: AppView,
    changed: bool,
    updated_id: Option<Seq<char>>,
    old_filepath: Option<Seq<char>>,
    result: Result<Seq<char>, Seq<char>>,
) -> AppView {
    match result {
        Ok(fp) => {
            let c1 = if changed {
                ContentView {
                    original_id: if updated_id is Some {
                        updated_id
                    } else {
                        a.content.original_id
                    },
                    original_project_id: Some(a.content.project_id),
                    ..a.content
                }
            } else {
                a.content
            };
            let msg = if a.content.saved_filepath is Some {
                if changed {
                    "\u{2713} Updated and moved: "@ + fp
                } else {
                    "\u{2713} Updated: "@ + fp
                }
            } else {
                "\u{2713} Saved to: "@ + fp
            };
            let b = AppView {
                state: StateView { status_message: Some(msg), ..a.state },
                content: ContentView { saved_filepath: Some(fp), ..c1 },
                ..a
            };
            if old_filepath is None {
                clear_form(b)
            } else {
                b
            }
        },
        Err(e) => AppView {
            state: StateView { status_message: Some("\u{2717} Error saving: "@ + e), ..a.state },
            ..a
        },
    }
}

/// The form with the todo's completion time set to `now`.
pub open spec fn with_completion_time(a: AppView, now: Seq<char>) -> AppView {
    AppView { content: ContentView { completed_timestamp: Some(now), ..a.content }, ..a }
}

pub open spec fn with_status(a: AppView, msg: Seq<char>) -> AppView {
    AppView { state: StateView { status_message: Some(msg), ..a.state }, ..a }
}

fn opt_clone(o: &Option<String>) -> (r: Option<String>)
    ensures
        opt_view(r) == opt_view(*o),
{
    match o {
        Some(s) => Some(s.clone()),
        None => None,
    }
}

fn set_status(state: &mut AppState, msg: &str)
    ensures
        final(state).view() == (StateView { status_message: Some(msg@), ..old(state).view() }),
{
    state.status_message = Some(string_from(to_chars(msg).as_slice()));
}

impl App {
    /// The shorthand used in the todo's id.
    pub fn project_shorthand(&self) -> (r: Option<String>)
        ensures
            opt_view(r) == project_shorthand(self.view()),
    {
        if let Some(idx) = self.state.selected_project_index {
            if idx < self.config.projects.len() {
                if let Some(sh) = &self.config.projects[idx].shorthand {
                    return Some(sh.clone());
                }
            }
        }
        if self.content.project_id.as_str().is_empty() {
            return None;
        }
        let ghost ps = self.config.projects@;
        let ghost id = self.content.project_id@;
        let ghost goal = project_shorthand(self.view());
        assert(goal == ({
            let k = first_project_with_id(ps, id);
            if k < ps.len() {
                opt_view(ps[k as int].shorthand)
            } else {
                None
            }
        }));
        let mut k: usize = 0;
        assert(ps.skip(0) =~= ps);
        while k < self.config.projects.len()
            invariant
                k <= ps.len(),
                goal == project_shorthand(self.view()),
                goal == ({
                    let k = first_project_with_id(ps, id);
                    if k < ps.len() {
                        opt_view(ps[k as int].shorthand)
                    } else {
                        None
                    }
                }),
                ps == self.config.projects@,
                id == self.content.project_id@,
                first_project_with_id(ps, id) == k + first_project_with_id(ps.skip(k as int), id),
            decreases ps.len() - k,
        {
            assert(ps.skip(k as int)[0] == ps[k as int]);
            assert(ps.skip(k as int).drop_first() =~= ps.skip(k + 1));
            if self.config.projects[k].id == self.content.project_id {
                return opt_clone(&self.config.projects[k].shorthand);
            }
            k = k + 1;
        }
        assert(ps.skip(k as int) =~= Seq::<Project>::empty());
        None
    }

    /// The file and id the todo is saved under.
    pub fn calculate_target_filepath_and_id(
        &self,
        project_changed: bool,
        project_shorthand: Option<&String>,
    ) -> (r: (Option<String>, Option<String>))
        ensures
            (opt_view(r.0), opt_view(r.1)) == save_target(
                self.view(),
                project_changed,
                match project_shorthand {
                    Some(s) => Some(s@),
                    None => None,
                },
            ),
    {
        let unchanged = (opt_clone(&self.content.saved_filepath), opt_clone(&self.content.original_id));
        if !project_changed {
            return unchanged;
        }
        let orig_id = match &self.content.original_id {
            Some(id) => id,
            None => {
                return unchanged;
            },
        };
        let id_num = match capture_u32("^[A-Z]+(\\d+)$", orig_id.as_str()) {
            Some(n) => n,
            None => {
                return unchanged;
            },
        };
        let storage = FileStorage::new(None);
        let sh = match project_shorthand {
            Some(s) => Some(s.as_str()),
            None => None,
        };
        let new_id = storage.generate_id(sh, id_num);
        let filename = storage.generate_filename(self.content.name.as_str(), sh, id_num);
        let path = join(self.config.output_dir.as_str(), filename.as_str());
        (Some(path), Some(new_id))
    }

    fn task_lines(&self) -> (r: Vec<String>)
        ensures
            r@.len() == self.content.tasks@.len(),
            forall|i: int|
                0 <= i < r@.len() ==> (#[trigger] r@[i])@ == task_line(self.content.view().tasks[i]),
    {
        let mut out: Vec<String> = Vec::new();
        let mut i: usize = 0;
        while i < self.content.tasks.len()
            invariant
                i <= self.content.tasks.len(),
                out@.len() == i,
                forall|j: int|
                    0 <= j < i ==> (#[trigger] out@[j])@ == task_line(self.content.view().tasks[j]),
            decreases self.content.tasks.len() - i,
        {
            let t = &self.content.tasks[i];
            let mut line = if t.completed {
                string_from(to_chars("[x] ").as_slice())
            } else {
                string_from(to_chars("[ ] ").as_slice())
            };
            push_str(&mut line, t.text.as_str());
            out.push(line);
            i = i + 1;
        }
        out
    }

    /// Ctrl+S, first half: checks the name, records the save in the history
    /// (stamped `now`) and says what to write. `None` when the name is
    /// empty.
    pub fn begin_save_at(&mut self, now: &str) -> (r: Option<SaveRequest>)
        ensures
            old(self).content.name@.len() == 0 ==> r is None && final(self).view() == with_status(
                old(self).view(),
                "Error: Name is required!"@,
            ),
            old(self).content.name@.len() > 0 ==> ({
                let a = old(self).view();
                let sh = project_shorthand(a);
                let changed = project_changed(a);
                let target = save_target(a, changed, sh);
                let history = append_line(a.content.history, save_entry(a, now@));
                &&& final(self).view() == AppView {
                    content: ContentView { history, ..a.content },
                    ..a
                }
                &&& r matches Some(req) && {
                    &&& req.project_changed == changed
                    &&& opt_view(req.old_filepath) == a.content.saved_filepath
                    &&& opt_view(req.updated_id) == target.1
                    &&& todo_data_of(
                        req.todo,
                        a,
                        history,
                        target.1,
                        target.0,
                        a.content.completed_timestamp,
                    )
                }
            }),
    {
        if self.content.name.as_str().is_empty() {
            set_status(&mut self.state, "Error: Name is required!");
            assert(self.view() =~= with_status(old(self).view(), "Error: Name is required!"@));
            return None;
        }
        let ghost a = self.view();
        let shorthand = self.project_shorthand();
        let changed = match &self.content.saved_filepath {
            Some(_) => match &self.content.original_project_id {
                Some(o) => !(*o == self.content.project_id),
                None => true,
            },
            None => false,
        };
        assert(changed == project_changed(a));
        let old_filepath = opt_clone(&self.content.saved_filepath);
        let (target, updated_id) = self.calculate_target_filepath_and_id(changed, shorthand.as_ref());
        let mut entry = string_from(to_chars(now).as_slice());
        push_str(&mut entry, ", ");
        if self.content.saved_filepath.is_some() {
            push_str(&mut entry, "Updated");
        } else {
            push_str(&mut entry, "Created");
        }
        let e = to_chars(entry.as_str());
        if !self.content.history.as_str().is_empty() {
            push_char(&mut self.content.history, '\n');
        }
        push_chars(&mut self.content.history, e.as_slice());
        assert(self.content.history@ =~= append_line(a.content.history, save_entry(a, now@)));
        let tasks = self.task_lines();
        let todo = TodoData {
            name: self.content.name.clone(),
            project_id: self.content.project_id.clone(),
            info: self.content.info.clone(),
            project_shorthand: shorthand,
            goal: self.content.goal.clone(),
            tasks,
            note: self.content.note.clone(),
            history: self.content.history.clone(),
            existing_id: opt_clone(&updated_id),
            existing_created: opt_clone(&self.content.original_created),
            target_filepath: target,
            completed: opt_clone(&self.content.completed_timestamp),
        };
        assert(self.view() =~= AppView {
            content: ContentView {
                history: append_line(a.content.history, save_entry(a, now@)),
                ..a.content
            },
            ..a
        });
        Some(SaveRequest { todo, project_changed: changed, old_filepath, updated_id })
    }

    /// Ctrl+S, first half, stamped with the local time.
    pub fn begin_save(&mut self) -> (r: Option<SaveRequest>)
        ensures
            old(self).content.name@.len() == 0 ==> r is None && final(self).view() == with_status(
                old(self).view(),
                "Error: Name is required!"@,
            ),
            old(self).content.name@.len() > 0 ==> exists|now: Seq<char>|
                #![trigger save_entry(old(self).view(), now)]
                {
                    let a = old(self).view();
                    let history = append_line(a.content.history, save_entry(a, now));
                    &&& stamp_shaped(now, ' ')
                    &&& final(self).view() == AppView {
                        content: ContentView { history, ..a.content },
                        ..a
                    }
                    &&& r matches Some(req) && {
                        &&& req.project_changed == project_changed(a)
                        &&& opt_view(req.old_filepath) == a.content.saved_filepath
                        &&& opt_view(req.updated_id) == save_target(
                            a,
                            project_changed(a),
                            project_shorthand(a),
                        ).1
                        &&& todo_data_of(
                            req.todo,
                            a,
                            history,
                            save_target(a, project_changed(a), project_shorthand(a)).1,
                            save_target(a, project_changed(a), project_shorthand(a)).0,
                            a.content.completed_timestamp,
                        )
                    }
                },
    {
        let now = if self.content.name.as_str().is_empty() {
            String::new()
        } else {
            local_timestamp("%m-%d-%Y %H:%M:%S")
        };
        self.begin_save_at(now.as_str())
    }

    /// Ctrl+S, second half: records the outcome of writing the file
    /// (`Ok` with the path written, or `Err` with the error's text).
    pub fn finish_save(&mut self, req: SaveRequest, result: Result<String, String>)
        ensures
            final(self).view() == finish_save(
                old(self).view(),
                req.project_changed,
                opt_view(req.updated_id),
                opt_view(req.old_filepath),
                match result {
                    Ok(p) => Ok(p@),
                    Err(e) => Err(e@),
                },
            ),
    {
        let ghost a = self.view();
        match result {
            Ok(filepath) => {
                if req.project_changed {
                    if let Some(new_id) = req.updated_id {
                        self.content.original_id = Some(new_id);
                    }
                    self.content.original_project_id = Some(self.content.project_id.clone());
                }
                let mut msg = if self.content.saved_filepath.is_some() {
                    if req.project_changed {
                        string_from(to_chars("\u{2713} Updated and moved: ").as_slice())
                    } else {
                        string_from(to_chars("\u{2713} Updated: ").as_slice())
                    }
                } else {
                    string_from(to_chars("\u{2713} Saved to: ").as_slice())
                };
                push_str(&mut msg, filepath.as_str());
                self.state.status_message = Some(msg);
                self.content.saved_filepath = Some(filepath);
                let ghost b = self.view();
                if req.old_filepath.is_none() {
                    self.clear_form();
                }
            },
            Err(e) => {
                let mut msg = string_from(to_chars("\u{2717} Error saving: ").as_slice());
                push_str(&mut msg, e.as_str());
                self.state.status_message = Some(msg);
            },
        }
    }

    /// Ctrl+D, first half. `source_exists` says whether the todo's file is
    /// there; `done_dir` is where finished todos go; `now` is the completion
    /// time. Returns what to write, or `Ok(None)` when the todo was never
    /// saved (the status line says so).
    pub fn begin_move_to_done_at(&mut self, source_exists: bool, done_dir: &str, now: &str) -> (r:
        Result<Option<MoveRequest>, MoveError>)
        ensures
            ({
                let a = old(self).view();
                match a.content.saved_filepath {
                    None => r == Ok::<Option<MoveRequest>, MoveError>(None) && final(self).view()
                        == with_status(a, "Error: No file to move. Save first."@),
                    Some(src) => if !source_exists {
                        r == Err::<Option<MoveRequest>, MoveError>(MoveError::SourceNotFound)
                            && final(self).view() == a
                    } else {
                        let b = with_completion_time(a, now@);
                        &&& final(self).view() == b
                        &&& match file_name(src) {
                            None => r == Err::<Option<MoveRequest>, MoveError>(
                                MoveError::InvalidFilename,
                            ),
                            Some(f) => r matches Ok(Some(req)) && {
                                &&& req.filename@ == f
                                &&& req.dest@ == join_path(done_dir@, f)
                                &&& req.source@ == src
                                &&& req.remove_source == (src != join_path(done_dir@, f))
                                &&& todo_data_of(
                                    req.todo,
                                    b,
                                    a.content.history,
                                    a.content.original_id,
                                    Some(join_path(done_dir@, f)),
                                    Some(now@),
                                )
                            },
                        }
                    },
                }
            }),
    {
        let ghost a = self.view();
        let source = match &self.content.saved_filepath {
            Some(p) => p.clone(),
            None => {
                set_status(&mut self.state, "Error: No file to move. Save first.");
                assert(self.view() =~= with_status(a, "Error: No file to move. Save first."@));
                return Ok(None);
            },
        };
        if !source_exists {
            return Err(MoveError::SourceNotFound);
        }
        self.content.completed_timestamp = Some(string_from(to_chars(now).as_slice()));
        assert(self.view() =~= AppView {
            content: ContentView { completed_timestamp: Some(now@), ..a.content },
            ..a
        });
        let filename = match path_file_name(source.as_str()) {
            Some(f) => f,
            None => {
                return Err(MoveError::InvalidFilename);
            },
        };
        let dest = join(done_dir, filename.as_str());
        let shorthand = self.project_shorthand();
        let tasks = self.task_lines();
        let todo = TodoData {
            name: self.content.name.clone(),
            project_id: self.content.project_id.clone(),
            info: self.content.info.clone(),
            project_shorthand: shorthand,
            goal: self.content.goal.clone(),
            tasks,
            note: self.content.note.clone(),
            history: self.content.history.clone(),
            existing_id: opt_clone(&self.content.original_id),
            existing_created: opt_clone(&self.content.original_created),
            target_filepath: Some(dest.clone()),
            completed: opt_clone(&self.content.completed_timestamp),
        };
        let remove_source = !str_eq(source.as_str(), dest.as_str());
        Ok(Some(MoveRequest { todo, filename, dest, source, remove_source }))
    }

    /// Ctrl+D, first half, with the local time as completion time.
    pub fn begin_move_to_done(&mut self, source_exists: bool, done_dir: &str) -> (r: Result<
        Option<MoveRequest>,
        MoveError,
    >)
        ensures
            old(self).content.saved_filepath is None ==> r == Ok::<Option<MoveRequest>, MoveError>(
                None,
            ) && final(self).view() == with_status(
                old(self).view(),
                "Error: No file to move. Save first."@,
            ),
            old(self).content.saved_filepath is Some && !source_exists ==> r == Err::<
                Option<MoveRequest>,
                MoveError,
            >(MoveError::SourceNotFound) && final(self).view() == old(self).view(),
            old(self).content.saved_filepath is Some && source_exists ==> (exists|now: Seq<char>|
                #![trigger with_completion_time(old(self).view(), now)]
                {
                    let a = old(self).view();
                    let b = with_completion_time(a, now);
                    &&& stamp_shaped(now, '_')
                    &&& final(self).view() == b
                    &&& match file_name(a.content.saved_filepath->0) {
                        None => r == Err::<Option<MoveRequest>, MoveError>(
                            MoveError::InvalidFilename,
                        ),
                        Some(f) => r matches Ok(Some(req)) && {
                            &&& req.filename@ == f
                            &&& req.dest@ == join_path(done_dir@, f)
                            &&& req.source@ == a.content.saved_filepath->0
                            &&& req.remove_source == (a.content.saved_filepath->0 != join_path(
                                done_dir@,
                                f,
                            ))
                            &&& todo_data_of(
                                req.todo,
                                b,
                                a.content.history,
                                a.content.original_id,
                                Some(join_path(done_dir@, f)),
                                Some(now),
                            )
                        },
                    }
                }),
    {
        let now = if self.content.saved_filepath.is_some() && source_exists {
            local_timestamp("%m-%d-%Y_%H:%M:%S")
        } else {
            String::new()
        };
        proof {
            reveal_strlit("%m-%d-%Y_%H:%M:%S");
            reveal_strlit("%m-%d-%Y %H:%M:%S");
            assert("%m-%d-%Y_%H:%M:%S"@[8] != "%m-%d-%Y %H:%M:%S"@[8]);
        }
        self.begin_move_to_done_at(source_exists, done_dir, now.as_str())
    }

    /// Ctrl+D, second half, after the todo was written to `req.dest` and
    /// its old file removed.
    pub fn finish_move_to_done(&mut self, req: MoveRequest)
        ensures
            final(self).view() == (AppView {
                state: StateView {
                    status_message: Some("\u{2713} Moved to done: "@ + req.filename@),
                    ..old(self).view().state
                },
                content: ContentView { saved_filepath: Some(req.dest@), ..old(self).view().content },
                ..old(self).view()
            }),
    {
        let mut msg = string_from(to_chars("\u{2713} Moved to done: ").as_slice());
        push_str(&mut msg, req.filename.as_str());
        self.state.status_message = Some(msg);
        self.content.saved_filepath = Some(req.dest);
    }

    /// The status line after a failed move to done.
    pub fn fail_move_to_done(&mut self, error: &str)
        ensures
            final(self).view() == with_status(old(self).view(), "Error moving to done: "@ + error@),
    {
        let mut msg = string_from(to_chars("Error moving to done: ").as_slice());
        push_str(&mut msg, error);
        self.state.status_message = Some(msg);
        assert(self.view() =~= with_status(old(self).view(), "Error moving to done: "@ + error@));
    }
}

// ---------------------------------------------------------------------------
// Keys
// ---------------------------------------------------------------------------

/// The number of history lines that are not blank.
pub open spec fn history_entry_count(ls: Seq<Seq<char>>) -> nat
    decreases ls.len(),
{
    if ls.len() == 0 {
        0
    } else {
        history_entry_count(ls.drop_last()) + if trim(ls.last()).len() > 0 {
            1nat
        } else {
            0nat
        }
    }
}

/// Keys in the history viewer (other than Ctrl+H): Esc closes it, Up and
/// Down scroll within its entries.
pub open spec fn history_viewer_key(a: AppView, code: KeyCode) -> AppView {
    let entries = history_entry_count(crate::text::lines(a.content.history));
    let max_scroll: int = if entries > 0 {
        entries - 1
    } else {
        0
    };
    let off = a.state.history_scroll_offset;
    match code {
        KeyCode::Esc => AppView { state: StateView { show_history_viewer: false, ..a.state }, ..a },
        KeyCode::Up => if off > 0 {
            AppView { state: StateView { history_scroll_offset: (off - 1) as usize, ..a.state }, ..a }
        } else {
            a
        },
        KeyCode::Down => if off < max_scroll {
            AppView { state: StateView { history_scroll_offset: (off + 1) as usize, ..a.state }, ..a }
        } else {
            a
        },
        _ => a,
    }
}

/// Keys in the project selector.
pub open spec fn project_selector_key(a: AppView, code: KeyCode) -> AppView {
    match code {
        KeyCode::Esc => AppView { state: StateView { show_project_selector: false, ..a.state }, ..a },
        KeyCode::Up => move_project_selection_up(a),
        KeyCode::Down => move_project_selection_down(a),
        KeyCode::Enter => select_project(a),
        _ => a,
    }
}

/// Keys in the dialog that asks whether to complete all tasks before
/// moving to done.
pub open spec fn confirmation_key(a: AppView, code: KeyCode) -> (AppView, Effect) {
    match code {
        KeyCode::Char(c) => if c == 'y' || c == 'Y' {
            (
                AppView {
                    state: StateView { show_complete_confirmation: false, ..a.state },
                    ..mark_all_tasks_complete(a)
                },
                Effect::MoveToDone,
            )
        } else if c == 'n' || c == 'N' {
            (
                AppView {
                    state: StateView {
                        show_complete_confirmation: false,
                        status_message: Some("Move cancelled."@),
                        ..a.state
                    },
                    ..a
                },
                Effect::Continue,
            )
        } else {
            (a, Effect::Continue)
        },
        KeyCode::Esc => (
            AppView {
                state: StateView {
                    show_complete_confirmation: false,
                    status_message: Some("Move cancelled."@),
                    ..a.state
                },
                ..a
            },
            Effect::Continue,
        ),
        _ => (a, Effect::Continue),
    }
}

/// Ctrl+D: a saved todo with open tasks asks for confirmation, one with
/// none is moved; an unsaved one is refused.
pub open spec fn move_to_done_key(a: AppView) -> (AppView, Effect) {
    if a.content.saved_filepath is Some {
        if has_incomplete_tasks(a.content) {
            (
                AppView { state: StateView { show_complete_confirmation: true, ..a.state }, ..a },
                Effect::Continue,
            )
        } else {
            (a, Effect::MoveToDone)
        }
    } else {
        (with_status(a, "Save the file first before moving to done."@), Effect::Continue)
    }
}

/// The text field that typing goes to in field `f`.
pub open spec fn current_input(c: ContentView, f: InputField) -> Seq<char> {
    match f {
        InputField::Name => c.name,
        InputField::ProjectId => c.project_id,
        InputField::Info => c.info,
        InputField::Goal => c.goal,
        InputField::Tasks => c.current_task_input,
        InputField::TaskList => c.current_task_input,
        InputField::Note => c.note,
    }
}

/// `c` with the text field of `f` replaced by `v`.
pub open spec fn with_current_input(c: ContentView, f: InputField, v: Seq<char>) -> ContentView {
    match f {
        InputField::Name => ContentView { name: v, ..c },
        InputField::ProjectId => ContentView { project_id: v, ..c },
        InputField::Info => ContentView { info: v, ..c },
        InputField::Goal => ContentView { goal: v, ..c },
        InputField::Tasks => ContentView { current_task_input: v, ..c },
        InputField::TaskList => ContentView { current_task_input: v, ..c },
        InputField::Note => ContentView { note: v, ..c },
    }
}

/// Types `ch` into the focused field.
pub open spec fn type_char(a: AppView, ch: char) -> AppView {
    let f = a.state.current_field;
    AppView { content: with_current_input(a.content, f, current_input(a.content, f).push(ch)), ..a }
}

/// Deletes the last character of the focused field.
pub open spec fn delete_char(a: AppView) -> AppView {
    let f = a.state.current_field;
    let t = current_input(a.content, f);
    if t.len() > 0 {
        AppView { content: with_current_input(a.content, f, t.drop_last()), ..a }
    } else {
        a
    }
}

pub open spec fn is_multiline(f: InputField) -> bool {
    f == InputField::Goal || f == InputField::Note
}

/// Keys of the form itself, with `now` as the time of a task completion.
pub open spec fn main_key(a: AppView, key: Key, now: Seq<char>) -> (AppView, Effect) {
    let f = a.state.current_field;
    match key.code {
        KeyCode::Char(c) => if key.ctrl && c == 'c' {
            (AppView { state: StateView { quit: true, ..a.state }, ..a }, Effect::Continue)
        } else if key.ctrl && c == 's' {
            (a, Effect::Save)
        } else if key.ctrl && c == 'd' {
            move_to_done_key(a)
        } else if key.ctrl && c == 'p' {
            if f == InputField::ProjectId || f == InputField::Info {
                (toggle_project_selector(a), Effect::Continue)
            } else {
                (a, Effect::Continue)
            }
        } else if key.ctrl && c == 'h' {
            (toggle_history_viewer(a), Effect::Continue)
        } else if c == ' ' && f == InputField::TaskList {
            (toggle_task_completion(a, now), Effect::Continue)
        } else if f != InputField::TaskList {
            if is_multiline(f) {
                (auto_scroll(type_char(a, c)), Effect::Continue)
            } else {
                (type_char(a, c), Effect::Continue)
            }
        } else {
            (a, Effect::Continue)
        },
        KeyCode::Esc => (AppView { state: StateView { quit: true, ..a.state }, ..a }, Effect::Continue),
        KeyCode::Tab => (next_field(a), Effect::Continue),
        KeyCode::BackTab => (previous_field(a), Effect::Continue),
        KeyCode::Enter => if f == InputField::Tasks {
            (add_task(a), Effect::Continue)
        } else if is_multiline(f) {
            (auto_scroll(type_char(a, '\n')), Effect::Continue)
        } else {
            (a, Effect::Continue)
        },
        KeyCode::Backspace => if f != InputField::TaskList {
            (delete_char(a), Effect::Continue)
        } else {
            (a, Effect::Continue)
        },
        KeyCode::Up => if f == InputField::TaskList {
            (move_task_selection_up(a), Effect::Continue)
        } else if f == InputField::Goal && a.state.goal_scroll_offset > 0 {
            (
                AppView {
                    state: StateView {
                        goal_scroll_offset: (a.state.goal_scroll_offset - 1) as usize,
                        ..a.state
                    },
                    ..a
                },
                Effect::Continue,
            )
        } else if f == InputField::Note && a.state.note_scroll_offset > 0 {
            (
                AppView {
                    state: StateView {
                        note_scroll_offset: (a.state.note_scroll_offset - 1) as usize,
                        ..a.state
                    },
                    ..a
                },
                Effect::Continue,
            )
        } else {
            (a, Effect::Continue)
        },
        KeyCode::Down => if f == InputField::TaskList {
            (move_task_selection_down(a), Effect::Continue)
        } else if f == InputField::Goal && a.state.goal_scroll_offset + 3 < cap_usize(
            display_line_count(a.content.goal, scroll_width()),
        ) {
            (
                AppView {
                    state: StateView {
                        goal_scroll_offset: (a.state.goal_scroll_offset + 1) as usize,
                        ..a.state
                    },
                    ..a
                },
                Effect::Continue,
            )
        } else if f == InputField::Note && a.state.note_scroll_offset + 6 < cap_usize(
            display_line_count(a.content.note, scroll_width()),
        ) {
            (
                AppView {
                    state: StateView {
                        note_scroll_offset: (a.state.note_scroll_offset + 1) as usize,
                        ..a.state
                    },
                    ..a
                },
                Effect::Continue,
            )
        } else {
            (a, Effect::Continue)
        },
        KeyCode::Delete => if f == InputField::TaskList {
            (delete_selected_task(a), Effect::Continue)
        } else {
            (a, Effect::Continue)
        },
        KeyCode::Other => (a, Effect::Continue),
    }
}

/// What a key press does to the form: the status line is cleared, then the
/// open dialog, the project selector, the history viewer or else the form
/// itself handles the key. `now` is the time of a task completion.
pub open spec fn press_key(a: AppView, key: Key, now: Seq<char>) -> (AppView, Effect) {
    let a0 = AppView { state: StateView { status_message: None, ..a.state }, ..a };
    if a0.state.show_complete_confirmation {
        confirmation_key(a0, key.code)
    } else if a0.state.show_project_selector {
        (project_selector_key(a0, key.code), Effect::Continue)
    } else if a0.state.show_history_viewer {
        if key.code == KeyCode::Char('h') && key.ctrl {
            (toggle_history_viewer(a0), Effect::Continue)
        } else {
            (history_viewer_key(a0, key.code), Effect::Continue)
        }
    } else {
        main_key(a0, key, now)
    }
}

/// Whether a key press at this state completes a task (and so reads the
/// clock).
pub open spec fn key_completes_task(a: AppView, key: Key) -> bool {
    &&& !a.state.show_complete_confirmation
    &&& !a.state.show_project_selector
    &&& !a.state.show_history_viewer
    &&& key.code == KeyCode::Char(' ')
    &&& a.state.current_field == InputField::TaskList
    &&& toggle_completes_task(a)
}

fn count_history_entries(history: &String) -> (r: usize)
    ensures
        r as nat == history_entry_count(crate::text::lines(history@)),
{
    let chars = to_chars(history.as_str());
    let ls = crate::text::split_lines(chars.as_slice());
    let ghost all = crate::text::lines(history@);
    let mut n: usize = 0;
    let mut i: usize = 0;
    assert(all.take(0) =~= Seq::<Seq<char>>::empty());
    while i < ls.len()
        invariant
            i <= ls.len(),
            all == crate::text::lines(history@),
            ls@.len() == all.len(),
            forall|k: int| 0 <= k < ls@.len() ==> (#[trigger] ls@[k])@ == all[k],
            n as nat == history_entry_count(all.take(i as int)),
            n <= i,
        decreases ls.len() - i,
    {
        proof {
            assert(all.take(i + 1).drop_last() =~= all.take(i as int));
            assert(all.take(i + 1).last() == all[i as int]);
            assert(ls@[i as int]@ == all[i as int]);
        }
        let t = trim_ws(ls[i].as_slice());
        if t.len() > 0 {
            n = n + 1;
        }
        i = i + 1;
    }
    assert(all.take(i as int) =~= all);
    n
}

impl App {
    fn type_char(&mut self, ch: char)
        ensures
            final(self).view() == type_char(old(self).view(), ch),
    {
        match self.state.current_field {
            InputField::Name => push_char(&mut self.content.name, ch),
            InputField::ProjectId => push_char(&mut self.content.project_id, ch),
            InputField::Info => push_char(&mut self.content.info, ch),
            InputField::Goal => push_char(&mut self.content.goal, ch),
            InputField::Tasks => push_char(&mut self.content.current_task_input, ch),
            InputField::TaskList => push_char(&mut self.content.current_task_input, ch),
            InputField::Note => push_char(&mut self.content.note, ch),
        }
        assert(self.view() =~= type_char(old(self).view(), ch));
    }

    fn delete_char(&mut self)
        ensures
            final(self).view() == delete_char(old(self).view()),
    {
        match self.state.current_field {
            InputField::Name => {
                pop_char(&mut self.content.name);
            },
            InputField::ProjectId => {
                pop_char(&mut self.content.project_id);
            },
            InputField::Info => {
                pop_char(&mut self.content.info);
            },
            InputField::Goal => {
                pop_char(&mut self.content.goal);
            },
            InputField::Tasks => {
                pop_char(&mut self.content.current_task_input);
            },
            InputField::TaskList => {
                pop_char(&mut self.content.current_task_input);
            },
            InputField::Note => {
                pop_char(&mut self.content.note);
            },
        }
        assert(self.view() =~= delete_char(old(self).view()));
    }

    fn history_viewer_key(&mut self, code: KeyCode)
        ensures
            final(self).view() == history_viewer_key(old(self).view(), code),
    {
        let entries = count_history_entries(&self.content.history);
        let max_scroll = entries.saturating_sub(1);
        match code {
            KeyCode::Esc => {
                self.state.show_history_viewer = false;
            },
            KeyCode::Up => {
                if self.state.history_scroll_offset > 0 {
                    self.state.history_scroll_offset = self.state.history_scroll_offset - 1;
                }
            },
            KeyCode::Down => {
                if self.state.history_scroll_offset < max_scroll {
                    self.state.history_scroll_offset = self.state.history_scroll_offset + 1;
                }
            },
            _ => {},
        }
        assert(self.view() =~= history_viewer_key(old(self).view(), code));
    }

    fn project_selector_key(&mut self, code: KeyCode)
        ensures
            final(self).view() == project_selector_key(old(self).view(), code),
    {
        match code {
            KeyCode::Esc => {
                self.state.show_project_selector = false;
                assert(self.view() =~= project_selector_key(old(self).view(), code));
            },
            KeyCode::Up => self.move_project_selection_up(),
            KeyCode::Down => self.move_project_selection_down(),
            KeyCode::Enter => self.select_project(),
            _ => {},
        }
    }

    fn confirmation_key(&mut self, code: KeyCode) -> (r: Effect)
        ensures
            (final(self).view(), r) == confirmation_key(old(self).view(), code),
    {
        let (yes, no) = match code {
            KeyCode::Char(c) => (c == 'y' || c == 'Y', c == 'n' || c == 'N'),
            KeyCode::Esc => (false, true),
            _ => (false, false),
        };
        if yes {
            self.mark_all_tasks_complete();
            self.state.show_complete_confirmation = false;
            assert(self.view() =~= confirmation_key(old(self).view(), code).0);
            Effect::MoveToDone
        } else if no {
            self.state.show_complete_confirmation = false;
            set_status(&mut self.state, "Move cancelled.");
            assert(self.view() =~= confirmation_key(old(self).view(), code).0);
            Effect::Continue
        } else {
            Effect::Continue
        }
    }

    fn move_to_done_key(&mut self) -> (r: Effect)
        ensures
            (final(self).view(), r) == move_to_done_key(old(self).view()),
    {
        if self.content.saved_filepath.is_some() {
            if self.has_incomplete_tasks() {
                self.state.show_complete_confirmation = true;
                assert(self.view() =~= move_to_done_key(old(self).view()).0);
                Effect::Continue
            } else {
                Effect::MoveToDone
            }
        } else {
            set_status(&mut self.state, "Save the file first before moving to done.");
            assert(self.view() =~= move_to_done_key(old(self).view()).0);
            Effect::Continue
        }
    }

    fn main_key(&mut self, key: Key, now: &str) -> (r: Effect)
        ensures
            (final(self).view(), r) == main_key(old(self).view(), key, now@),
    {
        let f = self.state.current_field;
        match key.code {
            KeyCode::Char(c) => {
                if key.ctrl && c == 'c' {
                    self.state.quit = true;
                    assert(self.view() =~= main_key(old(self).view(), key, now@).0);
                } else if key.ctrl && c == 's' {
                    return Effect::Save;
                } else if key.ctrl && c == 'd' {
                    return self.move_to_done_key();
                } else if key.ctrl && c == 'p' {
                    if f == InputField::ProjectId || f == InputField::Info {
                        self.toggle_project_selector();
                    }
                } else if key.ctrl && c == 'h' {
                    self.toggle_history_viewer();
                } else if c == ' ' && f == InputField::TaskList {
                    self.toggle_task_completion_at(now);
                } else if f != InputField::TaskList {
                    self.type_char(c);
                    if f == InputField::Goal || f == InputField::Note {
                        self.auto_adjust_scroll();
                    }
                }
                Effect::Continue
            },
            KeyCode::Esc => {
                self.state.quit = true;
                assert(self.view() =~= main_key(old(self).view(), key, now@).0);
                Effect::Continue
            },
            KeyCode::Tab => {
                self.next_field();
                Effect::Continue
            },
            KeyCode::BackTab => {
                self.previous_field();
                Effect::Continue
            },
            KeyCode::Enter => {
                if f == InputField::Tasks {
                    self.add_task();
                } else if f == InputField::Goal || f == InputField::Note {
                    self.type_char('\n');
                    self.auto_adjust_scroll();
                }
                Effect::Continue
            },
            KeyCode::Backspace => {
                if f != InputField::TaskList {
                    self.delete_char();
                }
                Effect::Continue
            },
            KeyCode::Up => {
                if f == InputField::TaskList {
                    self.move_task_selection_up();
                } else if f == InputField::Goal {
                    if self.state.goal_scroll_offset > 0 {
                        self.state.goal_scroll_offset = self.state.goal_scroll_offset - 1;
                    }
                } else if f == InputField::Note {
                    if self.state.note_scroll_offset > 0 {
                        self.state.note_scroll_offset = self.state.note_scroll_offset - 1;
                    }
                }
                assert(self.view() =~= main_key(old(self).view(), key, now@).0);
                Effect::Continue
            },
            KeyCode::Down => {
                if f == InputField::TaskList {
                    self.move_task_selection_down();
                } else if f == InputField::Goal {
                    let count = count_display_lines_with_wrapping(self.content.goal.as_str(), 100);
                    let max_scroll = count.saturating_sub(3);
                    if self.state.goal_scroll_offset < max_scroll {
                        self.state.goal_scroll_offset = self.state.goal_scroll_offset + 1;
                    }
                } else if f == InputField::Note {
                    let count = count_display_lines_with_wrapping(self.content.note.as_str(), 100);
                    let max_scroll = count.saturating_sub(6);
                    if self.state.note_scroll_offset < max_scroll {
                        self.state.note_scroll_offset = self.state.note_scroll_offset + 1;
                    }
                }
                assert(self.view() =~= main_key(old(self).view(), key, now@).0);
                Effect::Continue
            },
            KeyCode::Delete => {
                if f == InputField::TaskList {
                    self.delete_selected_task();
                }
                Effect::Continue
            },
            KeyCode::Other => Effect::Continue,
        }
    }

    /// A key press, with `now` as the time of a task completion.
    pub fn handle_key_at(&mut self, key: Key, now: &str) -> (r: Effect)
        ensures
            (final(self).view(), r) == press_key(old(self).view(), key, now@),
    {
        self.state.status_message = None;
        if self.state.show_complete_confirmation {
            self.confirmation_key(key.code)
        } else if self.state.show_project_selector {
            self.project_selector_key(key.code);
            Effect::Continue
        } else if self.state.show_history_viewer {
            if key.code == KeyCode::Char('h') && key.ctrl {
                self.toggle_history_viewer();
            } else {
                self.history_viewer_key(key.code);
            }
            Effect::Continue
        } else {
            self.main_key(key, now)
        }
    }

    /// A key press; a task completion is stamped with the local time.
    pub fn handle_key(&mut self, key: Key) -> (r: Effect)
        ensures
            exists|now: Seq<char>|
                stamp_shaped(now, ' ') && #[trigger] press_key(old(self).view(), key, now) == (
                    final(self).view(),
                    r,
                ),
            !key_completes_task(old(self).view(), key) ==> press_key(
                old(self).view(),
                key,
                Seq::empty(),
            ) == (final(self).view(), r),
    {
        let completes = !self.state.show_complete_confirmation && !self.state.show_project_selector
            && !self.state.show_history_viewer && key.code == KeyCode::Char(' ')
            && self.state.current_field == InputField::TaskList && match self.state.selected_task_index {
            Some(i) => i < self.content.tasks.len() && !self.content.tasks[i].completed,
            None => false,
        };
        let now = if completes {
            local_timestamp("%m-%d-%Y %H:%M:%S")
        } else {
            String::new()
        };
        let r = self.handle_key_at(key, now.as_str());
        proof {
            if !key_completes_task(old(self).view(), key) {
                lemma_press_key_without_clock(old(self).view(), key, now@);
                let sample = seq!['0', '1', '-', '0', '1', '-', '2', '0', '0', '0', ' ', '0', '0', ':', '0', '0', ':', '0', '0'];
                lemma_sample_stamp(' ');
                lemma_press_key_without_clock(old(self).view(), key, sample);
                assert(stamp_shaped(sample, ' ') && press_key(old(self).view(), key, sample) == (self.view(), r));
            } else {
                assert(stamp_shaped(now@, ' ') && press_key(old(self).view(), key, now@) == (self.view(), r));
            }
        }
        r
    }
}

/// A key press that completes no task does not depend on the time.
pub proof fn lemma_press_key_without_clock(a: AppView, key: Key, now: Seq<char>)
    requires
        !key_completes_task(a, key),
    ensures
        press_key(a, key, now) == press_key(a, key, Seq::empty()),
{
    let a0 = AppView { state: StateView { status_message: None, ..a.state }, ..a };
    if !a0.state.show_complete_confirmation && !a0.state.show_project_selector
        && !a0.state.show_history_viewer {
        if key.code == KeyCode::Char(' ') && a0.state.current_field == InputField::TaskList {
            assert(!toggle_completes_task(a0));
            assert(toggle_task_completion(a0, now) == toggle_task_completion(a0, Seq::empty()));
        }
    }
}

// ---------------------------------------------------------------------------
// Starting the form
// ---------------------------------------------------------------------------

/// The tasks of a todo file as tasks of the form.
pub open spec fn parsed_task_views(p: ParsedTodo) -> Seq<TaskView> {
    p.tasks@.map_values(|t: crate::parser::Task| TaskView { text: t.text@, completed: t.completed })
}

impl App {
    /// An empty form.
    pub fn new(config: AppConfig) -> (r: App)
        ensures
            r.state.view() == initial_state(),
            r.content.view() == empty_content(),
            r.config == config,
    {
        config.into_app()
    }

    /// The form editing the todo read from the file at `filepath`.
    pub fn from_file(config: AppConfig, parsed: ParsedTodo, filepath: &str) -> (r: App)
        ensures
            r.config == config,
            r.view() == (AppView {
                state: StateView { status_message: Some("Loaded: "@ + filepath@), ..initial_state() },
                content: ContentView {
                    name: parsed.name@,
                    project_id: parsed.project_id@,
                    info: parsed.info@,
                    goal: parsed.goal@,
                    tasks: parsed_task_views(parsed),
                    note: parsed.note@,
                    history: parsed.history@,
                    saved_filepath: Some(filepath@),
                    original_id: Some(parsed.id@),
                    original_created: Some(parsed.created@),
                    original_project_id: Some(parsed.project_id@),
                    ..empty_content()
                },
                output_dir: config.output_dir@,
                projects: config.projects@,
            }),
    {
        let ghost p = parsed;
        let mut app = config.into_app();
        let mut tasks: Vec<Task> = Vec::new();
        let mut i: usize = 0;
        while i < parsed.tasks.len()
            invariant
                i <= parsed.tasks.len(),
                parsed == p,
                tasks@.len() == i,
                task_views(tasks@) =~= parsed_task_views(p).take(i as int),
            decreases parsed.tasks.len() - i,
        {
            let t = &parsed.tasks[i];
            let ghost before = tasks@;
            tasks.push(Task { text: t.text.clone(), completed: t.completed });
            proof {
                assert(task_views(tasks@) =~= task_views(before).push(tasks@[i as int].view()));
                assert(parsed_task_views(p).take(i + 1) =~= parsed_task_views(p).take(i as int).push(
                    parsed_task_views(p)[i as int],
                ));
            }
            i = i + 1;
        }
        assert(parsed_task_views(p).take(i as int) =~= parsed_task_views(p));
        let original_project_id = parsed.project_id.clone();
        app.content.name = parsed.name;
        app.content.project_id = parsed.project_id;
        app.content.info = parsed.info;
        app.content.goal = parsed.goal;
        app.content.tasks = tasks;
        app.content.note = parsed.note;
        app.content.history = parsed.history;
        app.content.saved_filepath = Some(string_from(to_chars(filepath).as_slice()));
        app.content.original_id = Some(parsed.id);
        app.content.original_created = Some(parsed.created);
        app.content.original_project_id = Some(original_project_id);
        let mut msg = string_from(to_chars("Loaded: ").as_slice());
        push_str(&mut msg, filepath);
        app.state.status_message = Some(msg);
        assert(app.view().content =~= (ContentView {
            name: p.name@,
            project_id: p.project_id@,
            info: p.info@,
            goal: p.goal@,
            tasks: parsed_task_views(p),
            note: p.note@,
            history: p.history@,
            saved_filepath: Some(filepath@),
            original_id: Some(p.id@),
            original_created: Some(p.created@),
            original_project_id: Some(p.project_id@),
            ..empty_content()
        }));
        app
    }

    /// The form filled from a JSON description: given fields replace the
    /// empty ones; tasks start open.
    pub fn from_json(config: AppConfig, input: JsonInput) -> (r: App)
        ensures
            r.config == config,
            r.view() == (AppView {
                state: StateView { status_message: Some("Loaded from JSON"@), ..initial_state() },
                content: ContentView {
                    name: opt_text(input.name),
                    project_id: opt_text(input.project_id),
                    info: opt_text(input.info),
                    goal: opt_text(input.goal),
                    tasks: match input.tasks {
                        Some(ts) => ts@.map_values(|t: String| TaskView { text: t@, completed: false }),
                        None => Seq::empty(),
                    },
                    note: opt_text(input.note),
                    ..empty_content()
                },
                output_dir: config.output_dir@,
                projects: config.projects@,
            }),
    {
        let ghost inp = input;
        let mut app = config.into_app();
        if let Some(name) = input.name {
            app.content.name = name;
        }
        if let Some(project_id) = input.project_id {
            app.content.project_id = project_id;
        }
        if let Some(info) = input.info {
            app.content.info = info;
        }
        if let Some(goal) = input.goal {
            app.content.goal = goal;
        }
        if let Some(texts) = input.tasks {
            let ghost ts = texts;
            let mut tasks: Vec<Task> = Vec::new();
            let mut i: usize = 0;
            while i < texts.len()
                invariant
                    i <= texts.len(),
                    texts == ts,
                    tasks@.len() == i,
                    task_views(tasks@) =~= ts@.take(i as int).map_values(
                        |t: String| TaskView { text: t@, completed: false },
                    ),
                decreases texts.len() - i,
            {
                let ghost before = tasks@;
                tasks.push(Task { text: texts[i].clone(), completed: false });
                proof {
                    assert(task_views(tasks@) =~= task_views(before).push(tasks@[i as int].view()));
                    let f = |t: String| TaskView { text: t@, completed: false };
                    assert(ts@.take(i + 1).map_values(f) =~= ts@.take(i as int).map_values(f).push(
                        f(ts@[i as int]),
                    ));
                }
                i = i + 1;
            }
            assert(ts@.take(i as int) =~= ts@);
            app.content.tasks = tasks;
        }
        if let Some(note) = input.note {
            app.content.note = note;
        }
        app.state.status_message = Some(string_from(to_chars("Loaded from JSON").as_slice()));
        assert(app.view().content =~= (ContentView {
            name: opt_text(inp.name),
            project_id: opt_text(inp.project_id),
            info: opt_text(inp.info),
            goal: opt_text(inp.goal),
            tasks: match inp.tasks {
                Some(ts) => ts@.map_values(|t: String| TaskView { text: t@, completed: false }),
                None => Seq::empty(),
            },
            note: opt_text(inp.note),
            ..empty_content()
        }));
        app
    }
}

/// The text of an optional field, empty when absent.
pub open spec fn opt_text(o: Option<String>) -> Seq<char> {
    match o {
        Some(s) => s@,
        None => Seq::empty(),
    }
}

} // verus!
