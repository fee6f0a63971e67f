//! Properties of the form and of the storage that hold across operations.
use vstd::prelude::*;
use crate::app::{
    empty_content, field_after, finish_save, field_before, has_incomplete_tasks, mark_all_tasks_complete,
    move_project_selection_down, move_project_selection_up, move_task_selection_down,
    move_task_selection_up, next_field, press_key, previous_field, select_down, select_up, toggle_task_completion, AppView,
    Effect, InputField, Key, KeyCode,
};
use crate::filestorage::{captured_u32, max_captured, todo_file_pattern};
use crate::browser::{
    browser_inv, global_apply, header_position, is_header, left_len, mode_items, sub_index,
    BrowserView, GlobalAct,
};
use crate::tedlist::{is_subsequence, matches_search, next_sort_mode, SortMode};
use crate::browser::{current_todo, global_binding, ActionView, BrowserCode, BrowserKey, Focus, Modifiers};
use crate::paths::join_path;
use crate::text::lowercase;

verus! {

/// Shift+Tab undoes Tab and Tab undoes Shift+Tab: the focused field comes
/// back to where it was.
pub proof fn lemma_tab_round_trip(a: AppView)
    ensures
        previous_field(next_field(a)).state.current_field == a.state.current_field,
        next_field(previous_field(a)).state.current_field == a.state.current_field,
{
}

/// Seven presses of Tab visit every field once and come back to the first.
pub proof fn lemma_tab_cycle(f: InputField)
    ensures
        field_after(field_after(field_after(field_after(field_after(field_after(field_after(f)))))))
            == f,
        field_before(field_after(f)) == f,
        field_after(field_before(f)) == f,
{
}

/// In the task list, Up undoes Down and Down undoes Up while a task is
/// selected.
pub proof fn lemma_task_selection_round_trip(a: AppView)
    requires
        a.state.selected_task_index matches Some(i) && i < a.content.tasks.len(),
        a.content.tasks.len() <= usize::MAX,
    ensures
        move_task_selection_up(move_task_selection_down(a)) == a,
        move_task_selection_down(move_task_selection_up(a)) == a,
{
    let n = a.content.tasks.len();
    let sel = a.state.selected_task_index;
    assert(select_up(select_down(sel, n), n) == sel);
    assert(select_down(select_up(sel, n), n) == sel);
    assert(move_task_selection_up(move_task_selection_down(a)).state =~= a.state);
    assert(move_task_selection_down(move_task_selection_up(a)).state =~= a.state);
}

/// In the project selector, Up undoes Down and Down undoes Up while a
/// project is selected.
pub proof fn lemma_project_selection_round_trip(a: AppView)
    requires
        a.state.selected_project_index matches Some(i) && i < a.projects.len(),
        a.projects.len() <= usize::MAX,
    ensures
        move_project_selection_up(move_project_selection_down(a)) == a,
        move_project_selection_down(move_project_selection_up(a)) == a,
{
    let n = a.projects.len();
    let sel = a.state.selected_project_index;
    assert(select_up(select_down(sel, n), n) == sel);
    assert(select_down(select_up(sel, n), n) == sel);
    assert(move_project_selection_up(move_project_selection_down(a)).state =~= a.state);
    assert(move_project_selection_down(move_project_selection_up(a)).state =~= a.state);
}

/// Marking all tasks complete leaves none incomplete, keeps every task's
/// text, and doing it again changes nothing.
pub proof fn lemma_mark_all_complete(a: AppView)
    ensures
        !has_incomplete_tasks(mark_all_tasks_complete(a).content),
        mark_all_tasks_complete(a).content.tasks.len() == a.content.tasks.len(),
        forall|i: int|
            0 <= i < a.content.tasks.len() ==> (#[trigger] mark_all_tasks_complete(
                a,
            ).content.tasks[i]).text == a.content.tasks[i].text,
        mark_all_tasks_complete(mark_all_tasks_complete(a)) == mark_all_tasks_complete(a),
{
    let m = mark_all_tasks_complete(a);
    assert(mark_all_tasks_complete(m).content.tasks =~= m.content.tasks);
    assert(mark_all_tasks_complete(m).content =~= m.content);
}

/// Toggling the selected task twice gives every task its completion back.
pub proof fn lemma_toggle_twice(a: AppView, now1: Seq<char>, now2: Seq<char>)
    ensures
        toggle_task_completion(toggle_task_completion(a, now1), now2).content.tasks
            == a.content.tasks,
{
    let b = toggle_task_completion(a, now1);
    match a.state.selected_task_index {
        Some(i) => {
            if i < a.content.tasks.len() {
                assert(toggle_task_completion(b, now2).content.tasks =~= a.content.tasks);
            }
        },
        None => {},
    }
}

/// Ctrl+D on a saved todo with open tasks asks first; `y` then completes
/// every task and moves the todo, `n` moves nothing and keeps the tasks.
pub proof fn lemma_move_to_done_confirmation(a: AppView, now: Seq<char>)
    requires
        !a.state.show_complete_confirmation,
        !a.state.show_project_selector,
        !a.state.show_history_viewer,
        a.content.saved_filepath is Some,
        has_incomplete_tasks(a.content),
    ensures
        ({
            let (asked, e) = press_key(a, Key { code: KeyCode::Char('d'), ctrl: true }, now);
            &&& e == Effect::Continue
            &&& asked.state.show_complete_confirmation
            &&& asked.content == a.content
            &&& ({
                let (yes, e2) = press_key(asked, Key { code: KeyCode::Char('y'), ctrl: false }, now);
                &&& e2 == Effect::MoveToDone
                &&& !has_incomplete_tasks(yes.content)
                &&& !yes.state.show_complete_confirmation
            })
            &&& ({
                let (no, e3) = press_key(asked, Key { code: KeyCode::Char('n'), ctrl: false }, now);
                &&& e3 == Effect::Continue
                &&& no.content == a.content
                &&& !no.state.show_complete_confirmation
            })
        }),
{
    let (asked, e) = press_key(a, Key { code: KeyCode::Char('d'), ctrl: true }, now);
    let (yes, e2) = press_key(asked, Key { code: KeyCode::Char('y'), ctrl: false }, now);
    lemma_mark_all_complete(asked);
}

/// Saving clears the form only for a new todo: once a new todo is written
/// the form is empty for the next one; a todo that already had a file stays
/// in the form, now naming the file written; a failed write changes nothing
/// but the status line.
pub proof fn lemma_save_clears_only_new_todos(
    a: AppView,
    changed: bool,
    id: Option<Seq<char>>,
    path: Seq<char>,
    error: Seq<char>,
)
    ensures
        ({
            let b = finish_save(a, changed, id, a.content.saved_filepath, Ok(path));
            &&& a.content.saved_filepath is None ==> b.content == empty_content()
                && b.state.current_field == InputField::Name
            &&& a.content.saved_filepath is Some ==> {
                &&& b.content.name == a.content.name
                &&& b.content.project_id == a.content.project_id
                &&& b.content.info == a.content.info
                &&& b.content.goal == a.content.goal
                &&& b.content.tasks == a.content.tasks
                &&& b.content.note == a.content.note
                &&& b.content.history == a.content.history
                &&& b.content.saved_filepath == Some(path)
            }
        }),
        finish_save(a, changed, id, a.content.saved_filepath, Err(error)).content == a.content,
{
}

/// The id that `get_next_id` hands out is larger than every id of a todo
/// file, open or done: no two todos get the same number.
pub proof fn lemma_next_id_is_fresh(todo_names: Seq<Seq<char>>, done_names: Seq<Seq<char>>, n: Seq<char>)
    requires
        todo_names.contains(n) || done_names.contains(n),
        captured_u32(todo_file_pattern(), n) is Some,
    ensures
        captured_u32(todo_file_pattern(), n)->0 < vstd::math::max(
            max_captured(todo_file_pattern(), todo_names) as int,
            max_captured(todo_file_pattern(), done_names) as int,
        ) + 1,
{
    if todo_names.contains(n) {
        let i = choose|i: int| 0 <= i < todo_names.len() && todo_names[i] == n;
        crate::filestorage::lemma_max_captured_bounds(todo_file_pattern(), todo_names, i);
    } else {
        let i = choose|i: int| 0 <= i < done_names.len() && done_names[i] == n;
        crate::filestorage::lemma_max_captured_bounds(todo_file_pattern(), done_names, i);
    }
}

/// Every line of the sidebar is either the header of one panel, at the
/// line `header_position` gives, or an entry of the open panel, never
/// both.
pub proof fn lemma_sidebar_lines(v: BrowserView, idx: int)
    requires
        browser_inv(v),
        0 <= idx < left_len(v),
    ensures
        is_header(v, idx) is Some <==> sub_index(v, idx) is None,
        is_header(v, idx) matches Some(m) ==> 0 <= m < 4 && header_position(v, m) == idx,
        sub_index(v, idx) matches Some(k) ==> 0 <= k < mode_items(v, v.panel_mode as int),
{
}

/// The header of each panel is found where `header_position` puts it.
pub proof fn lemma_header_found(v: BrowserView, m: int)
    requires
        browser_inv(v),
        0 <= m < 4,
    ensures
        is_header(v, header_position(v, m)) == Some(m),
        0 <= header_position(v, m) < left_len(v),
{
}

/// Pressing `s` three times brings the projects back to name order.
pub proof fn lemma_sort_mode_cycle(m: SortMode)
    ensures
        next_sort_mode(next_sort_mode(next_sort_mode(m))) == m,
{
}

/// Pressing `p` four times opens the panel that was open before.
pub proof fn lemma_panel_cycle(v: BrowserView)
    requires
        browser_inv(v),
    ensures
        ({
            let a = global_apply(v, GlobalAct::CyclePanel).0;
            let b = global_apply(a, GlobalAct::CyclePanel).0;
            let c = global_apply(b, GlobalAct::CyclePanel).0;
            global_apply(c, GlobalAct::CyclePanel).0.panel_mode == v.panel_mode
        }),
{
}


// ---------------------------------------------------------------------------
// Search
// ---------------------------------------------------------------------------

/// The characters of `q` occur in `t` in the same order: there are
/// positions `f[0] < f[1] < ...` in `t` holding them.
pub open spec fn embeds(q: Seq<char>, t: Seq<char>) -> bool {
    exists|f: Seq<int>| #[trigger] embedding(f, q, t)
}

/// `f` gives, for each character of `q`, a position of `t` holding it,
/// the positions rising.
pub open spec fn embedding(f: Seq<int>, q: Seq<char>, t: Seq<char>) -> bool {
    &&& f.len() == q.len()
    &&& forall|i: int| 0 <= i < q.len() ==> 0 <= #[trigger] f[i] < t.len() && t[f[i]] == q[i]
    &&& forall|i: int, j: int| 0 <= i < j < q.len() ==> #[trigger] f[i] < #[trigger] f[j]
}

proof fn lemma_subsequence_embeds(q: Seq<char>, t: Seq<char>)
    ensures
        is_subsequence(q, t) <==> embeds(q, t),
    decreases t.len(),
{
    if q.len() == 0 {
        let f = Seq::<int>::empty();
        assert(embedding(f, q, t));
    } else if t.len() == 0 {
        if embeds(q, t) {
            let f = choose|f: Seq<int>| embedding(f, q, t);
            assert(f.len() == q.len());
            assert(q.len() > 0);
            assert(0 <= f[0]);
            assert(f[0] < t.len());
        }
    } else if q[0] == t[0] {
        let q1 = q.drop_first();
        let t1 = t.drop_first();
        lemma_subsequence_embeds(q1, t1);
        if is_subsequence(q1, t1) {
            let g = choose|g: Seq<int>| embedding(g, q1, t1);
            let f = seq![0int] + g.map_values(|x: int| x + 1);
            assert(f.len() == q.len());
            assert forall|i: int| 0 <= i < q.len() implies 0 <= #[trigger] f[i] < t.len() && t[f[i]] == q[i] by {
                if i > 0 {
                    assert(f[i] == g[i - 1] + 1);
                    assert(t[f[i]] == t1[g[i - 1]]);
                }
            }
            assert forall|i: int, j: int| 0 <= i < j < q.len() implies #[trigger] f[i] < #[trigger] f[j] by {
                assert(f[j] == g[j - 1] + 1);
                if i > 0 {
                    assert(f[i] == g[i - 1] + 1);
                    assert(g[i - 1] < g[j - 1]);
                } else {
                    assert(0 <= g[j - 1]);
                }
            }
            assert(embedding(f, q, t));
        }
        if embeds(q, t) {
            let f = choose|f: Seq<int>| embedding(f, q, t);
            let g = f.drop_first().map_values(|x: int| x - 1);
            assert(g.len() == q1.len());
            assert forall|i: int| 0 <= i < q1.len() implies 0 <= #[trigger] g[i] < t1.len() && t1[g[i]] == q1[i] by {
                assert(f[0] < f[i + 1]);
                assert(g[i] == f[i + 1] - 1);
            }
            assert forall|i: int, j: int| 0 <= i < j < q1.len() implies #[trigger] g[i] < #[trigger] g[j] by {
                assert(f[i + 1] < f[j + 1]);
            }
            assert(embedding(g, q1, t1));
        }
    } else {
        let t1 = t.drop_first();
        lemma_subsequence_embeds(q, t1);
        if is_subsequence(q, t1) {
            let g = choose|g: Seq<int>| embedding(g, q, t1);
            let f = g.map_values(|x: int| x + 1);
            assert(f.len() == q.len());
            assert forall|i: int| 0 <= i < q.len() implies 0 <= #[trigger] f[i] < t.len() && t[f[i]] == q[i] by {
                assert(f[i] == g[i] + 1);
                assert(t[f[i]] == t1[g[i]]);
            }
            assert forall|i: int, j: int| 0 <= i < j < q.len() implies #[trigger] f[i] < #[trigger] f[j] by {
                assert(g[i] < g[j]);
            }
            assert(embedding(f, q, t));
        }
        if embeds(q, t) {
            let f = choose|f: Seq<int>| embedding(f, q, t);
            assert(f[0] != 0) by {
                assert(t[f[0]] == q[0]);
            }
            let g = f.map_values(|x: int| x - 1);
            assert forall|i: int| 0 <= i < q.len() implies 0 <= #[trigger] g[i] < t1.len() && t1[g[i]] == q[i] by {
                if i > 0 {
                    assert(f[0] < f[i]);
                }
                assert(g[i] == f[i] - 1);
            }
            assert forall|i: int, j: int| 0 <= i < j < q.len() implies #[trigger] g[i] < #[trigger] g[j] by {
                assert(f[i] < f[j]);
            }
            assert(g.len() == q.len());
            assert(embedding(g, q, t1));
        }
    }
}

/// An active, non-empty search lists a text exactly when the characters of
/// the lower-cased query occur, in order, in the lower-cased text, wherever
/// the first of them stands.
pub proof fn lemma_search_is_in_order_match(query: Seq<char>, text: Seq<char>)
    requires
        query.len() > 0,
    ensures
        matches_search(true, query, text) <==> embeds(lowercase(query), lowercase(text)),
{
    lemma_subsequence_embeds(lowercase(query), lowercase(text));
}

/// A text whose lower-cased form ends with the lower-cased query matches
/// it, whatever comes before.
pub proof fn lemma_search_finds_a_trailing_query(query: Seq<char>, text: Seq<char>, before: Seq<char>)
    requires
        lowercase(text) == before + lowercase(query),
    ensures
        matches_search(true, query, text),
{
    if query.len() > 0 {
        let q = lowercase(query);
        let t = lowercase(text);
        let f = Seq::new(q.len(), |i: int| before.len() + i);
        assert(f.len() == q.len());
        assert forall|i: int| 0 <= i < q.len() implies 0 <= #[trigger] f[i] < t.len() && t[f[i]] == q[i] by {
            assert(t[before.len() + i] == q[i]);
        }
        assert forall|i: int, j: int| 0 <= i < j < q.len() implies #[trigger] f[i] < #[trigger] f[j] by {}
        assert(embedding(f, q, t));
        lemma_search_is_in_order_match(query, text);
    }
}

// ---------------------------------------------------------------------------
// Deleting a task
// ---------------------------------------------------------------------------

/// Delete in the task list removes the selected task and only it: the
/// tasks before it stay where they are, those after it move up by one, and
/// nothing else of the todo changes.
pub proof fn lemma_delete_removes_the_selected_task(a: AppView, now: Seq<char>, i: usize)
    requires
        !a.state.show_complete_confirmation,
        !a.state.show_project_selector,
        !a.state.show_history_viewer,
        a.state.current_field == InputField::TaskList,
        a.state.selected_task_index == Some(i),
        i < a.content.tasks.len(),
    ensures
        ({
            let (b, e) = press_key(a, Key { code: KeyCode::Delete, ctrl: false }, now);
            &&& e == Effect::Continue
            &&& b.content.tasks.len() + 1 == a.content.tasks.len()
            &&& forall|j: int| 0 <= j < i ==> #[trigger] b.content.tasks[j] == a.content.tasks[j]
            &&& forall|j: int| i <= j < b.content.tasks.len() ==> #[trigger] b.content.tasks[j]
                == a.content.tasks[j + 1]
            &&& b.content.name == a.content.name
            &&& b.content.history == a.content.history
            &&& b.content.saved_filepath == a.content.saved_filepath
            &&& b.state.selected_task_index == if b.content.tasks.len() == 0 {
                None
            } else if i < b.content.tasks.len() {
                Some(i)
            } else {
                Some((b.content.tasks.len() - 1) as usize)
            }
        }),
{
}

// ---------------------------------------------------------------------------
// Moving between todos and backlog
// ---------------------------------------------------------------------------

/// Ctrl+B moves the selected todo out of the list it is shown in: from the
/// backlog panel to `<home>/.ted/todos`, from the projects panel to
/// `<home>/.ted/backlog`, never to the folder it is listed from.
pub proof fn lemma_backlog_key_moves_out(v: BrowserView)
    requires
        browser_inv(v),
        v.focus == Focus::Content,
        v.panel_mode == 0 || v.panel_mode == 3,
        current_todo(v) is Some,
    ensures
        global_binding(BrowserKey { code: BrowserCode::Char('b'), mods: Modifiers::Control })
            == Some(GlobalAct::Backlog),
        ({
            let ted = join_path(v.home, ".ted"@);
            let (here, there) = if v.panel_mode == 3 {
                ("backlog"@, "todos"@)
            } else {
                ("todos"@, "backlog"@)
            };
            &&& global_apply(v, GlobalAct::Backlog) == (v, Some(
                ActionView::MoveFile(current_todo(v)->0.path, join_path(ted, there)),
            ))
            &&& join_path(ted, there) != join_path(ted, here)
        }),
{
    reveal_strlit(".ted");
    reveal_strlit("todos");
    reveal_strlit("backlog");
    let ted = join_path(v.home, ".ted"@);
    assert(ted.len() > 0);
    assert(join_path(ted, "todos"@).len() != join_path(ted, "backlog"@).len());
}

} // verus!
