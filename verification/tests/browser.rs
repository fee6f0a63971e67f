use tedtui::browser::{Browser, BrowserCode, BrowserKey, Focus, Modifiers, ViewAction};
use tedtui::filestorage::Project;
use tedtui::highlight::highlight_segments;
use tedtui::parser::{ParsedTodo, Task};
use tedtui::tedlist::{
    completed_file_content, help_keys, obsidian_command, parse_inbox_content, search_matches,
    sort_groups, BacklogStore, NoteFile, SortMode, TodoStore,
};

fn project(id: &str, name: &str) -> Project {
    Project { id: id.to_string(), shorthand: None, name: name.to_string(), filepath: format!("{}.md", id) }
}

fn todo(name: &str, pid: &str, done: &[bool]) -> ParsedTodo {
    ParsedTodo {
        name: name.to_string(),
        project_id: pid.to_string(),
        info: String::new(),
        goal: String::new(),
        tasks: done
            .iter()
            .enumerate()
            .map(|(i, d)| Task { text: format!("task {}", i), completed: *d })
            .collect(),
        note: String::new(),
        history: String::new(),
        id: String::new(),
        created: String::new(),
    }
}

fn projects() -> Vec<Project> {
    vec![project("P1", "Zeta"), project("P2", "Alpha"), project("P3", "Empty")]
}

fn files() -> Vec<(String, ParsedTodo)> {
    vec![
        ("t/c.md".to_string(), todo("charlie", "P1", &[true])),
        ("t/a.md".to_string(), todo("alpha", "P2", &[false, true])),
        ("t/b.md".to_string(), todo("bravo", "", &[])),
        ("t/d.md".to_string(), todo("delta", "P9", &[true, true])),
        ("t/e.md".to_string(), todo("echo", "P1", &[])),
    ]
}

fn names(ts: &[tedtui::tedlist::TodoFile]) -> Vec<&str> {
    ts.iter().map(|t| t.parsed.name.as_str()).collect()
}

#[test]
fn store_groups_by_project_sorted_by_name() {
    let store = TodoStore::build(&projects(), &files());
    let groups: Vec<&str> = store.groups.iter().map(|g| g.project.name.as_str()).collect();
    assert_eq!(groups, vec!["Alpha", "Empty", "Zeta"]);
    assert_eq!(names(&store.groups[2].todos), vec!["charlie", "echo"]);
    assert_eq!(names(&store.groups[0].todos), vec!["alpha"]);
    assert!(store.groups[1].todos.is_empty());
    assert_eq!(names(&store.unassigned), vec!["bravo", "delta"]);
    assert_eq!(names(&store.all_todos), vec!["alpha", "bravo", "charlie", "delta", "echo"]);
    assert_eq!(store.groups[2].todos[0].project_tag, Some("Zeta".to_string()));
    assert_eq!(store.unassigned[1].project_tag, None);
}

#[test]
fn store_entries_hide_empty_projects() {
    let store = TodoStore::build(&projects(), &files());
    let e = store.entries(false);
    let e: Vec<(&str, usize)> = e.iter().map(|(n, c)| (n.as_str(), *c)).collect();
    assert_eq!(e, vec![("All Todos", 5), ("Alpha", 1), ("Zeta", 2), ("Unassigned", 2)]);
    assert_eq!(store.entries(true).len(), 5);
    assert_eq!(store.name_for(2, false), "Zeta");
    assert_eq!(store.name_for(2, true), "Empty");
    assert_eq!(store.name_for(3, false), "Unassigned");
    assert_eq!(names(store.todos_for(2, false)), vec!["charlie", "echo"]);
    assert_eq!(names(store.todos_for(0, false)).len(), 5);
}

#[test]
fn backlog_keeps_the_project_order() {
    let backlog = BacklogStore::build(&projects(), &files());
    let e = backlog.entries();
    let e: Vec<(&str, usize)> = e.iter().map(|(n, c)| (n.as_str(), *c)).collect();
    assert_eq!(e, vec![("Backlog", 5), ("Zeta", 2), ("Alpha", 1), ("Empty", 0), ("Unassigned", 2)]);
    assert_eq!(backlog.name_for(0), "Backlog");
    assert_eq!(names(backlog.todos_for(1)), vec!["charlie", "echo"]);
}

#[test]
fn todo_file_status() {
    let store = TodoStore::build(&projects(), &files());
    let charlie = &store.groups[2].todos[0];
    assert!(charlie.is_complete());
    assert_eq!(charlie.status_indicator(), "\u{2713}");
    assert_eq!(charlie.completion_summary(), Some("1/1".to_string()));
    let alpha = &store.groups[0].todos[0];
    assert!(!alpha.is_complete());
    assert_eq!(alpha.status_indicator(), " ");
    assert_eq!(alpha.completion_summary(), Some("1/2".to_string()));
    let bravo = &store.unassigned[0];
    assert!(!bravo.is_complete());
    assert_eq!(bravo.completion_summary(), None);
}

#[test]
fn list_rows_and_tags() {
    let store = TodoStore::build(&projects(), &files());
    let charlie = &store.groups[2].todos[0];
    assert_eq!(charlie.row_text(), "\u{2713} charlie [1/1]");
    assert_eq!(charlie.tag_label(), "[Zeta      ]");
    assert_eq!(charlie.done_tasks(), 1);
    let alpha = &store.groups[0].todos[0];
    assert_eq!(alpha.row_text(), "  alpha [1/2]");
    assert_eq!(alpha.done_tasks(), 1);
    let bravo = &store.unassigned[0];
    assert_eq!(bravo.row_text(), "  bravo");
    assert_eq!(bravo.tag_label(), "[?         ]");
    let mut long = bravo.copy();
    long.project_tag = Some("Administration".to_string());
    assert_eq!(long.tag_label(), "[Adminis...]");
    long.project_tag = Some("Gr\u{fc}\u{df}e".to_string());
    assert_eq!(long.tag_label(), "[Gr\u{fc}\u{df}e     ]");
    long.project_tag = Some("\u{65e5}\u{672c}\u{8a9e}\u{65e5}".to_string());
    assert_eq!(long.tag_label(), "[\u{65e5}\u{672c}\u{8a9e}\u{65e5}...]");
}

#[test]
fn overview_counts_the_listed_todos() {
    let b = browser();
    let o = b.overview().unwrap();
    assert_eq!(o.todos, 5);
    assert_eq!(o.completed, 2);
    assert_eq!(o.in_progress, 1);
    assert_eq!(o.no_tasks, 2);
    assert_eq!(o.tasks, 5);
    assert_eq!(o.done, 4);
}

fn pieces(line: &str, query: &str) -> Option<Vec<(String, bool)>> {
    highlight_segments(line, query)
}

fn owned(v: &[(&str, bool)]) -> Vec<(String, bool)> {
    v.iter().map(|(s, m)| (s.to_string(), *m)).collect()
}

#[test]
fn search_matches_are_marked() {
    assert_eq!(
        pieces("Hello World hello", "HELLO"),
        Some(owned(&[("Hello", true), (" World ", false), ("hello", true)]))
    );
    assert_eq!(pieces("abc", ""), Some(owned(&[("abc", false)])));
    assert_eq!(pieces("xyz", "q"), Some(owned(&[("xyz", false)])));
    assert_eq!(pieces("aaaa", "aa"), Some(owned(&[("aa", true), ("aa", true)])));
    assert_eq!(pieces("", "a"), Some(Vec::new()));
    assert_eq!(pieces("\u{fc}ber Ding", "ding"), Some(owned(&[("\u{fc}ber ", false), ("Ding", true)])));
    // The lower-cased line is longer than the line: the cut falls past its end.
    assert_eq!(pieces("\u{130}x", "x"), None);
}

#[test]
fn sorting_modes() {
    let store = TodoStore::build(&projects(), &files());
    let most = sort_groups(&store.groups, SortMode::MostTodos);
    let most: Vec<&str> = most.iter().map(|g| g.project.name.as_str()).collect();
    assert_eq!(most, vec!["Zeta", "Alpha", "Empty"]);
    let least = sort_groups(&store.groups, SortMode::LeastTodos);
    let least: Vec<&str> = least.iter().map(|g| g.project.name.as_str()).collect();
    assert_eq!(least, vec!["Empty", "Alpha", "Zeta"]);
    assert_eq!(SortMode::Alpha.next(), SortMode::MostTodos);
    assert_eq!(SortMode::LeastTodos.next(), SortMode::Alpha);
}

#[test]
fn fuzzy_search() {
    assert!(search_matches(true, "frm", "Fix Radio Mast"));
    assert!(search_matches(true, "FIX", "fix"));
    assert!(!search_matches(true, "xf", "fix"));
    assert!(search_matches(false, "zzz", "fix"));
    assert!(search_matches(true, "", "fix"));
}

#[test]
fn inbox_notes_become_todos() {
    let content = "---\ntimestamp: 2025-01-02 \n---\n# Call the plumber \nleaking tap\n\nkitchen\n";
    let (name, goal, info) = parse_inbox_content(content, "fallback");
    assert_eq!(name, "Call the plumber");
    assert_eq!(goal, "leaking tap\n\nkitchen");
    assert_eq!(info, "From inbox (2025-01-02)");
    let (name, goal, info) = parse_inbox_content("just text", "fallback");
    assert_eq!(name, "fallback");
    assert_eq!(goal, "");
    assert_eq!(info, "");
}

#[test]
fn completing_a_file() {
    let content = "---\ncompleted: null\nid: T1\n---\n# x\n- [ ] a\n- [x] b";
    assert_eq!(
        completed_file_content(content, "NOW"),
        "---\ncompleted: NOW\nid: T1\n---\n# x\n- [x] a\n- [x] b"
    );
    assert_eq!(
        completed_file_content("---\nid: T1\n---\n- [ ] a", "NOW"),
        "---\ncompleted: NOW\nid: T1\n---\n- [x] a"
    );
    assert_eq!(completed_file_content("# plain", "NOW"), "---\ncompleted: NOW\n---\n# plain");
}

#[test]
fn obsidian_command_escapes_the_text() {
    let cmd = obsidian_command("# Title\nsay \"hi\" $HOME `x` \\", "file");
    assert_eq!(
        cmd,
        "obsidian vault=\"TomtomsVault\" create name=\"Title\" content=\"# Title\nsay \\\"hi\\\" \\$HOME \\`x\\` \\\\\" path=\"Zettelkasten/\" open"
    );
    let plain = obsidian_command("no heading", "file");
    assert!(plain.contains("name=\"file\""));
}

#[test]
fn help_lines() {
    assert_eq!(help_keys(1), vec![("Ctrl+E", "Edit")]);
    assert_eq!(help_keys(0).len(), 8);
    assert_eq!(help_keys(3)[2], ("Ctrl+B", "Todos"));
}

fn note(name: &str, content: &str) -> NoteFile {
    NoteFile { path: format!("/n/{}.md", name), name: name.to_string(), content: content.to_string() }
}

fn browser() -> Browser {
    let store = TodoStore::build(&projects(), &files());
    let backlog = BacklogStore::build(&projects(), &Vec::new());
    Browser::new(
        store,
        backlog,
        vec![note("plan-a", "alpha plan"), note("plan-b", "beta plan")],
        vec![note("inbox-1", "# Idea\nmore")],
        "/home/ted".to_string(),
    )
}

fn press(b: &mut Browser, code: BrowserCode) -> ViewAction {
    b.handle_key(BrowserKey { code, mods: Modifiers::Plain })
}

fn press_ctrl(b: &mut Browser, c: char) -> ViewAction {
    b.handle_key(BrowserKey { code: BrowserCode::Char(c), mods: Modifiers::Control })
}

#[test]
fn sidebar_lines_and_navigation() {
    let mut b = browser();
    assert_eq!(b.left_len(), 8);
    let items = b.left_items();
    assert_eq!(items[0], ("\u{25bc} Projects".to_string(), true));
    assert_eq!(items[1], ("    All Todos (5)".to_string(), false));
    assert_eq!(items[5], ("\u{25b6} Plans".to_string(), false));
    press(&mut b, BrowserCode::Down);
    press(&mut b, BrowserCode::Down);
    press(&mut b, BrowserCode::Down);
    assert_eq!(b.selected_left, 3);
    assert_eq!(b.panels[0].sidx, 2);
    assert_eq!(b.current_name(), "Zeta");
    press(&mut b, BrowserCode::Enter);
    assert_eq!(b.focus, Focus::Content);
    let names: Vec<&str> = b.current_todos().iter().map(|t| t.parsed.name.as_str()).collect();
    assert_eq!(names, vec!["charlie", "echo"]);
    press(&mut b, BrowserCode::Down);
    assert_eq!(b.real_content_idx(), 1);
    press(&mut b, BrowserCode::Down);
    assert_eq!(b.real_content_idx(), 1);
    match press_ctrl(&mut b, 'e') {
        ViewAction::EditInTedtui(p) => assert_eq!(p, "t/e.md"),
        _ => panic!("expected an edit"),
    }
}

#[test]
fn panels_cycle() {
    let mut b = browser();
    for expected in [1usize, 2, 3, 0] {
        press(&mut b, BrowserCode::Char('p'));
        assert_eq!(b.panel_mode, expected);
        assert_eq!(b.selected_left, expected);
    }
    press(&mut b, BrowserCode::Char('q'));
    assert!(b.quit);
}

#[test]
fn completing_asks_when_tasks_are_open() {
    let mut b = browser();
    press(&mut b, BrowserCode::Down);
    press(&mut b, BrowserCode::Down);
    press(&mut b, BrowserCode::Enter);
    match press_ctrl(&mut b, 'd') {
        ViewAction::Idle => {},
        _ => panic!("expected a question"),
    }
    assert_eq!(b.confirm_complete, Some("t/a.md".to_string()));
    match press(&mut b, BrowserCode::Char('y')) {
        ViewAction::CompleteFile(p) => assert_eq!(p, "t/a.md"),
        _ => panic!("expected completion"),
    }
    assert_eq!(b.confirm_complete, None);
    match press_ctrl(&mut b, 'b') {
        ViewAction::MoveFile(p, d) => {
            assert_eq!(p, "t/a.md");
            assert_eq!(d, "/home/ted/.ted/backlog");
        },
        _ => panic!("expected a move"),
    }
}

#[test]
fn search_filters_the_sidebar() {
    let mut b = browser();
    press(&mut b, BrowserCode::Char('/'));
    assert!(b.search_active && b.search_typing);
    press(&mut b, BrowserCode::Char('z'));
    assert_eq!(b.search_query, "z");
    assert_eq!(b.mode_items(0), 1);
    assert_eq!(b.mode_sub_labels(0), vec!["Zeta (2)".to_string()]);
    assert_eq!(b.real_sidx(0), 2);
    press(&mut b, BrowserCode::Enter);
    assert!(!b.search_typing);
    assert_eq!(b.focus, Focus::Content);
    press(&mut b, BrowserCode::Esc);
    assert!(!b.search_active);
    assert_eq!(b.search_query, "");
}

#[test]
fn sorting_and_hiding_projects() {
    let mut b = browser();
    press(&mut b, BrowserCode::Char('s'));
    assert_eq!(b.sort_mode, SortMode::MostTodos);
    let groups: Vec<&str> = b.store.groups.iter().map(|g| g.project.name.as_str()).collect();
    assert_eq!(groups, vec!["Zeta", "Alpha", "Empty"]);
    press(&mut b, BrowserCode::Char('h'));
    assert!(b.show_empty_projects);
    assert_eq!(b.mode_items(0), 5);
}

#[test]
fn inbox_keys() {
    let mut b = browser();
    press(&mut b, BrowserCode::Char('p'));
    press(&mut b, BrowserCode::Char('p'));
    assert_eq!(b.panel_mode, 2);
    match press(&mut b, BrowserCode::Char('u')) {
        ViewAction::RunBackground(c) => assert_eq!(c, "ted inbox"),
        _ => panic!("expected the inbox command"),
    }
    match press(&mut b, BrowserCode::Char('o')) {
        ViewAction::RunObsidian(c) => assert!(c.contains("name=\"Idea\"")),
        _ => panic!("expected the obsidian command"),
    }
    press(&mut b, BrowserCode::Tab);
    press(&mut b, BrowserCode::Char('d'));
    assert_eq!(b.confirm_delete, Some("/n/inbox-1.md".to_string()));
    match press(&mut b, BrowserCode::Char('Y')) {
        ViewAction::DeleteFile(p) => assert_eq!(p, "/n/inbox-1.md"),
        _ => panic!("expected a delete"),
    }
}

#[test]
fn reload_keeps_the_selection() {
    let mut b = browser();
    press(&mut b, BrowserCode::Down);
    press(&mut b, BrowserCode::Down);
    press(&mut b, BrowserCode::Down);
    press(&mut b, BrowserCode::Enter);
    press(&mut b, BrowserCode::Down);
    let mut more = files();
    more.push(("t/aa.md".to_string(), todo("aaa", "P2", &[])));
    let store = TodoStore::build(&projects(), &more);
    let backlog = BacklogStore::build(&projects(), &Vec::new());
    b.reload(Some(store), backlog, Vec::new(), Vec::new());
    assert_eq!(b.current_name(), "Zeta");
    assert_eq!(b.panels[0].sidx, 2);
    assert_eq!(b.real_content_idx(), 1);
}
