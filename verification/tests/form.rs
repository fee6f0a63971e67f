use tedtui::app::{App, AppConfig, Effect, InputField, JsonInput, Key, KeyCode, MoveError};
use tedtui::filestorage::Project;
use tedtui::parser::{ParsedTodo, Task};

fn key(code: KeyCode) -> Key {
    Key { code, ctrl: false }
}

fn ctrl(c: char) -> Key {
    Key { code: KeyCode::Char(c), ctrl: true }
}

fn projects() -> Vec<Project> {
    vec![
        Project {
            id: "P00002".to_string(),
            shorthand: Some("ADM".to_string()),
            name: "Admin".to_string(),
            filepath: "p2.md".to_string(),
        },
        Project {
            id: "P00003".to_string(),
            shorthand: None,
            name: "Plain".to_string(),
            filepath: "p3.md".to_string(),
        },
    ]
}

fn new_app() -> App {
    App::new(AppConfig::new("/home/ted/.ted/todos".to_string(), projects()))
}

fn type_text(app: &mut App, text: &str) {
    for c in text.chars() {
        app.handle_key_at(key(KeyCode::Char(c)), "t");
    }
}

#[test]
fn tab_visits_every_field_and_back() {
    let mut app = new_app();
    let order = [
        InputField::ProjectId,
        InputField::Info,
        InputField::Goal,
        InputField::Tasks,
        InputField::TaskList,
        InputField::Note,
        InputField::Name,
    ];
    for f in order.iter() {
        app.handle_key_at(key(KeyCode::Tab), "t");
        assert_eq!(app.state.current_field, *f);
    }
    app.handle_key_at(key(KeyCode::Tab), "t");
    app.handle_key_at(key(KeyCode::BackTab), "t");
    assert_eq!(app.state.current_field, InputField::Name);
}

#[test]
fn typing_goes_to_the_focused_field() {
    let mut app = new_app();
    type_text(&mut app, "Groceries");
    assert_eq!(app.content.name, "Groceries");
    app.handle_key_at(key(KeyCode::Backspace), "t");
    assert_eq!(app.content.name, "Grocerie");
    app.handle_key_at(key(KeyCode::Tab), "t");
    type_text(&mut app, "P1");
    assert_eq!(app.content.project_id, "P1");
}

#[test]
fn tasks_are_added_toggled_and_deleted() {
    let mut app = new_app();
    for _ in 0..4 {
        app.handle_key_at(key(KeyCode::Tab), "t");
    }
    assert_eq!(app.state.current_field, InputField::Tasks);
    type_text(&mut app, "buy milk");
    app.handle_key_at(key(KeyCode::Enter), "t");
    type_text(&mut app, "   ");
    app.handle_key_at(key(KeyCode::Enter), "t");
    assert_eq!(app.content.tasks.len(), 1);
    assert_eq!(app.content.tasks[0].text, "buy milk");
    assert_eq!(app.content.current_task_input, "   ");
    app.content.current_task_input = String::new();
    type_text(&mut app, "call mum");
    app.handle_key_at(key(KeyCode::Enter), "t");
    app.handle_key_at(key(KeyCode::Tab), "t");
    assert_eq!(app.state.current_field, InputField::TaskList);
    assert_eq!(app.state.selected_task_index, Some(0));
    app.handle_key_at(key(KeyCode::Char(' ')), "01-01-2025_10:00:00");
    assert!(app.content.tasks[0].completed);
    assert_eq!(app.content.history, "01-01-2025_10:00:00, Completed task: buy milk");
    app.handle_key_at(key(KeyCode::Char(' ')), "later");
    assert!(!app.content.tasks[0].completed);
    assert_eq!(app.content.history, "01-01-2025_10:00:00, Completed task: buy milk");
    app.handle_key_at(key(KeyCode::Up), "t");
    assert_eq!(app.state.selected_task_index, Some(1));
    app.handle_key_at(key(KeyCode::Down), "t");
    assert_eq!(app.state.selected_task_index, Some(0));
    app.handle_key_at(key(KeyCode::Down), "t");
    app.handle_key_at(key(KeyCode::Delete), "t");
    assert_eq!(app.content.tasks.len(), 1);
    assert_eq!(app.state.selected_task_index, Some(0));
    app.handle_key_at(key(KeyCode::Delete), "t");
    assert!(app.content.tasks.is_empty());
    assert_eq!(app.state.selected_task_index, None);
}

#[test]
fn escape_and_ctrl_c_quit() {
    let mut app = new_app();
    app.handle_key_at(ctrl('c'), "t");
    assert!(app.state.quit);
    let mut app = new_app();
    app.handle_key_at(key(KeyCode::Esc), "t");
    assert!(app.state.quit);
}

#[test]
fn save_needs_a_name() {
    let mut app = new_app();
    assert_eq!(app.handle_key_at(ctrl('s'), "t"), Effect::Save);
    assert!(app.begin_save_at("now").is_none());
    assert_eq!(app.state.status_message, Some("Error: Name is required!".to_string()));
}

#[test]
fn saving_a_new_todo_clears_the_form() {
    let mut app = new_app();
    type_text(&mut app, "Groceries");
    app.handle_key_at(key(KeyCode::Tab), "t");
    type_text(&mut app, "P00002");
    let req = app.begin_save_at("01-01-2025_10:00:00").unwrap();
    assert_eq!(req.todo.name, "Groceries");
    assert_eq!(req.todo.project_shorthand, Some("ADM".to_string()));
    assert_eq!(req.todo.history, "01-01-2025_10:00:00, Created");
    assert!(req.todo.target_filepath.is_none());
    app.finish_save(req, Ok("/home/ted/.ted/todos/ADM001_groceries.md".to_string()));
    assert_eq!(app.content.name, "");
    assert_eq!(app.state.current_field, InputField::Name);
    assert_eq!(
        app.state.status_message,
        Some("\u{2713} Saved to: /home/ted/.ted/todos/ADM001_groceries.md".to_string())
    );
}

#[test]
fn failed_save_reports_the_error() {
    let mut app = new_app();
    type_text(&mut app, "X");
    let req = app.begin_save_at("now").unwrap();
    app.finish_save(req, Err("disk full".to_string()));
    assert_eq!(app.content.name, "X");
    assert_eq!(app.state.status_message, Some("\u{2717} Error saving: disk full".to_string()));
}

fn loaded_app() -> App {
    let parsed = ParsedTodo {
        name: "Fix bike".to_string(),
        project_id: "P00002".to_string(),
        info: String::new(),
        goal: "ride again".to_string(),
        tasks: vec![
            Task { text: "buy tube".to_string(), completed: true },
            Task { text: "patch".to_string(), completed: false },
        ],
        note: String::new(),
        history: "h".to_string(),
        id: "ADM115".to_string(),
        created: "01-01-2024_08:00:00".to_string(),
    };
    App::from_file(
        AppConfig::new("/home/ted/.ted/todos".to_string(), projects()),
        parsed,
        "/home/ted/.ted/todos/ADM115_fix_bike.md",
    )
}

#[test]
fn loading_a_file_fills_the_form() {
    let app = loaded_app();
    assert_eq!(app.content.name, "Fix bike");
    assert_eq!(app.content.tasks.len(), 2);
    assert!(app.content.tasks[0].completed);
    assert_eq!(app.content.saved_filepath, Some("/home/ted/.ted/todos/ADM115_fix_bike.md".to_string()));
    assert_eq!(app.content.original_id, Some("ADM115".to_string()));
    assert_eq!(app.state.status_message, Some("Loaded: /home/ted/.ted/todos/ADM115_fix_bike.md".to_string()));
}

#[test]
fn changing_the_project_keeps_the_number() {
    let mut app = loaded_app();
    app.content.project_id = "P00003".to_string();
    let req = app.begin_save_at("now").unwrap();
    assert!(req.project_changed);
    assert_eq!(req.todo.target_filepath, Some("/home/ted/.ted/todos/T00115_fix_bike.md".to_string()));
    assert_eq!(req.updated_id, Some("T00115".to_string()));
    assert_eq!(req.todo.existing_created, Some("01-01-2024_08:00:00".to_string()));
}

#[test]
fn move_to_done_asks_when_tasks_are_open() {
    let mut app = loaded_app();
    assert_eq!(app.handle_key_at(ctrl('d'), "t"), Effect::Continue);
    assert!(app.state.show_complete_confirmation);
    assert_eq!(app.handle_key_at(key(KeyCode::Char('n')), "t"), Effect::Continue);
    assert!(!app.state.show_complete_confirmation);
    assert!(!app.content.tasks[1].completed);
    assert_eq!(app.state.status_message, Some("Move cancelled.".to_string()));
    app.handle_key_at(ctrl('d'), "t");
    assert_eq!(app.handle_key_at(key(KeyCode::Char('y')), "t"), Effect::MoveToDone);
    assert!(app.content.tasks.iter().all(|t| t.completed));
}

#[test]
fn move_to_done_needs_a_saved_file() {
    let mut app = new_app();
    assert_eq!(app.handle_key_at(ctrl('d'), "t"), Effect::Continue);
    assert_eq!(
        app.state.status_message,
        Some("Save the file first before moving to done.".to_string())
    );
}

#[test]
fn project_selector_picks_a_project() {
    let mut app = new_app();
    app.handle_key_at(key(KeyCode::Tab), "t");
    app.handle_key_at(ctrl('p'), "t");
    assert!(app.state.show_project_selector);
    assert_eq!(app.state.selected_project_index, Some(0));
    app.handle_key_at(key(KeyCode::Down), "t");
    app.handle_key_at(key(KeyCode::Enter), "t");
    assert!(!app.state.show_project_selector);
    assert_eq!(app.content.project_id, "P00003");
}

#[test]
fn json_input_fills_the_form() {
    let input = JsonInput {
        name: Some("From inbox".to_string()),
        project_id: None,
        info: Some("From inbox (2025)".to_string()),
        goal: Some("goal".to_string()),
        tasks: Some(vec!["a".to_string(), "b".to_string()]),
        note: None,
    };
    let app = App::from_json(AppConfig::new("/o".to_string(), Vec::new()), input);
    assert_eq!(app.content.name, "From inbox");
    assert_eq!(app.content.project_id, "");
    assert_eq!(app.content.tasks.len(), 2);
    assert!(!app.content.tasks[1].completed);
    assert_eq!(app.state.status_message, Some("Loaded from JSON".to_string()));
}

#[test]
fn clock_stamped_save_and_move_requests() {
    let mut app = loaded_app();
    let req = app.begin_save().unwrap();
    assert!(!req.project_changed);
    assert_eq!(req.old_filepath, Some("/home/ted/.ted/todos/ADM115_fix_bike.md".to_string()));
    assert_eq!(req.updated_id, Some("ADM115".to_string()));
    assert!(app.content.history.ends_with(", Updated"));

    let mut app = loaded_app();
    let req = app.begin_move_to_done(true, "/home/ted/.ted/done").ok().flatten().unwrap();
    assert_eq!(req.filename, "ADM115_fix_bike.md");
    assert_eq!(req.dest, "/home/ted/.ted/done/ADM115_fix_bike.md");
    assert_eq!(req.todo.target_filepath, Some(req.dest.clone()));
    assert!(app.content.completed_timestamp.is_some());
    assert_eq!(req.todo.completed, app.content.completed_timestamp);

    let mut app = loaded_app();
    assert!(matches!(app.begin_move_to_done(false, "/d"), Err(MoveError::SourceNotFound)));
    let mut app = new_app();
    assert!(matches!(app.begin_move_to_done(true, "/d"), Ok(None)));
}

#[test]
fn which_files_go_after_save_and_move() {
    let mut app = loaded_app();
    app.content.project_id = "P00003".to_string();
    let req = app.begin_save_at("now").unwrap();
    let target = req.todo.target_filepath.clone().unwrap();
    assert_eq!(req.stale_file(&target), Some("/home/ted/.ted/todos/ADM115_fix_bike.md".to_string()));
    assert_eq!(req.stale_file("/home/ted/.ted/todos/ADM115_fix_bike.md"), None);
    let mut same = loaded_app();
    let req = same.begin_save_at("now").unwrap();
    assert!(!req.project_changed);
    assert_eq!(req.stale_file("/elsewhere.md"), None);

    let mut app = loaded_app();
    let req = app.begin_move_to_done_at(true, "/home/ted/.ted/done", "t").ok().flatten().unwrap();
    assert!(req.remove_source);
    assert_eq!(req.source, "/home/ted/.ted/todos/ADM115_fix_bike.md");
    let mut app = loaded_app();
    let req = app.begin_move_to_done_at(true, "/home/ted/.ted/todos", "t").ok().flatten().unwrap();
    assert!(!req.remove_source);
}

fn shaped(stamp: &str, sep: char) -> bool {
    let c: Vec<char> = stamp.chars().collect();
    let n = c.len();
    let d = |i: usize| c[i].is_ascii_digit();
    n >= 19
        && d(0) && d(1) && c[2] == '-' && d(3) && d(4) && c[5] == '-'
        && c[6..n - 9].iter().all(|x| x.is_ascii_digit())
        && c[n - 9] == sep
        && d(n - 8) && d(n - 7) && c[n - 6] == ':' && d(n - 5) && d(n - 4) && c[n - 3] == ':'
        && d(n - 2) && d(n - 1)
}

#[test]
fn clock_stamps_have_the_date_shape() {
    let mut app = loaded_app();
    app.begin_save().unwrap();
    let entry = app.content.history.lines().last().unwrap().to_string();
    let stamp = entry.strip_suffix(", Updated").unwrap();
    assert!(shaped(stamp, ' '));
    let mut app = loaded_app();
    app.begin_move_to_done(true, "/d").ok().flatten().unwrap();
    assert!(shaped(app.content.completed_timestamp.as_deref().unwrap(), '_'));
}
