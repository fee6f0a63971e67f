use tedtui::filestorage::FileStorage;
use tedtui::markdown::TodoData;
use tedtui::parser::{parse_markdown, unescape_yaml_string};

fn unicode_todo() -> TodoData {
    TodoData {
        name: "Test mit Ümläuten".to_string(),
        project_id: String::new(),
        info: String::new(),
        project_shorthand: None,
        goal: "Schöne Grüße aus München".to_string(),
        tasks: vec![
            "[ ] Äpfel kaufen".to_string(),
            "[ ] Über Brücke gehen".to_string(),
            "[x] Tschüss sagen".to_string(),
        ],
        note: "Café, naïve, 日本語, emoji: 🎉".to_string(),
        history: String::new(),
        existing_id: None,
        existing_created: None,
        target_filepath: None,
        completed: None,
    }
}

#[test]
fn test_unicode_content_preservation() {
    let todo = unicode_todo();
    let storage = FileStorage::new(Some("/home/ted".to_string()));
    let plan = todo.plan_save_at(&storage, "/tmp/tedtui_unicode_test", 1, "01-01-2025_10:00:00");
    let content = plan.content;
    let filepath = plan.filepath;
    assert!(content.contains("Test mit Ümläuten"));
    assert!(content.contains("Schöne Grüße aus München"));
    assert!(content.contains("Äpfel kaufen"));
    assert!(content.contains("Über Brücke gehen"));
    assert!(content.contains("Tschüss sagen"));
    assert!(content.contains("Café, naïve, 日本語, emoji: 🎉"));
    assert!(filepath.contains("test_mit_ümläuten"));
}

#[test]
fn new_todo_file_text_and_path() {
    let todo = unicode_todo();
    let storage = FileStorage::new(Some("/home/ted".to_string()));
    let plan = todo.plan_save_at(&storage, "/out", 119, "01-01-2025_10:00:00");
    assert_eq!(plan.filepath, "/out/T00119_test_mit_ümläuten.md");
    assert_eq!(
        plan.content,
        "---\ncompleted: null\ncreated: 01-01-2025_10:00:00\nid: T00119\ninfo: ''\nproject_id: ''\ntags: []\n---\n# Test mit Ümläuten\nSchöne Grüße aus München\n# Tasks \n- [ ] Äpfel kaufen\n- [ ] Über Brücke gehen\n- [x] Tschüss sagen\n# note\nCafé, naïve, 日本語, emoji: 🎉\n# History \n"
    );
}

#[test]
fn written_todo_reads_back() {
    let mut todo = unicode_todo();
    todo.info = "Some info".to_string();
    todo.project_id = "P00002".to_string();
    todo.project_shorthand = Some("ADM".to_string());
    todo.history = "01-01-2025, Created".to_string();
    let storage = FileStorage::new(Some("/home/ted".to_string()));
    let plan = todo.plan_save_at(&storage, "/out", 115, "02-02-2025_11:00:00");
    assert_eq!(plan.filepath, "/out/ADM115_test_mit_ümläuten.md");
    let parsed = parse_markdown(&plan.content);
    assert_eq!(parsed.name, "Test mit Ümläuten");
    assert_eq!(parsed.project_id, "P00002");
    assert_eq!(parsed.info, "Some info");
    assert_eq!(parsed.goal, "Schöne Grüße aus München");
    assert_eq!(parsed.note, "Café, naïve, 日本語, emoji: 🎉");
    assert_eq!(parsed.history, "01-01-2025, Created");
    assert_eq!(parsed.id, "ADM115");
    assert_eq!(parsed.created, "02-02-2025_11:00:00");
    let tasks: Vec<(&str, bool)> = parsed.tasks.iter().map(|t| (t.text.as_str(), t.completed)).collect();
    assert_eq!(
        tasks,
        vec![("Äpfel kaufen", false), ("Über Brücke gehen", false), ("Tschüss sagen", true)]
    );
}

#[test]
fn inner_carriage_returns_read_back() {
    let mut todo = unicode_todo();
    todo.goal = "a\rb\nsecond line".to_string();
    todo.note = "x\r y".to_string();
    let storage = FileStorage::new(Some("/home/ted".to_string()));
    let plan = todo.plan_save_at(&storage, "/out", 7, "02-02-2025_11:00:00");
    let parsed = parse_markdown(&plan.content);
    assert_eq!(parsed.goal, "a\rb\nsecond line");
    assert_eq!(parsed.note, "x\r y");
}

#[test]
fn fields_read_back_whatever_the_id() {
    let todo = unicode_todo();
    let content = todo.markdown_content("'ADM7'", " 01-01-2025 ");
    let parsed = parse_markdown(&content);
    assert_eq!(parsed.id, "ADM7");
    assert_eq!(parsed.created, "01-01-2025");
    assert_eq!(parsed.name, todo.name);
    assert_eq!(parsed.goal, todo.goal);
    assert_eq!(parsed.note, todo.note);
}

#[test]
fn edited_todo_keeps_its_id_and_creation_time() {
    let mut todo = unicode_todo();
    todo.existing_id = Some("WGR115".to_string());
    todo.existing_created = Some("03-03-2024_09:00:00".to_string());
    todo.target_filepath = Some("/home/ted/.ted/todos/WGR115_x.md".to_string());
    let storage = FileStorage::new(Some("/home/ted".to_string()));
    let plan = todo.plan_save_at(&storage, "/out", 999, "now");
    assert_eq!(plan.filepath, "/home/ted/.ted/todos/WGR115_x.md");
    assert!(plan.content.contains("id: WGR115\n"));
    assert!(plan.content.contains("created: 03-03-2024_09:00:00\n"));
}

#[test]
fn parse_sections_and_frontmatter() {
    let content = "---\ncompleted: null\ncreated: 01-01-2025\nid: \"T00007\"\ninfo: 'An info'\nproject_id: '[[P00003]]'\ntags: []\n---\n# # Name here \nFirst goal line\n\nSecond goal line\n# Tasks\n- [x] done one\n- [X] done two\n- [ ] open one\n- not a task\n# Note\nnote line\n\n# History\nh1\n# Other\nignored\n";
    let p = parse_markdown(content);
    assert_eq!(p.name, "Name here");
    assert_eq!(p.id, "T00007");
    assert_eq!(p.info, "An info");
    assert_eq!(p.project_id, "P00003");
    assert_eq!(p.created, "01-01-2025");
    assert_eq!(p.goal, "First goal line\nSecond goal line");
    assert_eq!(p.note, "note line");
    assert_eq!(p.history, "h1");
    let tasks: Vec<(&str, bool)> = p.tasks.iter().map(|t| (t.text.as_str(), t.completed)).collect();
    assert_eq!(tasks, vec![("done one", true), ("done two", true), ("open one", false)]);
}

#[test]
fn parse_null_and_empty_values() {
    let content = "---\ninfo: null\nproject_id: ''\n---\n# N\n";
    let p = parse_markdown(content);
    assert_eq!(p.info, "");
    assert_eq!(p.project_id, "");
    assert_eq!(p.name, "N");
    assert!(p.tasks.is_empty());
}

#[test]
fn yaml_escapes() {
    let s: Vec<char> = "a\\xC3b\\x41\\xZZc\\n".chars().collect();
    let r: String = unescape_yaml_string(&s).into_iter().collect();
    assert_eq!(r, "a\u{c3}bA\\xZZc\\n");
    let t: Vec<char> = "end\\".chars().collect();
    let r2: String = unescape_yaml_string(&t).into_iter().collect();
    assert_eq!(r2, "end\\");
}
