use tedtui::filestorage::{FileStorage, Project};

fn storage() -> FileStorage {
    FileStorage::new(Some("/home/ted".to_string()))
}

#[test]
fn test_extract_id_from_filename() {
    let fs = storage();
    assert_eq!(fs.extract_id_from_filename("ADM106_something.md"), Some(106));
    assert_eq!(fs.extract_id_from_filename("T00061_test.md"), Some(61));
    assert_eq!(fs.extract_id_from_filename("BUY112_new_phone.md"), Some(112));
    assert_eq!(fs.extract_id_from_filename("WGR097_change.md"), Some(97));
    assert_eq!(fs.extract_id_from_filename("ORG110_cleaning.md"), Some(110));
}

#[test]
fn test_sanitize_name() {
    let fs = storage();
    assert_eq!(fs.sanitize_name("Hello World"), "hello_world");
    assert_eq!(fs.sanitize_name("Schöne Grüße"), "schöne_grüße");
    assert_eq!(fs.sanitize_name("Über Äpfel"), "über_äpfel");
    assert_eq!(fs.sanitize_name("Tschüss"), "tschüss");
    assert_eq!(fs.sanitize_name("test/path"), "test_path");
    assert_eq!(fs.sanitize_name("file:name"), "file_name");
    assert_eq!(fs.sanitize_name("file*name?"), "file_name_");
}

#[test]
fn test_unicode_handling() {
    let fs = storage();
    assert_eq!(fs.sanitize_name("日本語"), "日本語");
    assert_eq!(fs.sanitize_name("Café ☕"), "café_☕");
    assert_eq!(fs.sanitize_name("Привет мир"), "привет_мир");
}

fn project_file(id: &str, heading: &str) -> String {
    format!(
        "---\ncompleted: null\ncreated: 01-01-2025_10:00:00\nid: {}\nproject_id: null\ntags: []\n---\n{}\n# Info \n",
        id, heading
    )
}

#[test]
fn test_load_projects_with_shorthands() {
    let fs = storage();
    let files = vec![
        ("P00003_move.md", project_file("P00003", "# MOVE: Move")),
        ("P00002_admin.md", project_file("P00002", "# ADM: Admin things")),
        ("P00001_plain.md", project_file("P00001", "# Plain project")),
    ];
    let mut projects = Vec::new();
    for (path, content) in files.iter() {
        if let Some(p) = fs.project_from_content(content, path) {
            projects.push(p);
        }
    }
    let projects = Project::sort_by_id(projects);
    let ids: Vec<&str> = projects.iter().map(|p| p.id.as_str()).collect();
    assert_eq!(ids, vec!["P00001", "P00002", "P00003"]);
    let p2 = projects.iter().find(|p| p.id == "P00002").unwrap();
    assert_eq!(p2.shorthand, Some("ADM".to_string()), "P00002 should have ADM shorthand");
    assert_eq!(p2.name, "Admin things");
    assert_eq!(projects[0].shorthand, None);
    assert_eq!(projects[0].name, "Plain project");
}

#[test]
fn project_without_id_is_skipped() {
    let fs = storage();
    let content = "---\ncreated: x\n---\n# ADM: Admin\n";
    assert!(fs.project_from_content(content, "a.md").is_none());
}

#[test]
fn project_without_heading_is_named_by_id() {
    let fs = storage();
    let content = "---\nid: P00009\n---\nno heading\n";
    let p = fs.project_from_content(content, "p.md").unwrap();
    assert_eq!(p.name, "P00009");
    assert_eq!(p.shorthand, None);
    assert_eq!(p.filepath, "p.md");
}

#[test]
fn directories_under_home() {
    let fs = storage();
    assert_eq!(fs.get_todos_dir(), "/home/ted/.ted/todos");
    assert_eq!(fs.get_done_dir(), "/home/ted/.ted/done");
    assert_eq!(fs.get_projects_dir(), "/home/ted/.ted/projects");
    let fallback = FileStorage::new(None);
    assert_eq!(fallback.get_todos_dir(), "./.ted/todos");
}

#[test]
fn next_id_exceeds_every_existing_id() {
    let fs = storage();
    let todos = vec!["T00061_test.md".to_string(), "ADM106_something.md".to_string()];
    let done = vec!["WGR097_change.md".to_string(), "ORG110_cleaning.md".to_string()];
    assert_eq!(fs.get_next_id(&todos, &done), Some(111));
    assert_eq!(fs.get_next_id(&Vec::new(), &Vec::new()), Some(1));
    let ignored = vec!["notes.md".to_string(), "123_no_letters.md".to_string()];
    assert_eq!(fs.get_next_id(&ignored, &Vec::new()), Some(1));
}

#[test]
fn next_id_is_none_at_the_largest_id() {
    let fs = storage();
    let todos = vec!["T4294967295_last.md".to_string()];
    assert_eq!(fs.get_next_id(&todos, &Vec::new()), None);
}

#[test]
fn next_project_id() {
    let fs = storage();
    let names = vec!["P00002_admin.md".to_string(), "MOVE00007_move.md".to_string()];
    assert_eq!(fs.get_next_project_id(&names), Some(8));
}

#[test]
fn filenames_with_and_without_shorthand() {
    let fs = storage();
    assert_eq!(fs.generate_filename("My Todo", Some("WGR"), 115), "WGR115_my_todo.md");
    assert_eq!(fs.generate_filename("My Todo", None, 119), "T00119_my_todo.md");
    assert_eq!(fs.generate_filename("x", Some("ADM"), 5), "ADM005_x.md");
}

#[test]
fn format_project_id_cases() {
    assert_eq!(FileStorage::format_project_id(""), "''");
    assert_eq!(FileStorage::format_project_id("[[P00001]]"), "'[[P00001]]'");
    assert_eq!(FileStorage::format_project_id("P00001"), "'[[P00001]]'");
}

#[test]
fn frontmatter_fields() {
    let fs = storage();
    let content = "---\nid: \"P00004\"\ncreated: null\nname: 'x'\n---\nid: outside\n";
    assert_eq!(fs.extract_frontmatter_field(content, "id"), Some("P00004".to_string()));
    assert_eq!(fs.extract_frontmatter_field(content, "created"), None);
    assert_eq!(fs.extract_frontmatter_field(content, "name"), Some("x".to_string()));
    assert_eq!(fs.extract_frontmatter_field("no front matter", "id"), None);
}

#[test]
fn project_info_from_heading() {
    let fs = storage();
    assert_eq!(
        fs.extract_project_info_from_content("text\n# ADM: Admin things\n"),
        (Some("ADM".to_string()), Some("Admin things".to_string()))
    );
    assert_eq!(
        fs.extract_project_info_from_content("#  Just a name \n"),
        (None, Some("Just a name".to_string()))
    );
    assert_eq!(fs.extract_project_info_from_content("nothing"), (None, None));
}

#[test]
fn new_project_file_layout() {
    let fs = storage();
    let f = fs.new_project_file("My Project", "About it", "MP", 7, "01-02-2025_03:04:05");
    assert_eq!(f.id, "MP00007");
    assert_eq!(f.filepath, "/home/ted/.ted/projects/MP00007_my_project.md");
    assert_eq!(
        f.content,
        "---\ncompleted: null\ncreated: 01-02-2025_03:04:05\nid: MP00007\nproject_id: null\ntags: []\n---\n# MP: My Project\nAbout it\n# Info \n"
    );
    let g = fs.new_project_file("Plain", "", "", 12, "t");
    assert_eq!(g.id, "P00012");
    assert!(g.content.contains("# Plain\n# Info \n"));
}

#[test]
fn new_project_file_reads_back() {
    let s = storage();
    for (name, shorthand) in [("Administration", "ADM"), ("Gärten", "")] {
        let f = s.new_project_file(name, "Some text", shorthand, 12, "01-02-2025_10:00:00");
        let p = s.project_from_content(&f.content, &f.filepath).unwrap();
        assert_eq!(p.id, f.id);
        assert_eq!(p.name, name);
        assert_eq!(p.shorthand, if shorthand.is_empty() { None } else { Some(shorthand.to_string()) });
        assert_eq!(p.filepath, f.filepath);
    }
}

#[test]
fn quoted_shorthand_reads_back() {
    let s = storage();
    let f = s.new_project_file("Quoted", "", "\"Q", 12, "01-02-2025_10:00:00");
    assert_eq!(f.id, "\"Q00012");
    let p = s.project_from_content(&f.content, &f.filepath).unwrap();
    assert_eq!(p.id, "Q00012");
    assert_eq!(p.shorthand, Some("\"Q".to_string()));
    assert_eq!(p.name, "Quoted");
}
