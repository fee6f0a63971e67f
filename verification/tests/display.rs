use tedtui::app::Task;
use tedtui::filestorage::Project;
use tedtui::theme::{Color, Theme, ThemeColor, ThemeConfig};
use tedtui::utils::count_display_lines_with_wrapping;
use tedtui::view::{
    calculate_cursor_x, centered_rect, confirmation_message, confirmation_popup_area,
    detail_popup_area, history_popup_area, overview_popup_area,
    history_view, project_item_text, selector_popup_area, status_kind, task_item_text,
    truncate_text_for_display, visible_field_text, Area, StatusKind,
};

#[test]
fn truncation_keeps_the_end() {
    assert_eq!(truncate_text_for_display("hello world", 5), "world");
    assert_eq!(truncate_text_for_display("short", 10), "short");
    assert_eq!(truncate_text_for_display("exact", 5), "exact");
    assert_eq!(truncate_text_for_display("\u{e4}\u{e4}\u{e4}", 3), "\u{e4}");
    assert_eq!(truncate_text_for_display("\u{65e5}\u{672c}", 2), "");
    assert_eq!(truncate_text_for_display("ab\u{e4}", 2), "\u{e4}");
}

#[test]
fn cursor_after_text_or_at_the_border() {
    assert_eq!(calculate_cursor_x("abc", 10, 20), 14);
    assert_eq!(calculate_cursor_x("", 0, 3), 1);
    assert_eq!(calculate_cursor_x("a very long text indeed", 2, 10), 10);
    assert_eq!(calculate_cursor_x("日本", 0, 10), 5);
}

#[test]
fn wrapped_line_counts() {
    assert_eq!(count_display_lines_with_wrapping("", 10), 1);
    assert_eq!(count_display_lines_with_wrapping("abc", 10), 1);
    assert_eq!(count_display_lines_with_wrapping("abcdefghijk", 5), 3);
    assert_eq!(count_display_lines_with_wrapping("a\n\nb", 5), 3);
    assert_eq!(count_display_lines_with_wrapping("a\nb", 0), 2);
}

#[test]
fn multi_line_fields_show_a_window() {
    let text = "one\ntwo\nthree\nfour";
    assert_eq!(visible_field_text(text, 1, 2, false), "two\nthree");
    assert_eq!(visible_field_text(text, 3, 3, true), "four\u{2588}");
    assert_eq!(visible_field_text(text, 9, 3, true), "\u{2588}");
    assert_eq!(visible_field_text("", 0, 3, false), "");
}

#[test]
fn task_lines_and_status() {
    let t = Task { text: "buy milk".to_string(), completed: true };
    assert_eq!(task_item_text(&t), "  - [x] buy milk");
    let u = Task { text: "call".to_string(), completed: false };
    assert_eq!(task_item_text(&u), "  - [ ] call");
    assert_eq!(status_kind("\u{2713} Saved"), StatusKind::Success);
    assert_eq!(status_kind("\u{2717} Error"), StatusKind::Error);
    assert_eq!(status_kind("Loaded"), StatusKind::Info);
}

#[test]
fn popups_are_centred() {
    let frame = Area { x: 0, y: 0, width: 100, height: 40 };
    assert_eq!(history_popup_area(frame), Area { x: 10, y: 5, width: 80, height: 30 });
    assert_eq!(selector_popup_area(frame), Area { x: 10, y: 5, width: 80, height: 30 });
    assert_eq!(confirmation_popup_area(frame), Area { x: 20, y: 16, width: 60, height: 7 });
    let small = Area { x: 0, y: 0, width: 30, height: 10 };
    assert_eq!(history_popup_area(small), Area { x: 0, y: 0, width: 60, height: 15 });
    let tall = Area { x: 0, y: 0, width: 100, height: 100 };
    assert_eq!(selector_popup_area(tall).height, 30);
}

#[test]
fn confirmation_counts_open_tasks() {
    let tasks = vec![
        Task { text: "a".to_string(), completed: true },
        Task { text: "b".to_string(), completed: false },
        Task { text: "c".to_string(), completed: false },
    ];
    assert_eq!(confirmation_message(&tasks), "You have 2 incomplete task(s).");
}

#[test]
fn project_lines() {
    let p = Project {
        id: "P00002".to_string(),
        shorthand: Some("ADM".to_string()),
        name: "Admin".to_string(),
        filepath: String::new(),
    };
    assert_eq!(project_item_text(&p), "  P00002 - Admin (ADM)");
    let q = Project { shorthand: None, ..p };
    assert_eq!(project_item_text(&q), "  P00002 - Admin");
}

#[test]
fn history_viewer_window() {
    let frame = Area { x: 0, y: 0, width: 100, height: 20 };
    let mut history = String::new();
    for i in 0..20 {
        history.push_str(&format!("entry {}\n\n", i));
    }
    let v = history_view(&history, 2, frame);
    assert_eq!(v.area.height, 15);
    assert_eq!(v.entries.len(), 12);
    assert_eq!(v.entries[0], "entry 2");
    assert_eq!(v.title, "History (3/20) (\u{2191}\u{2193} to scroll, Esc to close)");
    assert_eq!(v.more, Some("... 6 more entries (\u{2193} to scroll)".to_string()));
    let empty = history_view("  \n", 0, frame);
    assert!(empty.entries.is_empty());
    assert_eq!(empty.title, "History (Esc to close)");
    assert_eq!(empty.more, None);
}

#[test]
fn theme_colours() {
    assert_eq!(ThemeColor::Named("Red".to_string()).to_color(), Color::Red);
    assert_eq!(ThemeColor::Named("dark_grey".to_string()).to_color(), Color::DarkGray);
    assert_eq!(ThemeColor::Named("#ff8000".to_string()).to_color(), Color::Rgb(255, 128, 0));
    assert_eq!(ThemeColor::Named("#zz0000".to_string()).to_color(), Color::Rgb(255, 0, 0));
    assert_eq!(ThemeColor::Named("unknown".to_string()).to_color(), Color::Reset);
    assert_eq!(ThemeColor::Named("#0ä000".to_string()).checked_to_color(), None);
}

#[test]
fn default_theme() {
    let config = ThemeConfig::default();
    let theme = Theme::from_config(&config);
    assert_eq!(theme.active_border, Color::Yellow);
    assert_eq!(theme.inactive_border, Color::Reset);
    assert_eq!(theme.task_completed, Color::DarkGray);
    assert_eq!(theme.popup_bg, Color::Black);
    assert_eq!(theme.move_border, Color::Magenta);
    assert!(Theme::checked_from_config(&config).is_some());
}

#[test]
fn browser_popups() {
    let frame = Area { x: 0, y: 0, width: 120, height: 50 };
    assert_eq!(detail_popup_area(frame), Area { x: 10, y: 5, width: 100, height: 40 });
    assert_eq!(overview_popup_area(frame), Area { x: 20, y: 17, width: 80, height: 16 });
    assert_eq!(centered_rect(frame, 50, 7), Area { x: 35, y: 21, width: 50, height: 7 });
    let small = Area { x: 0, y: 0, width: 30, height: 10 };
    assert_eq!(detail_popup_area(small), Area { x: 4, y: 2, width: 22, height: 6 });
    assert_eq!(overview_popup_area(small), Area { x: 0, y: 0, width: 40, height: 16 });
}
