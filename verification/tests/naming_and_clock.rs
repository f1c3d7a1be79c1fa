use escritoire::clock::{folder_stamp_string, note_stamp_string, short_date_string, ClockTime};
use escritoire::naming::{folder_name, has_suffix, make_new_folder, note_file_name, trim_spaces};
use escritoire::paths::NotePath;

fn test_clock() -> ClockTime {
    ClockTime { year: 2026, month: 1, day: 2, hour: 3, minute: 4, second: 5 }
}

#[test]
fn stamps_are_zero_padded_decimals() {
    let t = test_clock();
    assert_eq!(short_date_string(&t), "26-01-02");
    assert_eq!(note_stamp_string(&t), "26-01-02_03-04-05");
    assert_eq!(folder_stamp_string(&t), "2026-01-02_03-04");
    let t2 = ClockTime { year: 999, month: 12, day: 31, hour: 23, minute: 59, second: 59 };
    assert_eq!(short_date_string(&t2), "99-12-31");
    assert_eq!(folder_stamp_string(&t2), "0999-12-31_23-59");
}

#[test]
fn scenario_named_note_gets_the_extension_once() {
    let t = test_clock();
    assert_eq!(note_file_name("todo", "md", &t), "todo.md");
    assert_eq!(note_file_name("todo.md", "md", &t), "todo.md");
    assert_eq!(note_file_name("  todo  ", "md", &t), "todo.md");
    assert_eq!(note_file_name("notes.md.bak", "md", &t), "notes.md.bak.md");
}

#[test]
fn empty_note_name_becomes_a_timestamp() {
    let t = test_clock();
    assert_eq!(note_file_name("", "md", &t), "notes-26-01-02_03-04-05.md");
    assert_eq!(note_file_name("   ", "txt", &t), "notes-26-01-02_03-04-05.txt");
}

#[test]
fn empty_folder_name_becomes_a_minute_stamp() {
    let t = test_clock();
    assert_eq!(folder_name("", &t), "2026-01-02_03-04");
    assert_eq!(folder_name("  ", &t), "2026-01-02_03-04");
    assert_eq!(folder_name(" projects ", &t), "projects");
}

#[test]
fn trimming_strips_only_the_edges() {
    assert_eq!(trim_spaces("  a b  "), "a b");
    assert_eq!(trim_spaces(""), "");
    assert_eq!(trim_spaces("   "), "");
    assert_eq!(trim_spaces("x"), "x");
}

#[test]
fn suffix_test_compares_characters() {
    assert!(has_suffix("todo.md", ".md"));
    assert!(!has_suffix("todo.md", ".txt"));
    assert!(!has_suffix("md", ".md"));
    assert!(has_suffix("x", ""));
}

#[test]
fn folder_joins_under_its_parent() {
    let parent = NotePath { parts: vec!["a".to_string(), "b".to_string()] };
    let joined = make_new_folder(&parent, "c".to_string());
    assert_eq!(
        joined,
        NotePath { parts: vec!["a".to_string(), "b".to_string(), "c".to_string()] }
    );
}

#[test]
fn paths_order_ancestors_before_descendants() {
    let a = NotePath { parts: vec!["sub".to_string()] };
    let b = NotePath { parts: vec!["sub".to_string(), "b.md".to_string()] };
    let c = NotePath { parts: vec!["tub".to_string()] };
    assert!(a.less_than(&b));
    assert!(b.less_than(&c));
    assert!(a.less_than(&c));
    assert!(!c.less_than(&a));
    assert!(!a.less_than(&a));
}
