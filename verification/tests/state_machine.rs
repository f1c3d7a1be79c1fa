use escritoire::app::{App, CurrentScreen, ScanResult, SettingsField};
use escritoire::clock::ClockTime;
use escritoire::events::{Action, Key};
use escritoire::paths::{Entry, NotePath};
use escritoire::settings::Settings;

fn path(parts: &[&str]) -> NotePath {
    NotePath { parts: parts.iter().map(|s| s.to_string()).collect() }
}

fn test_settings() -> Settings {
    Settings {
        notes_directory: "/home/someone/notes".to_string(),
        editor: "nvim".to_string(),
        default_file_format: "md".to_string(),
    }
}

fn test_clock() -> ClockTime {
    ClockTime { year: 2026, month: 1, day: 2, hour: 3, minute: 4, second: 5 }
}

fn scan() -> ScanResult {
    ScanResult::Entries(vec![
        Entry { path: path(&["a.md"]), is_dir: false },
        Entry { path: path(&["sub"]), is_dir: true },
        Entry { path: path(&["sub", "b.md"]), is_dir: false },
    ])
}

#[test]
fn scenario_empty_name_note_from_main_screen() {
    let mut app = App::new(test_settings());
    let now = test_clock();
    let a = app.handle_key_at(Key::Char('n'), &now);
    assert_eq!(a, Action::Nothing);
    assert_eq!(app.current_screen, CurrentScreen::Editing { target_dir: None });
    assert_eq!(app.note_name_input, "");
    let a = app.handle_key_at(Key::Enter, &now);
    match a {
        Action::CreateNote { dir, file_name } => {
            assert_eq!(dir, path(&["26-01-02"]));
            assert_eq!(file_name, "notes-26-01-02_03-04-05.md");
        }
        other => panic!("expected a note creation, got {:?}", other),
    }
    // the caller reports success; begun from Main, we return to Main
    let rescan = app.note_created(path(&["26-01-02", "notes-26-01-02_03-04-05.md"]), true);
    assert!(!rescan);
    assert_eq!(app.current_screen, CurrentScreen::Main);
    assert_eq!(
        app.current_file,
        Some(path(&["26-01-02", "notes-26-01-02_03-04-05.md"]))
    );
}

#[test]
fn scenario_folder_with_empty_buffer_lands_in_selected_directory() {
    let mut app = App::new(test_settings());
    let now = test_clock();
    app.load_browse_items(scan());
    app.current_screen = CurrentScreen::Browsing;
    // move the cursor onto the `sub` directory row: Root, a.md, sub
    app.handle_key_at(Key::Down, &now);
    app.handle_key_at(Key::Down, &now);
    let a = app.handle_key_at(Key::Char('f'), &now);
    assert_eq!(a, Action::Nothing);
    assert_eq!(
        app.current_screen,
        CurrentScreen::CreatingFolder { target_dir: Some(path(&["sub"])) }
    );
    let a = app.handle_key_at(Key::Enter, &now);
    let created = match a {
        Action::CreateFolder { path: p } => p,
        other => panic!("expected a folder creation, got {:?}", other),
    };
    assert_eq!(created, path(&["sub", "2026-01-02_03-04"]));
    let rescan = app.folder_created(true);
    assert!(rescan);
    assert_eq!(app.current_screen, CurrentScreen::Browsing);

    // on the next projection the new folder appears as a child of `sub`
    app.expanded_folders.toggle(&path(&["sub"]));
    app.load_browse_items(ScanResult::Entries(vec![
        Entry { path: path(&["a.md"]), is_dir: false },
        Entry { path: path(&["sub"]), is_dir: true },
        Entry { path: path(&["sub", "b.md"]), is_dir: false },
        Entry { path: created.duplicate(), is_dir: true },
    ]));
    let shown: Vec<&NotePath> =
        app.browse_paths.iter().flatten().map(|e| &e.path).collect();
    assert!(shown.contains(&&created));
}

#[test]
fn scenario_failed_scan_shows_one_error_row() {
    let mut app = App::new(test_settings());
    app.load_browse_items(ScanResult::ScanError);
    assert_eq!(app.browse_items.len(), 1);
    assert_eq!(app.browse_items[0].display_text, "Error loading notes");
    assert_eq!(app.browse_paths.len(), 1);
    assert!(app.browse_paths[0].is_none());
    assert_eq!(app.browse_selected, None);
}

#[test]
fn cursor_clamps_at_both_ends() {
    let mut app = App::new(test_settings());
    let now = test_clock();
    app.load_browse_items(scan());
    app.current_screen = CurrentScreen::Browsing;
    assert_eq!(app.browse_selected, Some(0));
    app.handle_key_at(Key::Up, &now);
    assert_eq!(app.browse_selected, Some(0), "no move above the first row");
    for _ in 0..10 {
        app.handle_key_at(Key::Down, &now);
    }
    assert_eq!(app.browse_selected, Some(app.browse_items.len() - 1));
    app.handle_key_at(Key::Down, &now);
    assert_eq!(app.browse_selected, Some(app.browse_items.len() - 1));
    for _ in 0..10 {
        app.handle_key_at(Key::Up, &now);
    }
    assert_eq!(app.browse_selected, Some(0));
}

#[test]
fn cursor_on_nothing_lands_on_first_row() {
    let mut app = App::new(test_settings());
    let now = test_clock();
    app.load_browse_items(scan());
    app.current_screen = CurrentScreen::Browsing;
    app.browse_selected = None;
    app.handle_key_at(Key::Down, &now);
    assert_eq!(app.browse_selected, Some(0));
    app.browse_selected = None;
    app.handle_key_at(Key::Up, &now);
    assert_eq!(app.browse_selected, Some(0));
}

#[test]
fn toggling_a_directory_asks_for_a_rescan() {
    let mut app = App::new(test_settings());
    let now = test_clock();
    app.load_browse_items(scan());
    app.current_screen = CurrentScreen::Browsing;
    // rows: Root, a.md, sub; select `sub`
    app.handle_key_at(Key::Down, &now);
    app.handle_key_at(Key::Down, &now);
    let a = app.handle_key_at(Key::Char(' '), &now);
    assert_eq!(a, Action::Rescan);
    assert!(app.expanded_folders.contains(&path(&["sub"])));
    let a = app.handle_key_at(Key::Char(' '), &now);
    assert_eq!(a, Action::Rescan);
    assert!(!app.expanded_folders.contains(&path(&["sub"])));
}

#[test]
fn toggling_a_file_or_header_does_nothing() {
    let mut app = App::new(test_settings());
    let now = test_clock();
    app.load_browse_items(scan());
    app.current_screen = CurrentScreen::Browsing;
    // header row selected
    let a = app.handle_key_at(Key::Right, &now);
    assert_eq!(a, Action::Nothing);
    // file row selected
    app.handle_key_at(Key::Down, &now);
    let a = app.handle_key_at(Key::Right, &now);
    assert_eq!(a, Action::Nothing);
}

#[test]
fn opening_a_file_records_it_as_current() {
    let mut app = App::new(test_settings());
    let now = test_clock();
    app.load_browse_items(scan());
    app.current_screen = CurrentScreen::Browsing;
    app.handle_key_at(Key::Down, &now);
    let a = app.handle_key_at(Key::Enter, &now);
    assert_eq!(a, Action::OpenEditor { file: path(&["a.md"]) });
    assert_eq!(app.current_file, Some(path(&["a.md"])));
    // Enter on a directory row opens nothing
    app.handle_key_at(Key::Down, &now);
    let a = app.handle_key_at(Key::Enter, &now);
    assert_eq!(a, Action::Nothing);
}

#[test]
fn note_name_buffer_filters_characters() {
    let mut app = App::new(test_settings());
    let now = test_clock();
    app.handle_key_at(Key::Char('n'), &now);
    for c in ['m', 'y', ' ', 'n', 'o', 't', 'e', '-', '_', '.', '1'] {
        app.handle_key_at(Key::Char(c), &now);
    }
    app.handle_key_at(Key::Char('~'), &now);
    app.handle_key_at(Key::Char('/'), &now);
    assert_eq!(app.note_name_input, "my note-_.1");
    app.handle_key_at(Key::Backspace, &now);
    assert_eq!(app.note_name_input, "my note-_.");
}

#[test]
fn cancelling_a_note_returns_where_it_began() {
    let mut app = App::new(test_settings());
    let now = test_clock();
    app.handle_key_at(Key::Char('n'), &now);
    app.handle_key_at(Key::Char('x'), &now);
    app.handle_key_at(Key::Esc, &now);
    assert_eq!(app.current_screen, CurrentScreen::Main);
    assert_eq!(app.note_name_input, "");

    app.load_browse_items(scan());
    app.current_screen = CurrentScreen::Browsing;
    app.handle_key_at(Key::Char('n'), &now);
    match &app.current_screen {
        CurrentScreen::Editing { target_dir: Some(_) } => {}
        other => panic!("expected an editing screen with a target, got {:?}", other),
    }
    app.handle_key_at(Key::Esc, &now);
    assert_eq!(app.current_screen, CurrentScreen::Browsing);
}

#[test]
fn failed_note_creation_stays_on_editing_screen() {
    let mut app = App::new(test_settings());
    let now = test_clock();
    app.handle_key_at(Key::Char('n'), &now);
    app.handle_key_at(Key::Char('x'), &now);
    app.handle_key_at(Key::Enter, &now);
    let rescan = app.note_created(path(&["x.md"]), false);
    assert!(!rescan);
    assert_eq!(app.current_screen, CurrentScreen::Editing { target_dir: None });
    assert_eq!(app.note_name_input, "x", "the buffer survives for a retry");
    assert_eq!(app.current_file, None);
}

#[test]
fn failed_folder_creation_stays_on_folder_screen() {
    let mut app = App::new(test_settings());
    let now = test_clock();
    app.load_browse_items(scan());
    app.current_screen = CurrentScreen::Browsing;
    app.handle_key_at(Key::Char('f'), &now);
    app.handle_key_at(Key::Char('w'), &now);
    let rescan = app.folder_created(false);
    assert!(!rescan);
    match &app.current_screen {
        CurrentScreen::CreatingFolder { .. } => {}
        other => panic!("expected to stay on the folder screen, got {:?}", other),
    }
    assert_eq!(app.folder_name_input, "w");
}

#[test]
fn settings_fields_cycle_without_wraparound() {
    let mut app = App::new(test_settings());
    let now = test_clock();
    app.handle_key_at(Key::Char('s'), &now);
    assert_eq!(app.current_screen, CurrentScreen::Settings { active_field: None });
    app.handle_key_at(Key::Down, &now);
    assert_eq!(
        app.current_screen,
        CurrentScreen::Settings { active_field: Some(SettingsField::NotesDirectory) }
    );
    app.handle_key_at(Key::Down, &now);
    app.handle_key_at(Key::Down, &now);
    app.handle_key_at(Key::Down, &now);
    assert_eq!(
        app.current_screen,
        CurrentScreen::Settings { active_field: Some(SettingsField::FileFormat) },
        "the last field stays last"
    );
    app.handle_key_at(Key::Up, &now);
    assert_eq!(
        app.current_screen,
        CurrentScreen::Settings { active_field: Some(SettingsField::Editor) }
    );
    app.handle_key_at(Key::Up, &now);
    app.handle_key_at(Key::Up, &now);
    assert_eq!(
        app.current_screen,
        CurrentScreen::Settings { active_field: Some(SettingsField::NotesDirectory) },
        "the first field stays first"
    );
}

#[test]
fn settings_edits_persist_on_enter_and_revert_on_escape() {
    let mut app = App::new(test_settings());
    let now = test_clock();
    app.handle_key_at(Key::Char('s'), &now);
    app.handle_key_at(Key::Enter, &now); // activate the first field
    app.handle_key_at(Key::Backspace, &now);
    app.handle_key_at(Key::Char('z'), &now);
    assert_eq!(app.settings_field_inputs[0], "/home/someone/notez");
    // cancel: buffers reset from the persisted settings
    app.handle_key_at(Key::Esc, &now);
    assert_eq!(app.settings_field_inputs[0], "/home/someone/notes");
    assert_eq!(app.current_screen, CurrentScreen::Settings { active_field: None });
    // edit again and confirm: the settings take the buffer values
    app.handle_key_at(Key::Enter, &now);
    app.handle_key_at(Key::Char('2'), &now);
    let a = app.handle_key_at(Key::Enter, &now);
    assert_eq!(a, Action::PersistSettings);
    assert_eq!(app.settings.notes_directory, "/home/someone/notes2");
}

#[test]
fn file_format_field_accepts_alphanumerics_only() {
    let mut app = App::new(test_settings());
    let now = test_clock();
    app.handle_key_at(Key::Char('s'), &now);
    app.handle_key_at(Key::Down, &now);
    app.handle_key_at(Key::Down, &now);
    app.handle_key_at(Key::Down, &now); // FileFormat active
    app.handle_key_at(Key::Char('t'), &now);
    app.handle_key_at(Key::Char('.'), &now);
    app.handle_key_at(Key::Char('/'), &now);
    app.handle_key_at(Key::Char('x'), &now);
    app.handle_key_at(Key::Char('t'), &now);
    assert_eq!(app.settings_field_inputs[2], "mdtxt");
    // the other fields take any printable character, but not controls
    app.handle_key_at(Key::Up, &now);
    app.handle_key_at(Key::Up, &now); // NotesDirectory active
    app.handle_key_at(Key::Char('/'), &now);
    app.handle_key_at(Key::Char('\u{1}'), &now);
    assert_eq!(app.settings_field_inputs[0], "/home/someone/notes/");
}

#[test]
fn quit_asks_for_confirmation() {
    let mut app = App::new(test_settings());
    let now = test_clock();
    app.handle_key_at(Key::Char('q'), &now);
    assert_eq!(app.current_screen, CurrentScreen::Exiting);
    app.handle_key_at(Key::Char('n'), &now);
    assert_eq!(app.current_screen, CurrentScreen::Main);
    app.handle_key_at(Key::Char('q'), &now);
    let a = app.handle_key_at(Key::Char('y'), &now);
    assert_eq!(a, Action::Exit);
}

#[test]
fn browse_from_main_asks_for_a_scan() {
    let mut app = App::new(test_settings());
    let now = test_clock();
    let a = app.handle_key_at(Key::Char('b'), &now);
    assert_eq!(a, Action::Rescan);
    assert_eq!(app.current_screen, CurrentScreen::Browsing);
    app.load_browse_items(scan());
    assert_eq!(app.browse_selected, Some(0));
    assert_eq!(app.browse_items.len(), 3);
}

#[test]
fn stepping_with_the_real_clock_transitions_the_same() {
    let mut app = App::new(test_settings());
    let a = app.handle_key(Key::Char('q'));
    assert_eq!(a, Action::Nothing);
    assert_eq!(app.current_screen, CurrentScreen::Exiting);
    let a = app.handle_key(Key::Char('y'));
    assert_eq!(a, Action::Exit);
}

#[test]
fn wall_clock_reading_stays_in_calendar_ranges() {
    let t = escritoire::clock::now_utc();
    assert!(t.year <= 9999);
    assert!((1..=12).contains(&t.month));
    assert!((1..=31).contains(&t.day));
    assert!(t.hour <= 23);
    assert!(t.minute <= 59);
    assert!(t.second <= 59);
}
