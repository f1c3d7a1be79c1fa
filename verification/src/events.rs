//! The screen navigation state machine: how one key event moves the
//! application from state to state, and which side effect it asks the
//! surrounding loop to perform.
//!
//! The machine itself never touches the filesystem or the terminal. It
//! returns an `Action`; the caller performs it (scan, create, launch)
//! and reports back through `load_browse_items`, `note_created` and
//! `folder_created`.

use vstd::prelude::*;

use crate::app::{
    spec_folder_target, spec_move_down, spec_move_up, spec_selected_directory, spec_selected_file,
    spec_toggle_selected, App, AppModel, CurrentScreen, ScreenModel, SettingsField,
};
use crate::clock::{now_utc, short_date_chars, short_date_string, ClockTime};
use crate::naming::{
    allowed_name_char, char_is_alphanumeric, char_is_control, control_char, note_file_name,
    spec_note_file_name, string_pop, string_push,
};
use crate::paths::NotePath;
use crate::settings::SettingsModel;

verus! {

/// One key event, as the terminal reports it.
#[derive(Debug, Clone, Copy, PartialEq, Eq, Structural)]
pub enum Key {
    Char(char),
    CtrlChar(char),
    Enter,
    Backspace,
    Esc,
    Up,
    Down,
    Right,
}

/// The side effect the caller must perform after a step, if any.
#[derive(Debug, PartialEq, Eq)]
pub enum Action {
    /// Nothing to do beyond redrawing.
    Nothing,
    /// Leave the event loop and shut the application down.
    Exit,
    /// Scan the notes root afresh and hand the result to
    /// `load_browse_items`.
    Rescan,
    /// Run the external editor on this file below the notes root.
    OpenEditor { file: NotePath },
    /// Create this directory below the notes root, then an empty file
    /// with this name inside it unless one exists, open the editor on
    /// it, and report through `note_created`.
    CreateNote { dir: NotePath, file_name: String },
    /// Create this directory below the notes root and report through
    /// `folder_created`.
    CreateFolder { path: NotePath },
    /// Persist the application's settings.
    PersistSettings,
}

/// The mathematical value of an `Action`.
#[verifier::ext_equal]
pub enum ActionModel {
    Nothing,
    Exit,
    Rescan,
    OpenEditor { file: Seq<Seq<char>> },
    CreateNote { dir: Seq<Seq<char>>, file_name: Seq<char> },
    CreateFolder { path: Seq<Seq<char>> },
    PersistSettings,
}

impl View for Action {
    type V = ActionModel;

    open spec fn view(&self) -> ActionModel {
        match self {
            Action::Nothing => ActionModel::Nothing,
            Action::Exit => ActionModel::Exit,
            Action::Rescan => ActionModel::Rescan,
            Action::OpenEditor { file } => ActionModel::OpenEditor { file: file@ },
            Action::CreateNote { dir, file_name } => ActionModel::CreateNote {
                dir: dir@,
                file_name: file_name@,
            },
            Action::CreateFolder { path } => ActionModel::CreateFolder { path: path@ },
            Action::PersistSettings => ActionModel::PersistSettings,
        }
    }
}

/// The settings field above the given one; the first stays first.
pub open spec fn field_up(f: Option<SettingsField>) -> Option<SettingsField> {
    match f {
        None => Some(SettingsField::NotesDirectory),
        Some(SettingsField::NotesDirectory) => Some(SettingsField::NotesDirectory),
        Some(SettingsField::Editor) => Some(SettingsField::NotesDirectory),
        Some(SettingsField::FileFormat) => Some(SettingsField::Editor),
    }
}

/// The settings field below the given one; the last stays last.
pub open spec fn field_down(f: Option<SettingsField>) -> Option<SettingsField> {
    match f {
        None => Some(SettingsField::NotesDirectory),
        Some(SettingsField::NotesDirectory) => Some(SettingsField::Editor),
        Some(SettingsField::Editor) => Some(SettingsField::FileFormat),
        Some(SettingsField::FileFormat) => Some(SettingsField::FileFormat),
    }
}

/// Which of the three input buffers belongs to the field.
pub open spec fn field_index(f: SettingsField) -> int {
    match f {
        SettingsField::NotesDirectory => 0,
        SettingsField::Editor => 1,
        SettingsField::FileFormat => 2,
    }
}

/// A buffer with its last character removed; an empty buffer stays empty.
pub open spec fn popped(s: Seq<char>) -> Seq<char> {
    if s.len() > 0 {
        s.drop_last()
    } else {
        s
    }
}

/// The settings copied out of the three input buffers.
pub open spec fn settings_from_inputs(m: AppModel) -> SettingsModel {
    SettingsModel {
        notes_directory: m.settings_field_inputs[0],
        editor: m.settings_field_inputs[1],
        default_file_format: m.settings_field_inputs[2],
    }
}

pub open spec fn step_main(m: AppModel, key: Key) -> (AppModel, ActionModel) {
    match key {
        Key::Char(c) => if c == 'q' || c == 'Q' {
            (AppModel { current_screen: ScreenModel::Exiting, ..m }, ActionModel::Nothing)
        } else if c == 'n' || c == 'N' {
            (
                AppModel {
                    current_screen: ScreenModel::Editing { target_dir: None },
                    note_name_input: Seq::empty(),
                    ..m
                },
                ActionModel::Nothing,
            )
        } else if c == 'b' || c == 'B' {
            (AppModel { current_screen: ScreenModel::Browsing, ..m }, ActionModel::Rescan)
        } else if c == 's' || c == 'S' {
            (
                AppModel {
                    current_screen: ScreenModel::Settings { active_field: None },
                    settings_field_inputs: seq![
                        m.settings.notes_directory,
                        m.settings.editor,
                        m.settings.default_file_format,
                    ],
                    ..m
                },
                ActionModel::Nothing,
            )
        } else {
            (m, ActionModel::Nothing)
        },
        _ => (m, ActionModel::Nothing),
    }
}

pub open spec fn step_browsing(m: AppModel, key: Key) -> (AppModel, ActionModel) {
    match key {
        Key::Esc => (AppModel { current_screen: ScreenModel::Main, ..m }, ActionModel::Nothing),
        Key::Up => (
            AppModel {
                browse_selected: spec_move_up(m.browse_selected, m.browse_items.len() as int),
                ..m
            },
            ActionModel::Nothing,
        ),
        Key::Down => (
            AppModel {
                browse_selected: spec_move_down(m.browse_selected, m.browse_items.len() as int),
                ..m
            },
            ActionModel::Nothing,
        ),
        Key::Enter => match spec_selected_file(m) {
            Some(fp) => (
                AppModel { current_file: Some(fp), ..m },
                ActionModel::OpenEditor { file: fp },
            ),
            None => (m, ActionModel::Nothing),
        },
        Key::Right => {
            let (m2, changed) = spec_toggle_selected(m);
            (m2, if changed {
                ActionModel::Rescan
            } else {
                ActionModel::Nothing
            })
        },
        Key::Char(c) => if c == 'q' || c == 'Q' {
            (AppModel { current_screen: ScreenModel::Exiting, ..m }, ActionModel::Nothing)
        } else if c == 'k' || c == 'K' {
            (
                AppModel {
                    browse_selected: spec_move_up(m.browse_selected, m.browse_items.len() as int),
                    ..m
                },
                ActionModel::Nothing,
            )
        } else if c == 'j' || c == 'J' {
            (
                AppModel {
                    browse_selected: spec_move_down(m.browse_selected, m.browse_items.len() as int),
                    ..m
                },
                ActionModel::Nothing,
            )
        } else if c == ' ' {
            let (m2, changed) = spec_toggle_selected(m);
            (m2, if changed {
                ActionModel::Rescan
            } else {
                ActionModel::Nothing
            })
        } else if c == 'n' || c == 'N' {
            (
                AppModel {
                    current_screen: ScreenModel::Editing {
                        target_dir: Some(spec_selected_directory(m)),
                    },
                    note_name_input: Seq::empty(),
                    ..m
                },
                ActionModel::Nothing,
            )
        } else if c == 'f' || c == 'F' {
            (
                AppModel {
                    current_screen: ScreenModel::CreatingFolder {
                        target_dir: Some(spec_selected_directory(m)),
                    },
                    folder_name_input: Seq::empty(),
                    ..m
                },
                ActionModel::Nothing,
            )
        } else {
            (m, ActionModel::Nothing)
        },
        _ => (m, ActionModel::Nothing),
    }
}

pub open spec fn step_editing(
    m: AppModel,
    target: Option<Seq<Seq<char>>>,
    key: Key,
    t: ClockTime,
) -> (AppModel, ActionModel) {
    match key {
        Key::Enter => (
            m,
            ActionModel::CreateNote {
                dir: match target {
                    Some(d) => d,
                    None => seq![short_date_chars(t)],
                },
                file_name: spec_note_file_name(
                    m.note_name_input,
                    m.settings.default_file_format,
                    t,
                ),
            },
        ),
        Key::Backspace => (
            AppModel { note_name_input: popped(m.note_name_input), ..m },
            ActionModel::Nothing,
        ),
        Key::Esc => (
            AppModel {
                current_screen: if target is Some {
                    ScreenModel::Browsing
                } else {
                    ScreenModel::Main
                },
                note_name_input: Seq::empty(),
                current_file: None,
                ..m
            },
            ActionModel::Nothing,
        ),
        Key::Char(c) => if allowed_name_char(c) {
            (AppModel { note_name_input: m.note_name_input.push(c), ..m }, ActionModel::Nothing)
        } else {
            (m, ActionModel::Nothing)
        },
        _ => (m, ActionModel::Nothing),
    }
}

pub open spec fn step_creating_folder(m: AppModel, key: Key, t: ClockTime) -> (
    AppModel,
    ActionModel,
) {
    match key {
        Key::Enter => (
            m,
            ActionModel::CreateFolder {
                path: spec_folder_target(m).push(
                    crate::naming::spec_folder_name(m.folder_name_input, t),
                ),
            },
        ),
        Key::Backspace => (
            AppModel { folder_name_input: popped(m.folder_name_input), ..m },
            ActionModel::Nothing,
        ),
        Key::Esc => (
            AppModel {
                current_screen: ScreenModel::Browsing,
                folder_name_input: Seq::empty(),
                ..m
            },
            ActionModel::Nothing,
        ),
        Key::Char(c) => if allowed_name_char(c) {
            (
                AppModel { folder_name_input: m.folder_name_input.push(c), ..m },
                ActionModel::Nothing,
            )
        } else {
            (m, ActionModel::Nothing)
        },
        _ => (m, ActionModel::Nothing),
    }
}

pub open spec fn step_settings(
    m: AppModel,
    active: Option<SettingsField>,
    key: Key,
) -> (AppModel, ActionModel) {
    match key {
        Key::Up => (
            AppModel {
                current_screen: ScreenModel::Settings { active_field: field_up(active) },
                ..m
            },
            ActionModel::Nothing,
        ),
        Key::Down => (
            AppModel {
                current_screen: ScreenModel::Settings { active_field: field_down(active) },
                ..m
            },
            ActionModel::Nothing,
        ),
        Key::Enter => match active {
            None => (
                AppModel {
                    current_screen: ScreenModel::Settings {
                        active_field: Some(SettingsField::NotesDirectory),
                    },
                    ..m
                },
                ActionModel::Nothing,
            ),
            Some(_) => (
                AppModel {
                    settings: settings_from_inputs(m),
                    current_screen: ScreenModel::Settings { active_field: None },
                    ..m
                },
                ActionModel::PersistSettings,
            ),
        },
        Key::CtrlChar(c) => if c == 's' {
            (
                AppModel {
                    settings: settings_from_inputs(m),
                    current_screen: ScreenModel::Settings { active_field: None },
                    ..m
                },
                ActionModel::PersistSettings,
            )
        } else {
            (m, ActionModel::Nothing)
        },
        Key::Esc => match active {
            Some(_) => (
                AppModel {
                    settings_field_inputs: seq![
                        m.settings.notes_directory,
                        m.settings.editor,
                        m.settings.default_file_format,
                    ],
                    current_screen: ScreenModel::Settings { active_field: None },
                    ..m
                },
                ActionModel::Nothing,
            ),
            None => (AppModel { current_screen: ScreenModel::Main, ..m }, ActionModel::Nothing),
        },
        Key::Backspace => match active {
            Some(f) => (
                AppModel {
                    settings_field_inputs: m.settings_field_inputs.update(
                        field_index(f),
                        popped(m.settings_field_inputs[field_index(f)]),
                    ),
                    ..m
                },
                ActionModel::Nothing,
            ),
            None => (m, ActionModel::Nothing),
        },
        Key::Char(c) => match active {
            Some(f) => {
                let fits = if f is FileFormat {
                    crate::naming::alphanumeric(c)
                } else {
                    !control_char(c)
                };
                if fits {
                    (
                        AppModel {
                            settings_field_inputs: m.settings_field_inputs.update(
                                field_index(f),
                                m.settings_field_inputs[field_index(f)].push(c),
                            ),
                            ..m
                        },
                        ActionModel::Nothing,
                    )
                } else {
                    (m, ActionModel::Nothing)
                }
            },
            None => (m, ActionModel::Nothing),
        },
        _ => (m, ActionModel::Nothing),
    }
}

pub open spec fn step_exiting(m: AppModel, key: Key) -> (AppModel, ActionModel) {
    match key {
        Key::Char(c) => if c == 'y' || c == 'Y' {
            (m, ActionModel::Exit)
        } else if c == 'n' || c == 'N' {
            (AppModel { current_screen: ScreenModel::Main, ..m }, ActionModel::Nothing)
        } else {
            (m, ActionModel::Nothing)
        },
        Key::Esc => (AppModel { current_screen: ScreenModel::Main, ..m }, ActionModel::Nothing),
        _ => (m, ActionModel::Nothing),
    }
}

/// One step of the state machine: the next state and the side effect the
/// caller owes, as a function of the state, the key, and the clock.
pub open spec fn spec_step(m: AppModel, key: Key, t: ClockTime) -> (AppModel, ActionModel) {
    match m.current_screen {
        ScreenModel::Main => step_main(m, key),
        ScreenModel::Browsing => step_browsing(m, key),
        ScreenModel::Editing { target_dir } => step_editing(m, target_dir, key, t),
        ScreenModel::CreatingFolder { target_dir: _ } => step_creating_folder(m, key, t),
        ScreenModel::Settings { active_field } => step_settings(m, active_field, key),
        ScreenModel::Exiting => step_exiting(m, key),
    }
}

/// What a successful or failed note creation does to the state, and
/// whether the caller owes a rescan.
pub open spec fn spec_note_created(m: AppModel, p: Seq<Seq<char>>, success: bool) -> (
    AppModel,
    bool,
) {
    if !success {
        (m, false)
    } else {
        match m.current_screen {
            ScreenModel::Editing { target_dir } => (
                AppModel {
                    current_screen: if target_dir is Some {
                        ScreenModel::Browsing
                    } else {
                        ScreenModel::Main
                    },
                    note_name_input: Seq::empty(),
                    current_file: Some(p),
                    ..m
                },
                target_dir is Some,
            ),
            _ => (m, false),
        }
    }
}

/// What a successful or failed folder creation does to the state, and
/// whether the caller owes a rescan.
pub open spec fn spec_folder_created(m: AppModel, success: bool) -> (AppModel, bool) {
    if success && m.current_screen is CreatingFolder {
        (
            AppModel {
                current_screen: ScreenModel::Browsing,
                folder_name_input: Seq::empty(),
                ..m
            },
            true,
        )
    } else {
        (m, false)
    }
}

fn field_idx(f: SettingsField) -> (r: usize)
    ensures
        r == field_index(f),
{
    match f {
        SettingsField::NotesDirectory => 0,
        SettingsField::Editor => 1,
        SettingsField::FileFormat => 2,
    }
}

impl App {
    /// Feed one key event through the state machine at the given clock
    /// reading. The pair of the new state and the returned action is
    /// exactly `spec_step` of the old state.
    pub fn handle_key_at(&mut self, key: Key, now: &ClockTime) -> (a: Action)
        requires
            old(self).wf(),
            now.wf(),
        ensures
            final(self).wf(),
            ((final(self)@, a@) == spec_step(old(self)@, key, *now)),
    {
        match &self.current_screen {
            CurrentScreen::Main => match key {
                Key::Char(c) => {
                    if c == 'q' || c == 'Q' {
                        self.current_screen = CurrentScreen::Exiting;
                        Action::Nothing
                    } else if c == 'n' || c == 'N' {
                        self.current_screen = CurrentScreen::Editing { target_dir: None };
                        self.note_name_input = String::new();
                        Action::Nothing
                    } else if c == 'b' || c == 'B' {
                        self.current_screen = CurrentScreen::Browsing;
                        Action::Rescan
                    } else if c == 's' || c == 'S' {
                        self.current_screen = CurrentScreen::Settings { active_field: None };
                        self.reset_settings_inputs();
                        Action::Nothing
                    } else {
                        Action::Nothing
                    }
                }
                _ => Action::Nothing,
            },
            CurrentScreen::Browsing => match key {
                Key::Esc => {
                    self.current_screen = CurrentScreen::Main;
                    Action::Nothing
                }
                Key::Up => {
                    self.browse_up();
                    Action::Nothing
                }
                Key::Down => {
                    self.browse_down();
                    Action::Nothing
                }
                Key::Enter => {
                    let file = match self.get_selected_file_path() {
                        Some(p) => Some(p.duplicate()),
                        None => None,
                    };
                    match file {
                        Some(p) => {
                            self.current_file = Some(p.duplicate());
                            Action::OpenEditor { file: p }
                        }
                        None => Action::Nothing,
                    }
                }
                Key::Right => {
                    if self.toggle_folder_expansion() {
                        Action::Rescan
                    } else {
                        Action::Nothing
                    }
                }
                Key::Char(c) => {
                    if c == 'q' || c == 'Q' {
                        self.current_screen = CurrentScreen::Exiting;
                        Action::Nothing
                    } else if c == 'k' || c == 'K' {
                        self.browse_up();
                        Action::Nothing
                    } else if c == 'j' || c == 'J' {
                        self.browse_down();
                        Action::Nothing
                    } else if c == ' ' {
                        if self.toggle_folder_expansion() {
                            Action::Rescan
                        } else {
                            Action::Nothing
                        }
                    } else if c == 'n' || c == 'N' {
                        let dir = self.get_selected_directory();
                        self.current_screen = CurrentScreen::Editing { target_dir: Some(dir) };
                        self.note_name_input = String::new();
                        Action::Nothing
                    } else if c == 'f' || c == 'F' {
                        let dir = self.get_selected_directory();
                        self.current_screen = CurrentScreen::CreatingFolder {
                            target_dir: Some(dir),
                        };
                        self.folder_name_input = String::new();
                        Action::Nothing
                    } else {
                        Action::Nothing
                    }
                }
                _ => Action::Nothing,
            },
            CurrentScreen::Editing { target_dir } => {
                let target: Option<NotePath> = match target_dir {
                    Some(d) => Some(d.duplicate()),
                    None => None,
                };
                match key {
                    Key::Enter => {
                        let dir = match target {
                            Some(d) => d,
                            None => NotePath::root().child(short_date_string(now)),
                        };
                        let file_name = note_file_name(
                            self.note_name_input.as_str(),
                            self.settings.default_file_format.as_str(),
                            now,
                        );
                        proof {
                            assert(dir@ =~= match old(self)@.current_screen {
                                ScreenModel::Editing { target_dir: Some(d) } => d,
                                _ => seq![short_date_chars(*now)],
                            });
                        }
                        Action::CreateNote { dir, file_name }
                    }
                    Key::Backspace => {
                        string_pop(&mut self.note_name_input);
                        Action::Nothing
                    }
                    Key::Esc => {
                        self.current_screen = if target.is_some() {
                            CurrentScreen::Browsing
                        } else {
                            CurrentScreen::Main
                        };
                        self.note_name_input = String::new();
                        self.current_file = None;
                        Action::Nothing
                    }
                    Key::Char(c) => {
                        if char_is_alphanumeric(c) || c == ' ' || c == '-' || c == '_'
                            || c == '.' {
                            string_push(&mut self.note_name_input, c);
                        }
                        Action::Nothing
                    }
                    _ => Action::Nothing,
                }
            }
            CurrentScreen::CreatingFolder { target_dir: _ } => match key {
                Key::Enter => {
                    let path = self.create_new_folder(now);
                    Action::CreateFolder { path }
                }
                Key::Backspace => {
                    string_pop(&mut self.folder_name_input);
                    Action::Nothing
                }
                Key::Esc => {
                    self.current_screen = CurrentScreen::Browsing;
                    self.folder_name_input = String::new();
                    Action::Nothing
                }
                Key::Char(c) => {
                    if char_is_alphanumeric(c) || c == ' ' || c == '-' || c == '_' || c == '.' {
                        string_push(&mut self.folder_name_input, c);
                    }
                    Action::Nothing
                }
                _ => Action::Nothing,
            },
            CurrentScreen::Settings { active_field } => {
                let active: Option<SettingsField> = *active_field;
                match key {
                    Key::Up => {
                        let next = match active {
                            None => Some(SettingsField::NotesDirectory),
                            Some(SettingsField::NotesDirectory) => Some(
                                SettingsField::NotesDirectory,
                            ),
                            Some(SettingsField::Editor) => Some(SettingsField::NotesDirectory),
                            Some(SettingsField::FileFormat) => Some(SettingsField::Editor),
                        };
                        self.current_screen = CurrentScreen::Settings { active_field: next };
                        Action::Nothing
                    }
                    Key::Down => {
                        let next = match active {
                            None => Some(SettingsField::NotesDirectory),
                            Some(SettingsField::NotesDirectory) => Some(SettingsField::Editor),
                            Some(SettingsField::Editor) => Some(SettingsField::FileFormat),
                            Some(SettingsField::FileFormat) => Some(SettingsField::FileFormat),
                        };
                        self.current_screen = CurrentScreen::Settings { active_field: next };
                        Action::Nothing
                    }
                    Key::Enter => match active {
                        None => {
                            self.current_screen = CurrentScreen::Settings {
                                active_field: Some(SettingsField::NotesDirectory),
                            };
                            Action::Nothing
                        }
                        Some(_) => {
                            self.save_settings();
                            self.current_screen = CurrentScreen::Settings { active_field: None };
                            Action::PersistSettings
                        }
                    },
                    Key::CtrlChar(c) => {
                        if c == 's' {
                            self.save_settings();
                            self.current_screen = CurrentScreen::Settings { active_field: None };
                            Action::PersistSettings
                        } else {
                            Action::Nothing
                        }
                    }
                    Key::Esc => match active {
                        Some(_) => {
                            self.reset_settings_inputs();
                            self.current_screen = CurrentScreen::Settings { active_field: None };
                            Action::Nothing
                        }
                        None => {
                            self.current_screen = CurrentScreen::Main;
                            Action::Nothing
                        }
                    },
                    Key::Backspace => match active {
                        Some(f) => {
                            let idx = field_idx(f);
                            let mut s = self.settings_field_inputs[idx].clone();
                            string_pop(&mut s);
                            self.settings_field_inputs[idx] = s;
                            proof {
                                assert(self.settings_field_inputs.deep_view() =~= old(
                                    self,
                                )@.settings_field_inputs.update(
                                    field_index(f),
                                    popped(old(self)@.settings_field_inputs[field_index(f)]),
                                ));
                            }
                            Action::Nothing
                        }
                        None => Action::Nothing,
                    },
                    Key::Char(c) => match active {
                        Some(f) => {
                            let fits = match f {
                                SettingsField::FileFormat => char_is_alphanumeric(c),
                                _ => !char_is_control(c),
                            };
                            if fits {
                                let idx = field_idx(f);
                                let mut s = self.settings_field_inputs[idx].clone();
                                string_push(&mut s, c);
                                self.settings_field_inputs[idx] = s;
                                proof {
                                    assert(self.settings_field_inputs.deep_view() =~= old(
                                        self,
                                    )@.settings_field_inputs.update(
                                        field_index(f),
                                        old(self)@.settings_field_inputs[field_index(f)].push(c),
                                    ));
                                }
                            }
                            Action::Nothing
                        }
                        None => Action::Nothing,
                    },
                    _ => Action::Nothing,
                }
            }
            CurrentScreen::Exiting => match key {
                Key::Char(c) => {
                    if c == 'y' || c == 'Y' {
                        Action::Exit
                    } else if c == 'n' || c == 'N' {
                        self.current_screen = CurrentScreen::Main;
                        Action::Nothing
                    } else {
                        Action::Nothing
                    }
                }
                Key::Esc => {
                    self.current_screen = CurrentScreen::Main;
                    Action::Nothing
                }
                _ => Action::Nothing,
            },
        }
    }

    /// Feed one key event through the state machine at the current time.
    /// Whatever the clock read, the outcome is one `spec_step` allows
    /// for some valid reading.
    pub fn handle_key(&mut self, key: Key) -> (a: Action)
        requires
            old(self).wf(),
        ensures
            final(self).wf(),
            exists|t: ClockTime| t.wf() && (final(self)@, a@) == spec_step(old(self)@, key, t),
    {
        let now = now_utc();
        let a = self.handle_key_at(key, &now);
        proof {
            assert(now.wf() && (self@, a@) == spec_step(old(self)@, key, now));
        }
        a
    }

    /// Report the outcome of the note creation and editor launch a
    /// `CreateNote` action asked for: on success the note's path becomes
    /// current and the screen returns to where the note was begun.
    pub fn note_created(&mut self, path: NotePath, success: bool) -> (rescan: bool)
        requires
            old(self).wf(),
        ensures
            final(self).wf(),
            ((final(self)@, rescan) == spec_note_created(old(self)@, path@, success)),
    {
        if !success {
            return false;
        }
        match &self.current_screen {
            CurrentScreen::Editing { target_dir } => {
                let to_browsing = target_dir.is_some();
                self.current_screen = if to_browsing {
                    CurrentScreen::Browsing
                } else {
                    CurrentScreen::Main
                };
                self.note_name_input = String::new();
                self.current_file = Some(path);
                to_browsing
            }
            _ => false,
        }
    }

    /// Report the outcome of the folder creation a `CreateFolder` action
    /// asked for: on success the screen returns to browsing and the
    /// caller owes a rescan; on failure everything stays for a retry.
    pub fn folder_created(&mut self, success: bool) -> (rescan: bool)
        requires
            old(self).wf(),
        ensures
            final(self).wf(),
            ((final(self)@, rescan) == spec_folder_created(old(self)@, success)),
    {
        if !success {
            return false;
        }
        match &self.current_screen {
            CurrentScreen::CreatingFolder { target_dir: _ } => {
                self.current_screen = CurrentScreen::Browsing;
                self.folder_name_input = String::new();
                true
            }
            _ => false,
        }
    }
}

} // verus!
