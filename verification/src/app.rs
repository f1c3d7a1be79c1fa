//! The application state: the active screen with its payload, the input
//! buffers, the browse projection and its cursor, and the expansion set.

use vstd::prelude::*;

use crate::browse::{
    get_files_as_list_items_with_paths, opt_entry_models, projection_paths, projection_rows,
    row_models, ProjectedRow, RowModel,
};
use crate::clock::ClockTime;
use crate::expansion::ExpansionState;
use crate::naming::{folder_name, make_new_folder, spec_folder_name};
use crate::paths::{Entry, EntryModel, NotePath};
use crate::settings::{Settings, SettingsModel};

verus! {

/// Which settings field the cursor sits on.
#[derive(Debug, Clone, Copy, PartialEq, Eq, Structural)]
pub enum SettingsField {
    NotesDirectory,
    Editor,
    FileFormat,
}

/// The active screen. A variant's payload is the context that screen
/// needs: leaving the screen drops the payload, so no stale target or
/// field selection can survive a transition.
#[derive(Debug, PartialEq, Eq)]
pub enum CurrentScreen {
    Main,
    Browsing,
    Editing { target_dir: Option<NotePath> },
    CreatingFolder { target_dir: Option<NotePath> },
    Settings { active_field: Option<SettingsField> },
    Exiting,
}

/// The mathematical value of a `CurrentScreen`.
#[verifier::ext_equal]
pub enum ScreenModel {
    Main,
    Browsing,
    Editing { target_dir: Option<Seq<Seq<char>>> },
    CreatingFolder { target_dir: Option<Seq<Seq<char>>> },
    Settings { active_field: Option<SettingsField> },
    Exiting,
}

pub open spec fn opt_path_model(o: Option<NotePath>) -> Option<Seq<Seq<char>>> {
    match o {
        Some(p) => Some(p@),
        None => None,
    }
}

impl View for CurrentScreen {
    type V = ScreenModel;

    open spec fn view(&self) -> ScreenModel {
        match self {
            CurrentScreen::Main => ScreenModel::Main,
            CurrentScreen::Browsing => ScreenModel::Browsing,
            CurrentScreen::Editing { target_dir } => ScreenModel::Editing {
                target_dir: opt_path_model(*target_dir),
            },
            CurrentScreen::CreatingFolder { target_dir } => ScreenModel::CreatingFolder {
                target_dir: opt_path_model(*target_dir),
            },
            CurrentScreen::Settings { active_field } => ScreenModel::Settings {
                active_field: *active_field,
            },
            CurrentScreen::Exiting => ScreenModel::Exiting,
        }
    }
}

/// What a scan of the notes root produced: its descendant entries, or
/// nothing because the root was unreadable.
pub enum ScanResult {
    Entries(Vec<Entry>),
    ScanError,
}

/// The whole application state as one mathematical value.
#[verifier::ext_equal]
pub struct AppModel {
    pub current_file: Option<Seq<Seq<char>>>,
    pub current_screen: ScreenModel,
    pub note_name_input: Seq<char>,
    pub folder_name_input: Seq<char>,
    pub settings: SettingsModel,
    pub settings_field_inputs: Seq<Seq<char>>,
    pub browse_selected: Option<int>,
    pub browse_items: Seq<RowModel>,
    pub browse_paths: Seq<Option<EntryModel>>,
    pub expanded_folders: Set<Seq<Seq<char>>>,
}

pub struct App {
    pub current_file: Option<NotePath>,
    pub current_screen: CurrentScreen,
    pub note_name_input: String,
    pub folder_name_input: String,
    pub settings: Settings,
    pub settings_field_inputs: Vec<String>,
    pub browse_selected: Option<usize>,
    pub browse_items: Vec<ProjectedRow>,
    pub browse_paths: Vec<Option<Entry>>,
    pub expanded_folders: ExpansionState,
}

impl View for App {
    type V = AppModel;

    open spec fn view(&self) -> AppModel {
        AppModel {
            current_file: opt_path_model(self.current_file),
            current_screen: self.current_screen@,
            note_name_input: self.note_name_input@,
            folder_name_input: self.folder_name_input@,
            settings: self.settings@,
            settings_field_inputs: self.settings_field_inputs.deep_view(),
            browse_selected: match self.browse_selected {
                Some(i) => Some(i as int),
                None => None,
            },
            browse_items: row_models(self.browse_items@),
            browse_paths: opt_entry_models(self.browse_paths@),
            expanded_folders: self.expanded_folders@,
        }
    }
}

/// Cursor movement up: clamped at the first row; a cursor on nothing
/// lands on the first row of a non-empty list.
pub open spec fn spec_move_up(sel: Option<int>, n: int) -> Option<int> {
    match sel {
        Some(i) => if i > 0 {
            Some(i - 1)
        } else {
            Some(i)
        },
        None => if n > 0 {
            Some(0)
        } else {
            None
        },
    }
}

/// Cursor movement down: clamped at the last row; a cursor on nothing
/// lands on the first row of a non-empty list.
pub open spec fn spec_move_down(sel: Option<int>, n: int) -> Option<int> {
    match sel {
        Some(i) => if i + 1 < n {
            Some(i + 1)
        } else {
            Some(i)
        },
        None => if n > 0 {
            Some(0)
        } else {
            None
        },
    }
}

/// The entry under the cursor, if the cursor sits on a row that has one.
pub open spec fn spec_selected_entry(m: AppModel) -> Option<EntryModel> {
    match m.browse_selected {
        Some(i) => if 0 <= i < m.browse_paths.len() {
            m.browse_paths[i]
        } else {
            None
        },
        None => None,
    }
}

/// The selected file's path, if the cursor sits on a file row.
pub open spec fn spec_selected_file(m: AppModel) -> Option<Seq<Seq<char>>> {
    match spec_selected_entry(m) {
        Some(e) => if !e.is_dir {
            Some(e.path)
        } else {
            None
        },
        None => None,
    }
}

/// Where a new note or folder lands: the selected directory, the parent
/// of the selected file, or the notes root.
pub open spec fn spec_selected_directory(m: AppModel) -> Seq<Seq<char>> {
    match spec_selected_entry(m) {
        Some(e) => if e.is_dir {
            e.path
        } else if e.path.len() > 0 {
            e.path.drop_last()
        } else {
            Seq::empty()
        },
        None => Seq::empty(),
    }
}

/// Flip one path's membership in the expansion set.
pub open spec fn spec_toggle(exp: Set<Seq<Seq<char>>>, p: Seq<Seq<char>>) -> Set<Seq<Seq<char>>> {
    if exp.contains(p) {
        exp.remove(p)
    } else {
        exp.insert(p)
    }
}

/// Toggling acts only when the cursor sits on a directory row.
pub open spec fn spec_toggle_selected(m: AppModel) -> (AppModel, bool) {
    match spec_selected_entry(m) {
        Some(e) => if e.is_dir {
            (AppModel { expanded_folders: spec_toggle(m.expanded_folders, e.path), ..m }, true)
        } else {
            (m, false)
        },
        None => (m, false),
    }
}

/// The directory a folder created from the folder screen goes into: the
/// screen's carried target, or whatever the cursor resolves to.
pub open spec fn spec_folder_target(m: AppModel) -> Seq<Seq<char>> {
    match m.current_screen {
        ScreenModel::CreatingFolder { target_dir: Some(d) } => d,
        _ => spec_selected_directory(m),
    }
}

impl App {
    /// The structural invariant every operation preserves: the cursor
    /// stays inside the row list, the rows and paths stay aligned, the
    /// three settings buffers stay three.
    pub open spec fn wf(&self) -> bool {
        &&& self.expanded_folders.wf()
        &&& self.settings_field_inputs@.len() == 3
        &&& (self.browse_selected matches Some(i) ==> i < self.browse_items@.len())
        &&& self.browse_items@.len() == self.browse_paths@.len()
    }

    /// A fresh application on the Main screen: empty buffers, empty
    /// projection, nothing expanded, the settings buffers primed from
    /// the given settings.
    pub fn new(settings: Settings) -> (app: App)
        ensures
            app.wf(),
            app@ == (AppModel {
                current_file: None,
                current_screen: ScreenModel::Main,
                note_name_input: Seq::empty(),
                folder_name_input: Seq::empty(),
                settings: settings@,
                settings_field_inputs: seq![
                    settings@.notes_directory,
                    settings@.editor,
                    settings@.default_file_format,
                ],
                browse_selected: None,
                browse_items: Seq::empty(),
                browse_paths: Seq::empty(),
                expanded_folders: Set::empty(),
            }),
    {
        let mut settings_field_inputs: Vec<String> = Vec::new();
        settings_field_inputs.push(settings.notes_directory.clone());
        settings_field_inputs.push(settings.editor.clone());
        settings_field_inputs.push(settings.default_file_format.clone());
        let app = App {
            current_file: None,
            current_screen: CurrentScreen::Main,
            note_name_input: String::new(),
            folder_name_input: String::new(),
            settings,
            settings_field_inputs,
            browse_selected: None,
            browse_items: Vec::new(),
            browse_paths: Vec::new(),
            expanded_folders: ExpansionState::new(),
        };
        proof {
            assert(app.settings_field_inputs.deep_view() =~= seq![
                app.settings@.notes_directory,
                app.settings@.editor,
                app.settings@.default_file_format,
            ]);
            assert(row_models(app.browse_items@) =~= Seq::<RowModel>::empty());
            assert(opt_entry_models(app.browse_paths@) =~= Seq::<Option<EntryModel>>::empty());
        }
        app
    }

    /// Adopt the three settings buffers as the settings themselves.
    /// Persisting them is the caller's business.
    pub fn save_settings(&mut self)
        requires
            old(self).wf(),
        ensures
            final(self).wf(),
            final(self)@ == (AppModel {
                settings: SettingsModel {
                    notes_directory: old(self)@.settings_field_inputs[0],
                    editor: old(self)@.settings_field_inputs[1],
                    default_file_format: old(self)@.settings_field_inputs[2],
                },
                ..old(self)@
            }),
    {
        self.settings.notes_directory = self.settings_field_inputs[0].clone();
        self.settings.editor = self.settings_field_inputs[1].clone();
        self.settings.default_file_format = self.settings_field_inputs[2].clone();
    }

    /// Refill the three settings buffers from the settings, discarding
    /// any edits.
    pub fn reset_settings_inputs(&mut self)
        requires
            old(self).wf(),
        ensures
            final(self).wf(),
            final(self)@ == (AppModel {
                settings_field_inputs: seq![
                    old(self)@.settings.notes_directory,
                    old(self)@.settings.editor,
                    old(self)@.settings.default_file_format,
                ],
                ..old(self)@
            }),
    {
        let mut inputs: Vec<String> = Vec::new();
        inputs.push(self.settings.notes_directory.clone());
        inputs.push(self.settings.editor.clone());
        inputs.push(self.settings.default_file_format.clone());
        self.settings_field_inputs = inputs;
        proof {
            assert(self.settings_field_inputs.deep_view() =~= seq![
                self.settings@.notes_directory,
                self.settings@.editor,
                self.settings@.default_file_format,
            ]);
        }
    }

    /// Take a fresh scan and re-derive the whole browse list from it; on
    /// a failed scan, show the single error row and clear the cursor.
    pub fn load_browse_items(&mut self, scan: ScanResult)
        requires
            old(self).wf(),
        ensures
            final(self).wf(),
            (match scan {
                ScanResult::Entries(entries) => final(self)@ == (AppModel {
                    browse_items: projection_rows(entries@, old(self)@.expanded_folders),
                    browse_paths: projection_paths(entries@, old(self)@.expanded_folders),
                    browse_selected: if projection_rows(
                        entries@,
                        old(self)@.expanded_folders,
                    ).len() > 0 {
                        Some(0int)
                    } else {
                        None::<int>
                    },
                    ..old(self)@
                }),
                ScanResult::ScanError => final(self)@ == (AppModel {
                    browse_items: seq![RowModel { text: "Error loading notes"@, is_file: false }],
                    browse_paths: seq![None::<EntryModel>],
                    browse_selected: None::<int>,
                    ..old(self)@
                }),
            }),
    {
        match scan {
            ScanResult::Entries(entries) => {
                let (items, paths) = get_files_as_list_items_with_paths(
                    &entries,
                    &self.expanded_folders,
                );
                self.browse_items = items;
                self.browse_paths = paths;
                proof {
                    assert(row_models(self.browse_items@).len() == self.browse_items@.len());
                    assert(opt_entry_models(self.browse_paths@).len() == self.browse_paths@.len());
                    assert(projection_rows(entries@, old(self)@.expanded_folders).len()
                        == projection_paths(entries@, old(self)@.expanded_folders).len());
                }
                if self.browse_items.len() > 0 {
                    self.browse_selected = Some(0);
                } else {
                    self.browse_selected = None;
                }
            }
            ScanResult::ScanError => {
                let mut items: Vec<ProjectedRow> = Vec::new();
                items.push(
                    ProjectedRow {
                        display_text: String::from_str("Error loading notes"),
                        is_file: false,
                    },
                );
                let mut paths: Vec<Option<Entry>> = Vec::new();
                paths.push(None);
                self.browse_items = items;
                self.browse_paths = paths;
                self.browse_selected = None;
                proof {
                    assert(row_models(self.browse_items@) =~= seq![
                        RowModel { text: "Error loading notes"@, is_file: false },
                    ]);
                    assert(opt_entry_models(self.browse_paths@) =~= seq![None::<EntryModel>]);
                }
            }
        }
    }

    /// Move the cursor one row up, clamped at the top.
    pub fn browse_up(&mut self)
        requires
            old(self).wf(),
        ensures
            final(self).wf(),
            final(self)@ == (AppModel {
                browse_selected: spec_move_up(
                    old(self)@.browse_selected,
                    old(self)@.browse_items.len() as int,
                ),
                ..old(self)@
            }),
    {
        match self.browse_selected {
            Some(i) => {
                if i > 0 {
                    self.browse_selected = Some(i - 1);
                }
            }
            None => {
                if self.browse_items.len() > 0 {
                    self.browse_selected = Some(0);
                }
            }
        }
    }

    /// Move the cursor one row down, clamped at the bottom.
    pub fn browse_down(&mut self)
        requires
            old(self).wf(),
        ensures
            final(self).wf(),
            final(self)@ == (AppModel {
                browse_selected: spec_move_down(
                    old(self)@.browse_selected,
                    old(self)@.browse_items.len() as int,
                ),
                ..old(self)@
            }),
    {
        let n = self.browse_items.len();
        match self.browse_selected {
            Some(i) => {
                proof {
                    assert(i < n);
                }
                if i + 1 < n {
                    self.browse_selected = Some(i + 1);
                }
            }
            None => {
                if self.browse_items.len() > 0 {
                    self.browse_selected = Some(0);
                }
            }
        }
    }

    /// The selected file's path, if the cursor sits on a file row.
    pub fn get_selected_file_path(&self) -> (r: Option<&NotePath>)
        requires
            self.wf(),
        ensures
            (match r {
                Some(p) => spec_selected_file(self@) == Some(p@),
                None => spec_selected_file(self@) is None,
            }),
    {
        if let Some(i) = self.browse_selected {
            match &self.browse_paths[i] {
                Some(e) => {
                    if !e.is_dir {
                        return Some(&e.path);
                    }
                }
                None => {}
            }
        }
        None
    }

    /// The directory a new item should land in: the selected directory,
    /// the parent of the selected file, or the notes root.
    pub fn get_selected_directory(&self) -> (r: NotePath)
        requires
            self.wf(),
        ensures
            r@ == spec_selected_directory(self@),
    {
        if let Some(i) = self.browse_selected {
            match &self.browse_paths[i] {
                Some(e) => {
                    if e.is_dir {
                        return e.path.duplicate();
                    } else {
                        return e.path.parent();
                    }
                }
                None => {}
            }
        }
        NotePath::root()
    }

    /// The path of the folder a confirmation would create: the carried
    /// target (or the cursor's directory) joined with the folder name
    /// the buffer and the clock produce.
    pub fn create_new_folder(&self, now: &ClockTime) -> (r: NotePath)
        requires
            self.wf(),
            now.wf(),
        ensures
            (r@ == spec_folder_target(self@).push(
                spec_folder_name(self@.folder_name_input, *now),
            )),
    {
        let parent = match &self.current_screen {
            CurrentScreen::CreatingFolder { target_dir: Some(d) } => d.duplicate(),
            _ => self.get_selected_directory(),
        };
        let name = folder_name(self.folder_name_input.as_str(), now);
        make_new_folder(&parent, name)
    }

    /// Flip the selected directory's expansion; a no-op on a file, a
    /// header, or no selection. The caller re-projects when it changed.
    pub fn toggle_folder_expansion(&mut self) -> (changed: bool)
        requires
            old(self).wf(),
        ensures
            final(self).wf(),
            (final(self)@, changed) == spec_toggle_selected(old(self)@),
    {
        if let Some(i) = self.browse_selected {
            let is_dir_row = match &self.browse_paths[i] {
                Some(e) => e.is_dir,
                None => false,
            };
            if is_dir_row {
                let p = match &self.browse_paths[i] {
                    Some(e) => e.path.duplicate(),
                    None => NotePath::root(),
                };
                self.expanded_folders.toggle(&p);
                return true;
            }
        }
        false
    }
}

} // verus!
