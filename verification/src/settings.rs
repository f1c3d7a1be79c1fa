//! The three persisted preferences, threaded through the state machine
//! as a plain value. Loading and saving them is the caller's business.

use vstd::prelude::*;

verus! {

/// The persisted preferences: where notes live, which editor opens them,
/// and the extension a new note gets.
pub struct Settings {
    pub notes_directory: String,
    pub editor: String,
    pub default_file_format: String,
}

/// The mathematical value of a `Settings`.
#[verifier::ext_equal]
pub struct SettingsModel {
    pub notes_directory: Seq<char>,
    pub editor: Seq<char>,
    pub default_file_format: Seq<char>,
}

impl View for Settings {
    type V = SettingsModel;

    open spec fn view(&self) -> SettingsModel {
        SettingsModel {
            notes_directory: self.notes_directory@,
            editor: self.editor@,
            default_file_format: self.default_file_format@,
        }
    }
}

impl Settings {
    /// The out-of-the-box preferences: a `notes` folder under the given
    /// home directory, the `nvim` editor, and the `md` extension.
    pub fn with_defaults(home: &str) -> (r: Settings)
        ensures
            r@.notes_directory == home@ + "/notes"@,
            r@.editor == "nvim"@,
            r@.default_file_format == "md"@,
    {
        let mut notes_directory = String::from_str(home);
        notes_directory.append("/notes");
        Settings {
            notes_directory,
            editor: String::from_str("nvim"),
            default_file_format: String::from_str("md"),
        }
    }
}

} // verus!
