//! The settings that the journal reads while it runs.

use vstd::prelude::*;
use vstd::string::StringExecFns;

verus! {

/// The base name of the file that carries an entry to the external editor.
pub const TEMP_FILENAME: &'static str = "tui_journal";

/// What the settings hold.
pub struct SettingsView {
    pub app_state_dir: Option<Seq<char>>,
    pub auto_save: bool,
    pub temp_file_extension: Seq<char>,
    pub scroll_per_page: usize,
}

/// How the external editor is used.
#[derive(Debug, Clone, PartialEq, Eq)]
pub struct ExternalEditorSettings {
    /// Save what the editor wrote as soon as it has closed.
    pub auto_save: bool,
    /// The extension of the temporary file, without the dot; may be empty.
    pub temp_file_extension: String,
}

/// The settings of one session.
#[derive(Debug, Clone, PartialEq, Eq)]
pub struct Settings {
    /// The directory of the state file, where the user has chosen one.
    pub app_state_dir: Option<String>,
    pub external_editor: ExternalEditorSettings,
    /// How many entries a page step moves the selection.
    pub scroll_per_page: usize,
}

impl View for Settings {
    type V = SettingsView;

    open spec fn view(&self) -> SettingsView {
        SettingsView {
            app_state_dir: match self.app_state_dir {
                Some(d) => Some(d@),
                None => None,
            },
            auto_save: self.external_editor.auto_save,
            temp_file_extension: self.external_editor.temp_file_extension@,
            scroll_per_page: self.scroll_per_page,
        }
    }
}

/// The name of the temporary file for an extension: the base name alone, or
/// the base name, a dot and the extension.
pub open spec fn temp_name(extension: Seq<char>) -> Seq<char> {
    if extension.len() == 0 {
        TEMP_FILENAME@
    } else {
        TEMP_FILENAME@ + seq!['.'] + extension
    }
}

/// Builds the name of the temporary file for an extension.
pub fn temp_file_name(extension: &str) -> (r: String)
    ensures
        r@ == temp_name(extension@),
{
    let mut name = String::from_str(TEMP_FILENAME);
    if !extension.is_empty() {
        proof {
            reveal_strlit(".");
            assert("."@ =~= seq!['.']);
        }
        name.append(".");
        name.append(extension);
    }
    name
}

impl Settings {
    pub fn new(app_state_dir: Option<String>, auto_save: bool, temp_file_extension: String, scroll_per_page: usize) -> (r: Self)
        ensures
            r@ == (SettingsView {
                app_state_dir: match app_state_dir {
                    Some(d) => Some(d@),
                    None => None,
                },
                auto_save,
                temp_file_extension: temp_file_extension@,
                scroll_per_page,
            }),
    {
        Settings {
            app_state_dir,
            external_editor: ExternalEditorSettings { auto_save, temp_file_extension },
            scroll_per_page,
        }
    }

    /// How many entries a page step moves the selection.
    pub fn get_scroll_per_page(&self) -> (r: usize)
        ensures
            r == self@.scroll_per_page,
    {
        self.scroll_per_page
    }
}

} // verus!
