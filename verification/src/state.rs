//! The state that outlives a session, and where it is kept on disk.

use crate::settings::Settings;
use crate::sorter::Sorter;
use vstd::prelude::*;
use vstd::string::StrSliceExecFns;
use vstd::string::StringExecFns;

verus! {

/// The name of the file that holds the persisted state.
pub const STATE_FILE_NAME: &'static str = "state.json";

/// The name of the journal's own directory below a base directory.
pub const APP_DIR_NAME: &'static str = "tui-journal";

/// What is kept from one session to the next: the whole content of the
/// state file.
#[derive(Debug, Clone, Copy, PartialEq, Eq, Structural)]
pub struct AppState {
    pub sorter: Sorter,
    pub full_screen: bool,
}

impl Default for AppState {
    fn default() -> (r: Self)
        ensures
            r == AppState::initial(),
    {
        AppState { sorter: Sorter::default(), full_screen: false }
    }
}

/// The user's base directories as the platform reports them. Not every
/// platform has a state directory.
#[derive(Debug, Clone, PartialEq, Eq)]
pub struct BaseDirectories {
    pub state_dir: Option<String>,
    pub data_dir: String,
}

/// Why no place for the state file was found.
#[derive(Debug, Clone, Copy, PartialEq, Eq, Structural)]
pub enum StateError {
    /// The platform reports no base directories for this user.
    NoBaseDirectories,
}

impl StateError {
    /// The text shown to the user.
    pub fn message(&self) -> (r: String)
        ensures
            r@ == "Config file path couldn't be retrieved"@,
    {
        String::from_str("Config file path couldn't be retrieved")
    }
}

/// The path of `name` inside `dir`, with `/` between the two unless `dir` is
/// empty or ends in one.
pub open spec fn joined(dir: Seq<char>, name: Seq<char>) -> Seq<char> {
    if dir.len() == 0 {
        name
    } else if dir.last() == '/' {
        dir + name
    } else {
        dir + seq!['/'] + name
    }
}

/// Builds the path of `name` inside `dir`.
pub fn join_path(dir: &str, name: &str) -> (r: String)
    ensures
        r@ == joined(dir@, name@),
{
    let len = dir.unicode_len();
    if len == 0 {
        return String::from_str(name);
    }
    let mut path = String::from_str(dir);
    if dir.get_char(len - 1) != '/' {
        proof {
            reveal_strlit("/");
            assert("/"@ =~= seq!['/']);
        }
        path.append("/");
    }
    path.append(name);
    path
}

/// The directory of the state file below the base directories: the
/// journal's directory in the state directory, or in the data directory
/// where the platform has no state directory.
pub open spec fn persist_dir_of(state_dir: Option<Seq<char>>, data_dir: Seq<char>) -> Seq<char> {
    match state_dir {
        Some(s) => joined(s, APP_DIR_NAME@),
        None => joined(data_dir, APP_DIR_NAME@),
    }
}

/// The base directories of a user as the `directories` crate holds them.
#[verifier::external_type_specification]
#[verifier::external_body]
pub struct ExBaseDirs(directories::BaseDirs);

/// `directories::BaseDirs::new`: the base directories of the current user,
/// or `None` where the platform reports no home directory. What comes back
/// depends on the platform and on the user's environment, so nothing is
/// claimed of it.
#[verifier::external_body]
fn base_dirs() -> (r: Option<directories::BaseDirs>) {
    directories::BaseDirs::new()
}

/// `directories::BaseDirs::state_dir`, with the path turned into text: the
/// state directory, which only some platforms have. Nothing is claimed of
/// the text.
#[verifier::external_body]
fn state_dir_of(dirs: &directories::BaseDirs) -> (r: Option<String>) {
    match dirs.state_dir() {
        Some(path) => Some(path.to_string_lossy().into_owned()),
        None => None,
    }
}

/// `directories::BaseDirs::data_dir`, with the path turned into text: the
/// data directory. Nothing is claimed of the text.
#[verifier::external_body]
fn data_dir_of(dirs: &directories::BaseDirs) -> (r: String) {
    dirs.data_dir().to_string_lossy().into_owned()
}

/// Reads the base directories of the current user.
fn base_directories() -> (r: Option<BaseDirectories>) {
    match base_dirs() {
        Some(dirs) => Some(
            BaseDirectories { state_dir: state_dir_of(&dirs), data_dir: data_dir_of(&dirs) },
        ),
        None => None,
    }
}

/// Whether `path` is the state file of `settings` for some answer of the
/// platform about the base directories.
pub open spec fn is_persist_path(settings: Settings, path: Result<String, StateError>) -> bool {
    match settings@.app_state_dir {
        Some(dir) => path is Ok && path->Ok_0@ == joined(dir, STATE_FILE_NAME@),
        None => match path {
            Ok(p) => exists|state_dir: Option<Seq<char>>, data_dir: Seq<char>|
                p@ == joined(#[trigger] persist_dir_of(state_dir, data_dir), STATE_FILE_NAME@),
            Err(e) => e == StateError::NoBaseDirectories,
        },
    }
}

/// The paths that the move of an old state file works on. Earlier the state
/// file lay in the journal's directory below the data directory; its place
/// is now below the state directory.
#[derive(Debug, Clone, PartialEq, Eq)]
pub struct LegacyPaths {
    pub legacy_dir: String,
    pub legacy_file: String,
    pub state_dir: String,
    pub new_file: String,
}

/// What the file system shows of the old and the new place.
#[derive(Debug, Clone, Copy, PartialEq, Eq, Structural)]
pub struct LegacyFacts {
    pub legacy_dir_exists: bool,
    pub legacy_file_exists: bool,
    pub new_file_exists: bool,
    pub state_dir_exists: bool,
}

/// One step of the move. The host carries the step out and reports whether
/// it succeeded.
#[derive(Debug, Clone, Copy, PartialEq, Eq, Structural)]
pub enum LegacyStep {
    /// Create the new state directory.
    CreateStateDir,
    /// Move the old state file to its new place.
    MoveStateFile,
    /// Remove the old directory with all it holds.
    RemoveLegacyDir,
    /// Nothing is left to do.
    Done,
}

impl LegacyStep {
    /// The first step. Without an old directory there is nothing to move.
    /// An old directory without a state file, or beside a state file that
    /// is already in its new place, is only removed. Else the file is
    /// moved, after the new directory has been created where it is missing.
    pub open spec fn first(facts: LegacyFacts) -> LegacyStep {
        if !facts.legacy_dir_exists {
            LegacyStep::Done
        } else if !facts.legacy_file_exists || facts.new_file_exists {
            LegacyStep::RemoveLegacyDir
        } else if !facts.state_dir_exists {
            LegacyStep::CreateStateDir
        } else {
            LegacyStep::MoveStateFile
        }
    }

    /// The step after `self`. A failed step ends the move: the old file
    /// stays where it is and the next start tries again.
    pub open spec fn after(self, succeeded: bool) -> LegacyStep {
        match self {
            LegacyStep::CreateStateDir => if succeeded {
                LegacyStep::MoveStateFile
            } else {
                LegacyStep::Done
            },
            LegacyStep::MoveStateFile => if succeeded {
                LegacyStep::RemoveLegacyDir
            } else {
                LegacyStep::Done
            },
            LegacyStep::RemoveLegacyDir => LegacyStep::Done,
            LegacyStep::Done => LegacyStep::Done,
        }
    }

    /// Decides the first step of the move.
    pub fn first_step(facts: LegacyFacts) -> (r: LegacyStep)
        ensures
            r == LegacyStep::first(facts),
    {
        if !facts.legacy_dir_exists {
            LegacyStep::Done
        } else if !facts.legacy_file_exists || facts.new_file_exists {
            LegacyStep::RemoveLegacyDir
        } else if !facts.state_dir_exists {
            LegacyStep::CreateStateDir
        } else {
            LegacyStep::MoveStateFile
        }
    }

    /// Decides the step that follows `self`.
    pub fn next_step(self, succeeded: bool) -> (r: LegacyStep)
        ensures
            r == self.after(succeeded),
    {
        match self {
            LegacyStep::CreateStateDir => if succeeded {
                LegacyStep::MoveStateFile
            } else {
                LegacyStep::Done
            },
            LegacyStep::MoveStateFile => if succeeded {
                LegacyStep::RemoveLegacyDir
            } else {
                LegacyStep::Done
            },
            LegacyStep::RemoveLegacyDir => LegacyStep::Done,
            LegacyStep::Done => LegacyStep::Done,
        }
    }

    /// The move ends after three steps at most, whatever fails, and the old
    /// directory is removed only once the state file is no longer in it or
    /// a state file is in the new place.
    pub proof fn lemma_move_ends(facts: LegacyFacts, a: bool, b: bool, c: bool)
        ensures
            LegacyStep::first(facts).after(a).after(b).after(c) == LegacyStep::Done,
            LegacyStep::first(facts) == LegacyStep::RemoveLegacyDir ==> !facts.legacy_file_exists
                || facts.new_file_exists,
            LegacyStep::first(facts).after(a) == LegacyStep::RemoveLegacyDir ==> a
                && LegacyStep::first(facts) == LegacyStep::MoveStateFile,
    {
    }
}

/// The paths of the move below the given base directories.
pub open spec fn legacy_paths_of(state_dir: Seq<char>, data_dir: Seq<char>, p: LegacyPaths) -> bool {
    &&& p.legacy_dir@ == joined(data_dir, APP_DIR_NAME@)
    &&& p.legacy_file@ == joined(p.legacy_dir@, STATE_FILE_NAME@)
    &&& p.state_dir@ == joined(state_dir, APP_DIR_NAME@)
    &&& p.new_file@ == joined(p.state_dir@, STATE_FILE_NAME@)
}

impl AppState {
    /// Whether a starting session looks for an old state file: only where
    /// the settings name no directory for the state file.
    pub fn wants_legacy_move(settings: &Settings) -> (r: bool)
        ensures
            r == (settings@.app_state_dir is None),
    {
        settings.app_state_dir.is_none()
    }

    /// The paths of the move, given what the platform reports. There is
    /// nothing to move where the platform has no state directory.
    pub fn legacy_paths_in(base: &Option<BaseDirectories>) -> (r: Option<LegacyPaths>)
        ensures
            match *base {
                Some(b) => match b.state_dir {
                    Some(s) => r is Some && legacy_paths_of(s@, b.data_dir@, r->Some_0),
                    None => r is None,
                },
                None => r is None,
            },
    {
        match base {
            Some(b) => match &b.state_dir {
                Some(s) => {
                    let legacy_dir = join_path(b.data_dir.as_str(), APP_DIR_NAME);
                    let legacy_file = join_path(legacy_dir.as_str(), STATE_FILE_NAME);
                    let state_dir = join_path(s.as_str(), APP_DIR_NAME);
                    let new_file = join_path(state_dir.as_str(), STATE_FILE_NAME);
                    Some(LegacyPaths { legacy_dir, legacy_file, state_dir, new_file })
                },
                None => None,
            },
            None => None,
        }
    }

    /// The paths of the move on this machine, if there is anything to look
    /// for.
    pub fn move_legacy_state() -> (r: Option<LegacyPaths>)
        ensures
            match r {
                Some(p) => exists|state_dir: Seq<char>, data_dir: Seq<char>|
                    #[trigger] legacy_paths_of(state_dir, data_dir, p),
                None => true,
            },
    {
        let base = base_directories();
        let r = Self::legacy_paths_in(&base);
        proof {
            if r is Some {
                assert(legacy_paths_of(
                    base->Some_0.state_dir->Some_0@,
                    base->Some_0.data_dir@,
                    r->Some_0,
                ));
            }
        }
        r
    }

    /// The state of a journal that has no state file: newest entries first,
    /// not in full screen.
    pub open spec fn initial() -> AppState {
        AppState { sorter: Sorter::newest_first(), full_screen: false }
    }

    /// The directory of the state file, given what the platform reports.
    pub fn persist_dir_in(base: &Option<BaseDirectories>) -> (r: Result<String, StateError>)
        ensures
            match *base {
                Some(b) => r is Ok && r->Ok_0@ == persist_dir_of(
                    match b.state_dir {
                        Some(s) => Some(s@),
                        None => None,
                    },
                    b.data_dir@,
                ),
                None => r == Err::<String, StateError>(StateError::NoBaseDirectories),
            },
    {
        match base {
            Some(b) => match &b.state_dir {
                Some(s) => Ok(join_path(s.as_str(), APP_DIR_NAME)),
                None => Ok(join_path(b.data_dir.as_str(), APP_DIR_NAME)),
            },
            None => Err(StateError::NoBaseDirectories),
        }
    }

    /// The path of the state file, given what the platform reports: inside
    /// the directory that the settings name, else inside the default one.
    pub fn persist_path_in(settings: &Settings, base: &Option<BaseDirectories>) -> (r: Result<
        String,
        StateError,
    >)
        ensures
            match settings@.app_state_dir {
                Some(dir) => r is Ok && r->Ok_0@ == joined(dir, STATE_FILE_NAME@),
                None => match *base {
                    Some(b) => r is Ok && r->Ok_0@ == joined(
                        persist_dir_of(
                            match b.state_dir {
                                Some(s) => Some(s@),
                                None => None,
                            },
                            b.data_dir@,
                        ),
                        STATE_FILE_NAME@,
                    ),
                    None => r == Err::<String, StateError>(StateError::NoBaseDirectories),
                },
            },
    {
        match &settings.app_state_dir {
            Some(dir) => Ok(join_path(dir.as_str(), STATE_FILE_NAME)),
            None => match Self::persist_dir_in(base) {
                Ok(dir) => Ok(join_path(dir.as_str(), STATE_FILE_NAME)),
                Err(e) => Err(e),
            },
        }
    }

    /// The default directory of the state file on this machine. It fails
    /// only where the platform reports no base directories.
    pub fn default_persist_dir() -> (r: Result<String, StateError>)
        ensures
            match r {
                Ok(dir) => exists|state_dir: Option<Seq<char>>, data_dir: Seq<char>|
                    dir@ == #[trigger] persist_dir_of(state_dir, data_dir),
                Err(e) => e == StateError::NoBaseDirectories,
            },
    {
        let base = base_directories();
        let r = Self::persist_dir_in(&base);
        proof {
            if let Some(b) = base {
                let s = match b.state_dir {
                    Some(s) => Some(s@),
                    None => None,
                };
                assert(r->Ok_0@ == persist_dir_of(s, b.data_dir@));
            }
        }
        r
    }

    /// The path of the state file on this machine. Where the settings name
    /// a directory the file lies in it, whatever the platform reports.
    pub fn get_persist_path(settings: &Settings) -> (r: Result<String, StateError>)
        ensures
            is_persist_path(*settings, r),
    {
        match &settings.app_state_dir {
            Some(_) => Self::persist_path_in(settings, &None),
            None => {
                let base = base_directories();
                let r = Self::persist_path_in(settings, &base);
                proof {
                    if let Some(b) = base {
                        let s = match b.state_dir {
                            Some(s) => Some(s@),
                            None => None,
                        };
                        assert(r->Ok_0@ == joined(persist_dir_of(s, b.data_dir@), STATE_FILE_NAME@));
                    }
                }
                r
            },
        }
    }

    /// The state of a starting session: what the state file held, or the
    /// default state where there was no file.
    pub fn or_default(loaded: Option<AppState>) -> (r: AppState)
        ensures
            r == match loaded {
                Some(s) => s,
                None => AppState::initial(),
            },
    {
        match loaded {
            Some(s) => s,
            None => AppState::default(),
        }
    }
}

} // verus!
