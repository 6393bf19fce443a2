use tui_journal::settings::{temp_file_name, Settings};
use tui_journal::sorter::{SortDirection, SortKey, Sorter};
use tui_journal::state::{
    join_path, AppState, BaseDirectories, LegacyFacts, LegacyPaths, LegacyStep, StateError,
};

fn settings_in(dir: Option<&str>) -> Settings {
    Settings::new(dir.map(|d| d.to_string()), false, String::new(), 5)
}

fn linux_dirs() -> Option<BaseDirectories> {
    Some(BaseDirectories {
        state_dir: Some("/home/alice/.local/state".to_string()),
        data_dir: "/home/alice/.local/share".to_string(),
    })
}

fn dirs_without_state() -> Option<BaseDirectories> {
    Some(BaseDirectories { state_dir: None, data_dir: "/Users/Alice/Library".to_string() })
}

fn facts(legacy_dir: bool, legacy_file: bool, new_file: bool, state_dir: bool) -> LegacyFacts {
    LegacyFacts {
        legacy_dir_exists: legacy_dir,
        legacy_file_exists: legacy_file,
        new_file_exists: new_file,
        state_dir_exists: state_dir,
    }
}

#[test]
fn the_default_state_is_newest_first_and_windowed() {
    assert_eq!(
        AppState::default(),
        AppState {
            sorter: Sorter::new(SortKey::Date, SortDirection::Descending),
            full_screen: false,
        }
    );
}

#[test]
fn a_missing_state_file_gives_the_default_state() {
    assert_eq!(AppState::or_default(None), AppState::default());
    let kept = AppState {
        sorter: Sorter::new(SortKey::Title, SortDirection::Ascending),
        full_screen: true,
    };
    assert_eq!(AppState::or_default(Some(kept)), kept);
}

#[test]
fn paths_are_joined_with_one_slash() {
    assert_eq!(join_path("/home/a", "state.json"), "/home/a/state.json");
    assert_eq!(join_path("/home/a/", "state.json"), "/home/a/state.json");
    assert_eq!(join_path("", "state.json"), "state.json");
    assert_eq!(join_path("/", "x"), "/x");
    assert_eq!(join_path("rel", "x"), "rel/x");
}

#[test]
fn the_state_file_lies_in_the_configured_directory() {
    let settings = settings_in(Some("/etc/journal"));
    assert_eq!(
        AppState::get_persist_path(&settings),
        Ok("/etc/journal/state.json".to_string())
    );
    assert_eq!(
        AppState::persist_path_in(&settings, &linux_dirs()),
        Ok("/etc/journal/state.json".to_string())
    );
    assert_eq!(
        AppState::persist_path_in(&settings, &None),
        Ok("/etc/journal/state.json".to_string())
    );
}

#[test]
fn the_state_file_defaults_to_the_state_directory() {
    let settings = settings_in(None);
    assert_eq!(
        AppState::persist_path_in(&settings, &linux_dirs()),
        Ok("/home/alice/.local/state/tui-journal/state.json".to_string())
    );
    assert_eq!(
        AppState::persist_dir_in(&linux_dirs()),
        Ok("/home/alice/.local/state/tui-journal".to_string())
    );
}

#[test]
fn the_state_file_falls_back_to_the_data_directory() {
    let settings = settings_in(None);
    assert_eq!(
        AppState::persist_path_in(&settings, &dirs_without_state()),
        Ok("/Users/Alice/Library/tui-journal/state.json".to_string())
    );
    assert_eq!(
        AppState::persist_dir_in(&dirs_without_state()),
        Ok("/Users/Alice/Library/tui-journal".to_string())
    );
}

#[test]
fn without_base_directories_there_is_no_default_place() {
    assert_eq!(
        AppState::persist_path_in(&settings_in(None), &None),
        Err(StateError::NoBaseDirectories)
    );
    assert_eq!(AppState::persist_dir_in(&None), Err(StateError::NoBaseDirectories));
    assert_eq!(
        StateError::NoBaseDirectories.message(),
        "Config file path couldn't be retrieved"
    );
}

#[test]
fn the_default_place_on_this_machine_is_the_journals_directory() {
    match AppState::default_persist_dir() {
        Ok(dir) => assert!(dir.ends_with("tui-journal")),
        Err(e) => assert_eq!(e, StateError::NoBaseDirectories),
    }
    match AppState::get_persist_path(&settings_in(None)) {
        Ok(path) => assert!(path.ends_with("tui-journal/state.json")),
        Err(e) => assert_eq!(e, StateError::NoBaseDirectories),
    }
    match (AppState::default_persist_dir(), AppState::get_persist_path(&settings_in(None))) {
        (Ok(dir), Ok(path)) => assert_eq!(path, join_path(&dir, "state.json")),
        (Err(_), Err(_)) => {}
        (dir, path) => panic!("{dir:?} and {path:?} disagree"),
    }
}

#[test]
fn an_old_state_file_is_looked_for_only_without_a_configured_directory() {
    assert!(AppState::wants_legacy_move(&settings_in(None)));
    assert!(!AppState::wants_legacy_move(&settings_in(Some("/etc/journal"))));
}

#[test]
fn the_paths_of_the_move_lie_below_the_base_directories() {
    assert_eq!(
        AppState::legacy_paths_in(&linux_dirs()),
        Some(LegacyPaths {
            legacy_dir: "/home/alice/.local/share/tui-journal".to_string(),
            legacy_file: "/home/alice/.local/share/tui-journal/state.json".to_string(),
            state_dir: "/home/alice/.local/state/tui-journal".to_string(),
            new_file: "/home/alice/.local/state/tui-journal/state.json".to_string(),
        })
    );
    assert_eq!(AppState::legacy_paths_in(&dirs_without_state()), None);
    assert_eq!(AppState::legacy_paths_in(&None), None);
    if let Some(paths) = AppState::move_legacy_state() {
        assert_eq!(paths.legacy_file, join_path(&paths.legacy_dir, "state.json"));
        assert_eq!(paths.new_file, join_path(&paths.state_dir, "state.json"));
        assert!(paths.legacy_dir.ends_with("tui-journal"));
        assert!(paths.state_dir.ends_with("tui-journal"));
    }
}

#[test]
fn without_an_old_directory_nothing_is_moved() {
    for legacy_file in [false, true] {
        for new_file in [false, true] {
            for state_dir in [false, true] {
                assert_eq!(
                    LegacyStep::first_step(facts(false, legacy_file, new_file, state_dir)),
                    LegacyStep::Done
                );
            }
        }
    }
}

#[test]
fn an_old_directory_without_a_state_file_is_removed() {
    assert_eq!(LegacyStep::first_step(facts(true, false, false, false)), LegacyStep::RemoveLegacyDir);
    assert_eq!(LegacyStep::first_step(facts(true, false, true, true)), LegacyStep::RemoveLegacyDir);
}

#[test]
fn an_old_state_file_beside_a_new_one_is_removed_with_its_directory() {
    assert_eq!(LegacyStep::first_step(facts(true, true, true, true)), LegacyStep::RemoveLegacyDir);
}

#[test]
fn an_old_state_file_is_moved_into_a_new_directory() {
    let first = LegacyStep::first_step(facts(true, true, false, false));
    assert_eq!(first, LegacyStep::CreateStateDir);
    let second = first.next_step(true);
    assert_eq!(second, LegacyStep::MoveStateFile);
    let third = second.next_step(true);
    assert_eq!(third, LegacyStep::RemoveLegacyDir);
    assert_eq!(third.next_step(true), LegacyStep::Done);
    assert_eq!(third.next_step(false), LegacyStep::Done);
}

#[test]
fn an_existing_state_directory_is_not_created_again() {
    assert_eq!(LegacyStep::first_step(facts(true, true, false, true)), LegacyStep::MoveStateFile);
}

#[test]
fn a_failed_step_ends_the_move() {
    assert_eq!(LegacyStep::CreateStateDir.next_step(false), LegacyStep::Done);
    assert_eq!(LegacyStep::MoveStateFile.next_step(false), LegacyStep::Done);
    assert_eq!(LegacyStep::Done.next_step(true), LegacyStep::Done);
    assert_eq!(LegacyStep::Done.next_step(false), LegacyStep::Done);
}

#[test]
fn the_temporary_file_has_a_fixed_base_name() {
    assert_eq!(temp_file_name(""), "tui_journal");
    assert_eq!(temp_file_name("md"), "tui_journal.md");
    assert_eq!(temp_file_name("txt"), "tui_journal.txt");
}
