use tui_downloader::models::InputMode;
use tui_downloader::ui::shortcuts::{
    confirmation_mode_shortcuts, editing_mode_shortcuts, get_shortcuts_for_mode, help_mode_shortcuts,
    normal_mode_shortcuts, search_mode_shortcuts, settings_mode_shortcuts, speed_limit_mode_shortcuts,
    HintKind,
};

#[test]
fn test_normal_mode_has_shortcuts() {
    let shortcuts = normal_mode_shortcuts(false);
    assert!(!shortcuts.is_empty());
    assert_eq!(shortcuts.len(), 2);
}

#[test]
fn test_normal_mode_with_search() {
    let shortcuts = normal_mode_shortcuts(true);
    assert!(!shortcuts.is_empty());
    assert_eq!(shortcuts.len(), 2);
}

#[test]
fn test_editing_mode_has_shortcuts() {
    let shortcuts = editing_mode_shortcuts();
    assert!(!shortcuts.is_empty());
    assert_eq!(shortcuts.len(), 2);
}

#[test]
fn test_search_mode_has_shortcuts() {
    let shortcuts = search_mode_shortcuts();
    assert!(!shortcuts.is_empty());
    assert_eq!(shortcuts.len(), 2);
}

#[test]
fn test_speed_limit_mode_has_shortcuts() {
    let shortcuts = speed_limit_mode_shortcuts();
    assert!(!shortcuts.is_empty());
}

#[test]
fn test_help_mode_has_shortcuts() {
    let shortcuts = help_mode_shortcuts();
    assert!(!shortcuts.is_empty());
}

#[test]
fn test_confirmation_mode_has_shortcuts() {
    let shortcuts = confirmation_mode_shortcuts();
    assert!(!shortcuts.is_empty());
}

#[test]
fn test_settings_mode_has_shortcuts() {
    let shortcuts = settings_mode_shortcuts();
    assert!(!shortcuts.is_empty());
}

#[test]
fn test_mode_switching() {
    let normal = get_shortcuts_for_mode(InputMode::Normal, false);
    let editing = get_shortcuts_for_mode(InputMode::Editing, false);
    let search = get_shortcuts_for_mode(InputMode::Search, false);

    assert!(!normal.is_empty());
    assert!(!editing.is_empty());
    assert!(!search.is_empty());
}

#[test]
fn test_all_modes_have_content() {
    let modes = vec![
        InputMode::Normal,
        InputMode::Editing,
        InputMode::Search,
        InputMode::SpeedLimit,
        InputMode::Help,
        InputMode::Confirmation,
        InputMode::Settings,
    ];

    for mode in modes {
        let shortcuts = get_shortcuts_for_mode(mode, false);
        assert!(!shortcuts.is_empty(), "Mode {:?} should have shortcuts", mode);
    }
}

#[test]
fn search_filter_adds_a_clear_hint() {
    let rows = normal_mode_shortcuts(true);
    assert_eq!(rows[0][4], ("Esc", HintKind::Key));
    assert_eq!(rows[0][5], (" clear   ", HintKind::Desc));
    let rows = get_shortcuts_for_mode(InputMode::Help, true);
    assert_eq!(rows[0][0], ("[?] ", HintKind::Info));
    assert!(rows[1].is_empty());
}
