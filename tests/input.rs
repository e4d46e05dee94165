use tui_downloader::input::{InputHandler, KeyAction, KeyCode, KeyEvent};
use tui_downloader::models::InputMode;

fn make_key_event(code: KeyCode) -> KeyEvent {
    KeyEvent { code, shift: false, control: false }
}

fn make_key_event_with_shift(code: KeyCode) -> KeyEvent {
    KeyEvent { code, shift: true, control: false }
}

fn make_key_event_with_control(code: KeyCode) -> KeyEvent {
    KeyEvent { code, shift: false, control: true }
}

#[test]
fn test_new_handler() {
    let handler = InputHandler::new();
    assert_eq!(handler.mode, InputMode::Normal);
    assert!(handler.buffer.is_empty());
    assert!(handler.search_query.is_empty());
}

#[test]
fn test_enter_edit_mode() {
    let mut handler = InputHandler::new();
    handler.enter_edit_mode();
    assert_eq!(handler.mode, InputMode::Editing);
}

#[test]
fn test_enter_search_mode() {
    let mut handler = InputHandler::new();
    handler.enter_search_mode();
    assert_eq!(handler.mode, InputMode::Search);
}

#[test]
fn test_handle_paste() {
    let mut handler = InputHandler::new();
    handler.enter_edit_mode();
    handler.handle_paste("https://example.com");
    assert_eq!(handler.buffer, "https://example.com");
    assert_eq!(handler.cursor_position, 19);
}

#[test]
fn test_cursor_movement() {
    let mut handler = InputHandler::new();
    handler.enter_edit_mode();
    handler.buffer = "test".to_string();
    handler.cursor_position = 4;

    handler.handle_key(&make_key_event(KeyCode::Left));
    assert_eq!(handler.cursor_position, 3);

    handler.handle_key(&make_key_event(KeyCode::Home));
    assert_eq!(handler.cursor_position, 0);

    handler.handle_key(&make_key_event(KeyCode::End));
    assert_eq!(handler.cursor_position, 4);
}

#[test]
fn test_normal_mode_keys() {
    let mut handler = InputHandler::new();

    let action = handler.handle_key(&make_key_event(KeyCode::Char('?')));
    assert!(matches!(action, KeyAction::ShowHelp));

    let action = handler.handle_key(&make_key_event(KeyCode::Char('/')));
    assert!(matches!(action, KeyAction::EnterSearchMode));

    let action = handler.handle_key(&make_key_event(KeyCode::Char('l')));
    assert!(matches!(action, KeyAction::ShowSpeedLimit));
}

#[test]
fn test_shift_delete() {
    let mut handler = InputHandler::new();
    let action = handler.handle_key(&make_key_event_with_shift(KeyCode::Delete));
    assert!(matches!(action, KeyAction::DeleteFile));
}

#[test]
fn test_search_mode() {
    let mut handler = InputHandler::new();
    handler.enter_search_mode();

    handler.handle_key(&make_key_event(KeyCode::Char('t')));
    handler.handle_key(&make_key_event(KeyCode::Char('e')));
    handler.handle_key(&make_key_event(KeyCode::Char('s')));
    handler.handle_key(&make_key_event(KeyCode::Char('t')));

    assert_eq!(handler.search_query, "test");

    handler.handle_key(&make_key_event(KeyCode::Backspace));
    assert_eq!(handler.search_query, "tes");
}

#[test]
fn test_take_input() {
    let mut handler = InputHandler::new();
    handler.buffer = "test".to_string();
    let taken = handler.take_input();
    assert_eq!(taken, "test");
    assert!(handler.buffer.is_empty());
}

#[test]
fn test_clear_search() {
    let mut handler = InputHandler::new();
    handler.search_query = "query".to_string();
    handler.clear_search();
    assert!(handler.search_query.is_empty());
}

#[test]
fn editing_inserts_and_deletes_at_cursor() {
    let mut handler = InputHandler::new();
    handler.enter_edit_mode();
    for c in "helo".chars() {
        handler.handle_key(&make_key_event(KeyCode::Char(c)));
    }
    handler.handle_key(&make_key_event(KeyCode::Left));
    handler.handle_key(&make_key_event(KeyCode::Char('l')));
    assert_eq!(handler.get_input(), "hello");
    assert_eq!(handler.cursor_position, 4);
    let action = handler.handle_key(&make_key_event(KeyCode::Backspace));
    assert_eq!(action, KeyAction::DeleteChar);
    assert_eq!(handler.get_input(), "helo");
    assert_eq!(handler.cursor_position, 3);
    handler.handle_key(&make_key_event(KeyCode::Delete));
    assert_eq!(handler.get_input(), "hel");
    assert_eq!(handler.cursor_position, 3);
}

#[test]
fn control_w_deletes_the_word_before_the_cursor() {
    let mut handler = InputHandler::new();
    handler.enter_edit_mode();
    handler.set_buffer("get some file  ");
    let action = handler.handle_key(&make_key_event_with_control(KeyCode::Char('w')));
    assert_eq!(action, KeyAction::DeleteWord);
    assert_eq!(handler.get_input(), "get some ");
    assert_eq!(handler.cursor_position, 9);
    handler.handle_key(&make_key_event_with_control(KeyCode::Char('u')));
    assert_eq!(handler.get_input(), "");
    assert_eq!(handler.cursor_position, 0);
}

#[test]
fn speed_limit_field_takes_only_rate_characters() {
    let mut handler = InputHandler::new();
    handler.enter_speed_limit_mode();
    handler.handle_key(&make_key_event(KeyCode::Char('5')));
    handler.handle_key(&make_key_event(KeyCode::Char('x')));
    handler.handle_key(&make_key_event(KeyCode::Char('m')));
    assert_eq!(handler.get_speed_limit_buffer(), "5m");
    handler.handle_paste("1.5 GB/s k");
    assert_eq!(handler.get_speed_limit_buffer(), "5m1.5k");
    let action = handler.handle_key(&make_key_event(KeyCode::Right));
    assert_eq!(action, KeyAction::SpeedLimitIncrease);
    assert_eq!(handler.take_speed_limit_buffer(), "5m1.5k");
    assert_eq!(handler.get_speed_limit_buffer(), "");
}

#[test]
fn modifier_keys_in_normal_mode() {
    let mut handler = InputHandler::new();
    assert_eq!(handler.handle_key(&make_key_event_with_shift(KeyCode::Char('P'))), KeyAction::PauseAll);
    assert_eq!(handler.handle_key(&make_key_event_with_control(KeyCode::Char('a'))), KeyAction::SelectAll);
    assert_eq!(handler.handle_key(&make_key_event(KeyCode::Char('2'))), KeyAction::SelectTab(1));
    assert_eq!(handler.handle_key(&make_key_event(KeyCode::F(1))), KeyAction::ShowHelp);
    assert_eq!(handler.handle_key(&make_key_event(KeyCode::Char('z'))), KeyAction::NoAction);
}

#[test]
fn confirmation_and_help_keys() {
    let mut handler = InputHandler::new();
    handler.enter_confirmation_mode();
    assert_eq!(handler.handle_key(&make_key_event(KeyCode::Char('Y'))), KeyAction::ConfirmYes);
    assert_eq!(handler.handle_key(&make_key_event(KeyCode::Esc)), KeyAction::ConfirmNo);
    handler.enter_help_mode();
    assert_eq!(handler.handle_key(&make_key_event(KeyCode::Char('j'))), KeyAction::HelpScrollDown);
    assert_eq!(handler.handle_key(&make_key_event(KeyCode::Char('q'))), KeyAction::HelpClose);
    handler.exit_to_normal();
    assert_eq!(handler.mode, InputMode::Normal);
}
