use openconsole::input::ConsoleAction;
use openconsole::wifi_password::{
    append_wifi_password_text, clear_wifi_password_editor, is_allowed_wifi_password_key, is_allowed_wifi_password_text,
    is_wifi_password_controller_cancel_token, move_wifi_password_key_selection, new_wifi_password_editor,
    open_wifi_password_editor, wifi_password_action_for_mode, wifi_password_append_selected, wifi_password_backspace,
    wifi_password_confirm_command, wifi_password_connect_request, wifi_password_display_text,
    wifi_password_key_position_in_rows, wifi_password_navigate, wifi_password_rows_for_mode,
    wifi_password_select_mode, wifi_password_select_nearest_vertical_key, wifi_password_select_position,
    wifi_password_selected_key_position, wifi_password_set_keyboard_mode, wifi_password_toggle_visibility,
    wifi_password_visibility_label, wifi_password_visual_x2, WifiPasswordCommand, ACTION_CONNECT, ACTION_KEYS,
    ACTION_MODE_LOWER, ACTION_MODE_SYMBOLS, ACTION_MODE_UPPER, ACTION_VISIBILITY,
};

#[test]
fn keyboards_and_keys() {
    assert_eq!(wifi_password_rows_for_mode(1)[0][1], "Q");
    assert_eq!(wifi_password_rows_for_mode(2)[2], vec![".", ",", "?", "!", "'", "#"]);
    assert_eq!(wifi_password_rows_for_mode(9)[1][0], "a");
    assert_eq!(wifi_password_action_for_mode(1), ACTION_MODE_UPPER);
    assert_eq!(wifi_password_action_for_mode(-3), ACTION_MODE_LOWER);
    let rows = wifi_password_rows_for_mode(0);
    assert_eq!(wifi_password_key_position_in_rows(&rows, "K"), Some((1, 7)));
    assert_eq!(wifi_password_key_position_in_rows(&rows, "delete"), Some((0, 11)));
    assert_eq!(wifi_password_key_position_in_rows(&rows, "1"), None);
    assert!(is_allowed_wifi_password_key(" "));
    assert!(is_allowed_wifi_password_key("\\"));
    assert!(!is_allowed_wifi_password_key("Space"));
    assert!(!is_allowed_wifi_password_key("%"));
    assert!(is_allowed_wifi_password_text("Z"));
    assert!(!is_allowed_wifi_password_text("ab"));
    assert!(is_wifi_password_controller_cancel_token("SDL_JOYSTICK_BUTTON_1"));
    assert!(!is_wifi_password_controller_cancel_token("SDL_CONTROLLER_BUTTON_A"));
    assert_eq!(wifi_password_visual_x2(12, 0), -12);
    assert_eq!(wifi_password_visual_x2(9, 8), 7);
}

#[test]
fn typing_and_deleting() {
    let mut s = new_wifi_password_editor();
    assert_eq!(s.selected_key, "");
    assert_eq!(wifi_password_selected_key_position(&s), (0, 0));
    assert!(append_wifi_password_text(&mut s, "a"));
    assert!(!append_wifi_password_text(&mut s, "%"));
    assert!(append_wifi_password_text(&mut s, " "));
    assert_eq!(s.password, "a ");
    assert_eq!(wifi_password_display_text(&s), "**");
    assert_eq!(wifi_password_visibility_label(&s), "SHOW");
    assert_eq!(wifi_password_toggle_visibility(&mut s), "Password is now visible.");
    assert_eq!(wifi_password_display_text(&s), "a ");
    assert_eq!(wifi_password_visibility_label(&s), "HIDE");
    assert!(wifi_password_backspace(&mut s));
    assert!(wifi_password_backspace(&mut s));
    assert!(!wifi_password_backspace(&mut s));
    assert_eq!(s.password, "");
}

#[test]
fn appending_the_selected_key() {
    let mut s = new_wifi_password_editor();
    assert_eq!(wifi_password_append_selected(&mut s), None);
    s.selected_key = "Space".to_string();
    assert_eq!(wifi_password_append_selected(&mut s), Some("Password updated. Choose Connect & Save when ready."));
    assert_eq!(s.password, " ");
    s.selected_key = "Delete".to_string();
    assert_eq!(wifi_password_append_selected(&mut s), Some("Removed the last character."));
    assert_eq!(wifi_password_append_selected(&mut s), Some("Removed the last character."));
    assert_eq!(s.password, "");
    s.selected_key = "ab".to_string();
    assert_eq!(wifi_password_append_selected(&mut s), None);
}

#[test]
fn moving_between_keys() {
    let mut s = new_wifi_password_editor();
    assert_eq!(move_wifi_password_key_selection(&mut s, ACTION_KEYS, 0, -1), ACTION_KEYS);
    assert_eq!(s.selected_key, "Delete");
    move_wifi_password_key_selection(&mut s, ACTION_KEYS, 0, 1);
    assert_eq!(s.selected_key, "Space");
    move_wifi_password_key_selection(&mut s, ACTION_KEYS, 1, 0);
    assert_eq!(s.selected_key, "a");
    move_wifi_password_key_selection(&mut s, ACTION_KEYS, -1, 0);
    assert_eq!(s.selected_key, "q");
    assert_eq!(move_wifi_password_key_selection(&mut s, ACTION_KEYS, -1, 0), ACTION_VISIBILITY);
    assert_eq!(s.selected_key, "q");
    s.selected_key = "l".to_string();
    move_wifi_password_key_selection(&mut s, ACTION_KEYS, -1, 0);
    assert_eq!(s.selected_key, "o");
    s.selected_key = "m".to_string();
    move_wifi_password_key_selection(&mut s, ACTION_KEYS, -1, 0);
    assert_eq!(s.selected_key, "k");
    assert_eq!(move_wifi_password_key_selection(&mut s, ACTION_KEYS, 0, 0), ACTION_KEYS);
    s.selected_key = "z".to_string();
    assert_eq!(move_wifi_password_key_selection(&mut s, ACTION_KEYS, 1, 0), ACTION_MODE_LOWER);
    assert_eq!(wifi_password_selected_key_position(&s), (2, 0));
}

#[test]
fn nearest_keys_and_positions() {
    let mut s = new_wifi_password_editor();
    wifi_password_select_nearest_vertical_key(&mut s, 1, 7, false);
    assert_eq!(s.selected_key, "l");
    wifi_password_select_nearest_vertical_key(&mut s, 0, -12, true);
    assert_eq!(s.selected_key, "q");
    wifi_password_select_position(&mut s, 7, 30);
    assert_eq!(s.selected_key, "m");
    s.selected_key = "unknown".to_string();
    assert_eq!(wifi_password_selected_key_position(&s), (0, 0));
}

#[test]
fn keyboard_modes() {
    let mut s = new_wifi_password_editor();
    s.selected_key = "a".to_string();
    assert_eq!(wifi_password_select_mode(&mut s, 2), ACTION_MODE_SYMBOLS);
    assert_eq!(s.selected_key, "-");
    assert_eq!(wifi_password_select_mode(&mut s, 7), ACTION_MODE_SYMBOLS);
    assert_eq!(s.keyboard_mode, 2);
    s.selected_key = "#".to_string();
    wifi_password_set_keyboard_mode(&mut s, 0);
    assert_eq!(s.selected_key, "n");
    wifi_password_set_keyboard_mode(&mut s, 1);
    assert_eq!(s.selected_key, "N");
    wifi_password_set_keyboard_mode(&mut s, -4);
    assert_eq!(s.keyboard_mode, 0);
    assert_eq!(s.selected_key, "n");
}

#[test]
fn button_focus_moves() {
    let mut s = new_wifi_password_editor();
    assert_eq!(wifi_password_navigate(&mut s, ACTION_MODE_LOWER, ConsoleAction::Left), ACTION_MODE_UPPER);
    assert_eq!(wifi_password_navigate(&mut s, ACTION_MODE_LOWER, ConsoleAction::Right), ACTION_MODE_SYMBOLS);
    assert_eq!(wifi_password_navigate(&mut s, ACTION_MODE_UPPER, ConsoleAction::Left), ACTION_MODE_UPPER);
    assert_eq!(wifi_password_navigate(&mut s, ACTION_MODE_SYMBOLS, ConsoleAction::Down), ACTION_CONNECT);
    assert_eq!(wifi_password_navigate(&mut s, ACTION_CONNECT, ConsoleAction::Up), ACTION_MODE_LOWER);
    assert_eq!(wifi_password_navigate(&mut s, ACTION_VISIBILITY, ConsoleAction::Down), ACTION_KEYS);
    assert_eq!(wifi_password_navigate(&mut s, ACTION_VISIBILITY, ConsoleAction::Up), ACTION_KEYS);
    assert_eq!(wifi_password_navigate(&mut s, ACTION_CONNECT, ConsoleAction::Accept), ACTION_CONNECT);
    assert_eq!(wifi_password_navigate(&mut s, ACTION_KEYS, ConsoleAction::Right), ACTION_KEYS);
    assert_eq!(s.selected_key, "q");
    assert_eq!(wifi_password_confirm_command(ACTION_KEYS), WifiPasswordCommand::AppendSelected);
    assert_eq!(wifi_password_confirm_command(ACTION_MODE_LOWER), WifiPasswordCommand::SelectMode(0));
    assert_eq!(wifi_password_confirm_command(ACTION_CONNECT), WifiPasswordCommand::Connect);
    assert_eq!(wifi_password_confirm_command(42), WifiPasswordCommand::Nothing);
}

#[test]
fn opening_and_connecting() {
    let mut s = new_wifi_password_editor();
    assert_eq!(wifi_password_connect_request(&s), Err("No Wi-Fi network is selected."));
    s.password = "secret".to_string();
    s.keyboard_mode = 2;
    s.show_password = true;
    assert_eq!(open_wifi_password_editor(&mut s, "Home"), ACTION_KEYS);
    assert_eq!((s.ssid.as_str(), s.password.as_str(), s.selected_key.as_str(), s.keyboard_mode, s.show_password), ("Home", "", "Space", 0, false));
    assert_eq!(wifi_password_connect_request(&s), Err("Enter the Wi-Fi password first."));
    append_wifi_password_text(&mut s, "x");
    assert_eq!(wifi_password_connect_request(&s), Ok(("Home".to_string(), "x".to_string())));
    assert_eq!(clear_wifi_password_editor(&mut s), ACTION_KEYS);
    assert_eq!((s.ssid.as_str(), s.password.as_str()), ("", ""));
}
