use server::ui::ui_control::{ui_control, InputEvent, KeyInput};
use server::ui::ui_state::{CurrentScreen, UiState};

#[test]
fn new_ui_state() {
    let ui = UiState::new();
    assert_eq!(ui.current_screen, CurrentScreen::Main);
    assert_eq!(ui.title, "ShellWhisper");
    assert!(ui.chat_messages.is_empty());
    assert!(ui.users.is_empty());
    assert_eq!(ui.user_name, "");
}

#[test]
fn toggle_screen_switches_title() {
    let mut ui = UiState::new();
    ui.toggle_screen();
    assert_eq!(ui.current_screen, CurrentScreen::Chatting);
    assert_eq!(ui.title, "ShellWhisper (Chat Mode)");
    ui.toggle_screen();
    assert_eq!(ui.current_screen, CurrentScreen::Main);
    assert_eq!(ui.title, "ShellWhisper");
    ui.current_screen = CurrentScreen::Exiting;
    ui.toggle_screen();
    assert_eq!(ui.current_screen, CurrentScreen::Exiting);
    assert_eq!(ui.title, "ShellWhisper");
}

#[test]
fn notices_update_users() {
    let mut ui = UiState::new();
    ui.apply_notice("UPDATE_USERS:3:ana".to_string());
    assert_eq!(ui.users.get(&3).map(|s| s.as_str()), Some("ana"));
    ui.apply_notice("UPDATE_USERS:x:bob".to_string());
    ui.apply_notice("UPDATE_USERS:4:b:c".to_string());
    ui.apply_notice("UPDATE_USERS:5".to_string());
    assert_eq!(ui.users.len(), 1);
    ui.apply_notice("REMOVE_USER:9".to_string());
    assert_eq!(ui.users.len(), 1);
    ui.apply_notice("REMOVE_USER:3".to_string());
    assert!(ui.users.is_empty());
    ui.apply_notice("REMOVE_USER:abc".to_string());
    assert!(ui.chat_messages.is_empty());
    ui.apply_notice("ana: hi (Type: Text)".to_string());
    assert_eq!(ui.chat_messages, vec!["ana: hi (Type: Text)".to_string()]);
}

#[test]
fn keys_on_main_screen() {
    let mut ui = UiState::new();
    ui_control(&mut ui, InputEvent::Key(KeyInput::Char('x')), None);
    assert_eq!(ui.current_screen, CurrentScreen::Main);
    ui_control(&mut ui, InputEvent::Key(KeyInput::Char('c')), None);
    assert_eq!(ui.current_screen, CurrentScreen::Chatting);
    ui_control(&mut ui, InputEvent::Key(KeyInput::Esc), None);
    assert_eq!(ui.current_screen, CurrentScreen::Main);
    ui_control(&mut ui, InputEvent::Other, None);
    assert_eq!(ui.current_screen, CurrentScreen::Main);
    ui_control(&mut ui, InputEvent::Key(KeyInput::Char('q')), None);
    assert_eq!(ui.current_screen, CurrentScreen::Exiting);
    ui_control(&mut ui, InputEvent::Key(KeyInput::Char('c')), None);
    assert_eq!(ui.current_screen, CurrentScreen::Exiting);
}

#[test]
fn keys_on_chat_screen() {
    let mut ui = UiState::new();
    ui_control(&mut ui, InputEvent::Key(KeyInput::Char('c')), None);
    ui_control(&mut ui, InputEvent::Key(KeyInput::Char('h')), None);
    ui_control(&mut ui, InputEvent::Key(KeyInput::Char('i')), None);
    assert_eq!(ui.chat_messages, vec!["h".to_string(), "i".to_string()]);
    ui_control(&mut ui, InputEvent::Key(KeyInput::Backspace), None);
    assert_eq!(ui.chat_messages, vec!["h".to_string()]);
    ui_control(&mut ui, InputEvent::Key(KeyInput::Char('q')), None);
    assert_eq!(ui.current_screen, CurrentScreen::Chatting);
    ui_control(&mut ui, InputEvent::Key(KeyInput::Enter), None);
    assert!(ui.chat_messages.is_empty());
    ui_control(&mut ui, InputEvent::Key(KeyInput::Backspace), None);
    assert!(ui.chat_messages.is_empty());
}

#[test]
fn message_before_key() {
    let mut ui = UiState::new();
    ui_control(
        &mut ui,
        InputEvent::Key(KeyInput::Char('c')),
        Some("UPDATE_USERS:1:zed".to_string()),
    );
    assert_eq!(ui.users.get(&1).map(|s| s.as_str()), Some("zed"));
    assert_eq!(ui.current_screen, CurrentScreen::Chatting);
    ui_control(&mut ui, InputEvent::Other, Some("plain".to_string()));
    assert_eq!(ui.chat_messages, vec!["plain".to_string()]);
}

#[test]
fn chat_text_joins_lines() {
    let mut ui = UiState::new();
    assert_eq!(ui.chat_text(), "");
    ui.add_message("a".to_string());
    assert_eq!(ui.chat_text(), "a");
    ui.add_message("b".to_string());
    ui.add_message("c".to_string());
    assert_eq!(ui.chat_text(), "a\nb\nc");
}
