fn at() -> chrono::NaiveDateTime {
    chrono::DateTime::from_timestamp(1_700_000_000, 0).unwrap().naive_utc()
}

use server::client::{alias_line, chat_message_line, frame_line, reply_text};
use server::handles::connection_handles::{remove_user_notice, update_users_notice};
use server::handles::message::{Message, MessageType};
use server::ui::ui_screen::{navigation_instructions, HintStyle};
use server::ui::ui_state::{CurrentScreen, UiState};

#[test]
fn client_lines() {
    assert_eq!(frame_line(0x04, "hi"), "0x04 | hi\n");
    assert_eq!(frame_line(0xab, ""), "0xab | \n");
    assert_eq!(alias_line("  ana \n"), "0x05 | ana\n");
    assert_eq!(chat_message_line("  hello\n"), Some("0x04 | hello\n".to_string()));
    assert_eq!(chat_message_line(" \t\n"), None);
}

#[test]
fn client_replies() {
    assert_eq!(reply_text(b"0x03 | hey", 10), Some("0x03 | hey".to_string()));
    assert_eq!(reply_text(b"abc", 2), Some("ab".to_string()));
    assert_eq!(reply_text(b"abc", 0), None);
    assert_eq!(reply_text(&[0xff], 1), Some("\u{FFFD}".to_string()));
}

#[test]
fn server_reads_client_lines() {
    let alias = alias_line(" bob ");
    let m = Message::from_buffer(alias.as_bytes(), alias.len(), 0, 1, at());
    assert_eq!(m.content_type, MessageType::Alias);
    assert_eq!(m.content, "bob");
    let text = chat_message_line("how are you? ").unwrap();
    let m = Message::from_buffer(text.as_bytes(), text.len(), 3, 1, at());
    assert_eq!(m.content_type, MessageType::Text);
    assert_eq!(m.content, "how are you?");
}

#[test]
fn ui_understands_server_notices() {
    let mut ui = UiState::new();
    ui.apply_notice(update_users_notice(4294967295, "max"));
    assert_eq!(ui.users.get(&4294967295).map(|s| s.as_str()), Some("max"));
    ui.apply_notice(update_users_notice(0, "zero"));
    assert_eq!(ui.users.len(), 2);
    ui.apply_notice(remove_user_notice(4294967295));
    assert_eq!(ui.users.len(), 1);
    assert_eq!(ui.users.get(&0).map(|s| s.as_str()), Some("zero"));
    // An alias with a `:` does not split into two parts and is ignored.
    ui.apply_notice(update_users_notice(8, "a:b"));
    assert!(ui.users.get(&8).is_none());
    assert!(ui.chat_messages.is_empty());
}

#[test]
fn navigation_lines() {
    let mut ui = UiState::new();
    let main: Vec<(String, HintStyle)> =
        navigation_instructions(&ui).into_iter().map(|h| (h.text, h.style)).collect();
    assert_eq!(
        main,
        vec![
            (" Send message ".to_string(), HintStyle::Plain),
            ("<ENTER>".to_string(), HintStyle::Key),
            (" Chat mode ".to_string(), HintStyle::Plain),
            ("<C>".to_string(), HintStyle::Key),
            (" Quit ".to_string(), HintStyle::Plain),
            ("<Q>".to_string(), HintStyle::Key),
        ]
    );
    ui.toggle_screen();
    let chat: Vec<String> = navigation_instructions(&ui).into_iter().map(|h| h.text).collect();
    assert_eq!(chat[0], " Go back ");
    assert_eq!(chat[1], "<ESC>");
    assert_eq!(chat[3], "<Enter>");
    ui.current_screen = CurrentScreen::Exiting;
    let exit = navigation_instructions(&ui);
    assert_eq!(exit.len(), 1);
    assert_eq!(exit[0].text, "Exiting...");
    assert_eq!(exit[0].style, HintStyle::Alert);
}
