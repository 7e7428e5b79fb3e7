use vstd::prelude::*;

use super::ui_state::{CurrentScreen, UiState};
use crate::text::char_to_string;

verus! {

/// A key the UI reacts to.
#[derive(Debug, Clone, Copy, PartialEq, Eq, Structural)]
pub enum KeyInput {
    Char(char),
    Esc,
    Backspace,
    Enter,
    Other,
}

/// A terminal event: a key press, or something the UI does not react to.
#[derive(Debug, Clone, Copy, PartialEq, Eq, Structural)]
pub enum InputEvent {
    Key(KeyInput),
    Other,
}

/// `post` is `pre` after the key event `key`. On the main screen `q` exits
/// and `c` toggles to the chat screen. On the chat screen `Esc` toggles
/// back, a character is appended as a line of its own, `Backspace` drops
/// the last line and `Enter` clears the lines. Anything else changes
/// nothing.
pub open spec fn key_applied(pre: UiState, post: UiState, key: InputEvent) -> bool {
    match key {
        InputEvent::Key(k) => match pre.current_screen {
            CurrentScreen::Main => match k {
                KeyInput::Char(c) => if c == 'q' {
                    &&& post.current_screen == CurrentScreen::Exiting
                    &&& post.title == pre.title
                    &&& post.user_name == pre.user_name
                    &&& post.chat_messages == pre.chat_messages
                    &&& post.users == pre.users
                } else if c == 'c' {
                    UiState::toggled(pre, post)
                } else {
                    post == pre
                },
                _ => post == pre,
            },
            CurrentScreen::Chatting => {
                &&& match k {
                    KeyInput::Esc => UiState::toggled(pre, post),
                    KeyInput::Char(c) => {
                        &&& post.chat_messages@ == pre.chat_messages@.push(post.chat_messages@.last())
                        &&& post.chat_messages@.last()@ == seq![c]
                        &&& post.current_screen == pre.current_screen
                        &&& post.title == pre.title
                    },
                    KeyInput::Backspace => {
                        &&& post.chat_messages@ == if pre.chat_messages@.len() > 0 {
                            pre.chat_messages@.drop_last()
                        } else {
                            pre.chat_messages@
                        }
                        &&& post.current_screen == pre.current_screen
                        &&& post.title == pre.title
                    },
                    KeyInput::Enter => {
                        &&& post.chat_messages@ == Seq::<String>::empty()
                        &&& post.current_screen == pre.current_screen
                        &&& post.title == pre.title
                    },
                    KeyInput::Other => post == pre,
                }
                &&& post.user_name == pre.user_name
                &&& post.users == pre.users
            },
            CurrentScreen::Exiting => post == pre,
        },
        InputEvent::Other => post == pre,
    }
}

/// Applies to the UI a message from the server, if there is one (as
/// `UiState::apply_notice` does), and then the event `key`.
pub fn ui_control(ui_state: &mut UiState, key: InputEvent, message: Option<String>)
    ensures
        match message {
            Some(msg) => exists|mid: UiState|
                UiState::notice_applied(*old(ui_state), mid, msg) && key_applied(
                    mid,
                    *final(ui_state),
                    key,
                ),
            None => key_applied(*old(ui_state), *final(ui_state), key),
        },
{
    let ghost start = *ui_state;
    if let Some(message) = message {
        ui_state.apply_notice(message);
    }
    let ghost mid = *ui_state;
    if let InputEvent::Key(code) = key {
        match ui_state.current_screen {
            CurrentScreen::Main => match code {
                KeyInput::Char(c) => {
                    if c == 'q' {
                        ui_state.current_screen = CurrentScreen::Exiting;
                    } else if c == 'c' {
                        ui_state.toggle_screen();
                    }
                },
                _ => {},
            },
            CurrentScreen::Chatting => match code {
                KeyInput::Esc => ui_state.toggle_screen(),
                KeyInput::Char(c) => ui_state.chat_messages.push(char_to_string(c)),
                KeyInput::Backspace => {
                    ui_state.chat_messages.pop();
                },
                KeyInput::Enter => {
                    if !ui_state.chat_messages.is_empty() {
                        ui_state.chat_messages.clear();
                    } else {
                        assert(ui_state.chat_messages@ =~= Seq::<String>::empty());
                    }
                },
                KeyInput::Other => {},
            },
            CurrentScreen::Exiting => {},
        }
    }
    assert(key_applied(mid, *ui_state, key));
}

/// Only `q` pressed on the main screen reaches the exit screen: a key
/// event that ends on the exit screen from any other screen was `q` on the
/// main screen, so no other key (`Esc` among them) quits from the main or
/// the chat screen. A notice from the server never changes the screen.
pub proof fn lemma_exit_only_by_q(pre: UiState, post: UiState, key: InputEvent, msg: String)
    requires
        pre.current_screen != CurrentScreen::Exiting,
    ensures
        key_applied(pre, post, key) && post.current_screen == CurrentScreen::Exiting ==> (
        pre.current_screen == CurrentScreen::Main && key == InputEvent::Key(KeyInput::Char('q'))),
        UiState::notice_applied(pre, post, msg) ==> post.current_screen == pre.current_screen,
{
}

/// On the main screen every key but `q` and `c` leaves the UI as it is.
pub proof fn lemma_main_ignores_other_keys(pre: UiState, post: UiState, key: InputEvent)
    requires
        pre.current_screen == CurrentScreen::Main,
        key != InputEvent::Key(KeyInput::Char('q')),
        key != InputEvent::Key(KeyInput::Char('c')),
        key_applied(pre, post, key),
    ensures
        post == pre,
{
}

} // verus!
