use std::collections::HashMap;
use vstd::prelude::*;
use vstd::std_specs::hash::group_hash_axioms;

use super::ui_control::{key_applied, InputEvent};
use crate::handles::connection_handles::{remove_user_text, update_users_text};
use crate::text::{
    decimal, find_char, find_char_index, has_prefix, is_digit, lemma_decimal_digits,
    lemma_decimal_parse_roundtrip, lemma_find_char_found, parse_u32, parse_u32_spec, starts_with,
};

verus! {

broadcast use group_hash_axioms;

/// The screen the UI shows.
#[derive(Debug, Clone, Copy, PartialEq, Eq, Structural)]
pub enum CurrentScreen {
    Main,
    Chatting,
    Exiting,
}

/// What the UI shows: its screen and title, the chat lines and the
/// connected users by connection id.
pub struct UiState {
    pub current_screen: CurrentScreen,
    pub user_name: String,
    pub chat_messages: Vec<String>,
    pub title: String,
    pub users: HashMap<u32, String>,
}

/// The title of the main screen.
pub open spec fn main_title() -> Seq<char> {
    "ShellWhisper"@
}

/// The title of the chat screen.
pub open spec fn chat_title() -> Seq<char> {
    "ShellWhisper (Chat Mode)"@
}

/// The prefix of a notice that announces a user.
pub open spec fn update_users_prefix() -> Seq<char> {
    "UPDATE_USERS:"@
}

/// The prefix of a notice that a user left.
pub open spec fn remove_user_prefix() -> Seq<char> {
    "REMOVE_USER:"@
}

/// The user a `UPDATE_USERS:{id}:{alias}` notice announces: the text after
/// the prefix must split at `:` into exactly two parts, the first a `u32`.
pub open spec fn announced_user(msg: Seq<char>) -> Option<(u32, Seq<char>)> {
    let rest = msg.subrange(update_users_prefix().len() as int, msg.len() as int);
    match find_char(rest, ':') {
        Some(i) => {
            let alias = rest.subrange(i + 1, rest.len() as int);
            if find_char(alias, ':') is None {
                match parse_u32_spec(rest.subrange(0, i)) {
                    Some(id) => Some((id, alias)),
                    None => None,
                }
            } else {
                None
            }
        },
        None => None,
    }
}

/// The connection id a `REMOVE_USER:{id}` notice names.
pub open spec fn removed_user(msg: Seq<char>) -> Option<u32> {
    parse_u32_spec(msg.subrange(remove_user_prefix().len() as int, msg.len() as int))
}

/// The chat lines joined by line breaks, as the chat panel shows them.
pub open spec fn joined_lines(lines: Seq<String>) -> Seq<char>
    decreases lines.len(),
{
    if lines.len() == 0 {
        Seq::empty()
    } else if lines.len() == 1 {
        lines[0]@
    } else {
        joined_lines(lines.drop_last()) + seq!['\n'] + lines.last()@
    }
}

impl UiState {
    /// The text of the chat panel: the chat lines joined by line breaks.
    pub fn chat_text(&self) -> (s: String)
        ensures
            s@ == joined_lines(self.chat_messages@),
    {
        let mut s = String::new();
        let n = self.chat_messages.len();
        let mut i: usize = 0;
        while i < n
            invariant
                i <= n,
                n == self.chat_messages@.len(),
                s@ == joined_lines(self.chat_messages@.subrange(0, i as int)),
            decreases n - i,
        {
            let ghost prefix = self.chat_messages@.subrange(0, i + 1);
            assert(prefix.drop_last() =~= self.chat_messages@.subrange(0, i as int));
            assert(prefix.last() == self.chat_messages@[i as int]);
            if i > 0 {
                s.append("\n");
                proof {
                    reveal_strlit("\n");
                }
                assert("\n"@ =~= seq!['\n']);
            } else {
                assert(s@ =~= Seq::<char>::empty());
                assert(prefix.len() == 1);
            }
            s.append(self.chat_messages[i].as_str());
            i = i + 1;
            assert(s@ =~= joined_lines(prefix));
        }
        assert(self.chat_messages@.subrange(0, n as int) =~= self.chat_messages@);
        s
    }

    /// The title matches the screen: the main title on the main screen, the
    /// chat title on the chat screen.
    pub open spec fn title_consistent(&self) -> bool {
        match self.current_screen {
            CurrentScreen::Main => self.title@ == main_title(),
            CurrentScreen::Chatting => self.title@ == chat_title(),
            CurrentScreen::Exiting => true,
        }
    }

    /// `post` is `pre` with the screen toggled between main and chat, and
    /// the title following it; the exit screen stays.
    pub open spec fn toggled(pre: UiState, post: UiState) -> bool {
        &&& match pre.current_screen {
            CurrentScreen::Main => post.current_screen == CurrentScreen::Chatting
                && post.title@ == chat_title(),
            CurrentScreen::Chatting => post.current_screen == CurrentScreen::Main
                && post.title@ == main_title(),
            CurrentScreen::Exiting => post.current_screen == CurrentScreen::Exiting
                && post.title == pre.title,
        }
        &&& post.user_name == pre.user_name
        &&& post.chat_messages == pre.chat_messages
        &&& post.users == pre.users
    }

    /// `post` is `pre` after the notice `msg` from the server: an
    /// announced user is added, a named user removed, a malformed notice
    /// ignored, and any other message becomes a chat line.
    pub open spec fn notice_applied(pre: UiState, post: UiState, msg: String) -> bool {
        &&& post.current_screen == pre.current_screen
        &&& post.title == pre.title
        &&& post.user_name == pre.user_name
        &&& if has_prefix(msg@, update_users_prefix()) {
            &&& post.chat_messages == pre.chat_messages
            &&& match announced_user(msg@) {
                Some((id, alias)) => {
                    &&& post.users@ == pre.users@.insert(id, post.users@[id])
                    &&& post.users@[id]@ == alias
                },
                None => post.users == pre.users,
            }
        } else if has_prefix(msg@, remove_user_prefix()) {
            &&& post.chat_messages == pre.chat_messages
            &&& match removed_user(msg@) {
                Some(id) => post.users@ == pre.users@.remove(id),
                None => post.users == pre.users,
            }
        } else {
            &&& post.chat_messages@ == pre.chat_messages@.push(msg)
            &&& post.users == pre.users
        }
    }

    /// The starting UI: the main screen and title, no chat lines, no users.
    pub fn new() -> (s: Self)
        ensures
            s.current_screen == CurrentScreen::Main,
            s.user_name@ == Seq::<char>::empty(),
            s.chat_messages@ == Seq::<String>::empty(),
            s.title@ == main_title(),
            s.users@ == Map::<u32, String>::empty(),
            s.title_consistent(),
    {
        UiState {
            current_screen: CurrentScreen::Main,
            user_name: String::new(),
            chat_messages: Vec::new(),
            title: String::from_str("ShellWhisper"),
            users: HashMap::new(),
        }
    }

    /// Switches between the main and the chat screen; the exit screen
    /// stays.
    pub fn toggle_screen(&mut self)
        ensures
            UiState::toggled(*old(self), *final(self)),
    {
        self.current_screen = match self.current_screen {
            CurrentScreen::Main => {
                self.title = String::from_str("ShellWhisper (Chat Mode)");
                CurrentScreen::Chatting
            },
            CurrentScreen::Chatting => {
                self.title = String::from_str("ShellWhisper");
                CurrentScreen::Main
            },
            CurrentScreen::Exiting => CurrentScreen::Exiting,
        }
    }

    /// Appends a chat line.
    pub fn add_message(&mut self, message: String)
        ensures
            final(self).chat_messages@ == old(self).chat_messages@.push(message),
            final(self).current_screen == old(self).current_screen,
            final(self).title == old(self).title,
            final(self).user_name == old(self).user_name,
            final(self).users == old(self).users,
    {
        self.chat_messages.push(message);
    }

    /// Applies a message from the server: `UPDATE_USERS:{id}:{alias}` adds
    /// a user, `REMOVE_USER:{id}` removes one, anything else is a chat
    /// line.
    pub fn apply_notice(&mut self, message: String)
        ensures
            UiState::notice_applied(*old(self), *final(self), message),
    {
        proof {
            reveal_strlit("UPDATE_USERS:");
            reveal_strlit("REMOVE_USER:");
        }
        let s = message.as_str();
        let len = s.unicode_len();
        if starts_with(s, "UPDATE_USERS:") {
            let rest = s.substring_char(13, len);
            let rlen = rest.unicode_len();
            if let Some(i) = find_char_index(rest, ':') {
                let alias = rest.substring_char(i + 1, rlen);
                if find_char_index(alias, ':').is_none() {
                    if let Some(id) = parse_u32(rest.substring_char(0, i)) {
                        self.users.insert(id, alias.to_owned());
                    }
                }
            }
        } else if starts_with(s, "REMOVE_USER:") {
            if let Some(id) = parse_u32(s.substring_char(12, len)) {
                self.users.remove(&id);
            }
        } else {
            self.add_message(message);
        }
    }
}

/// The UI understands the announcements the server sends: the notice for
/// user `alias` on connection `id` adds exactly that user, provided the
/// alias holds no `:`.
pub proof fn lemma_update_notice_understood(id: u32, alias: Seq<char>)
    requires
        find_char(alias, ':') is None,
    ensures
        has_prefix(update_users_text(id, alias), update_users_prefix()),
        announced_user(update_users_text(id, alias)) == Some((id, alias)),
{
    reveal_strlit("UPDATE_USERS:");
    let d = decimal(id as nat);
    let msg = update_users_text(id, alias);
    let p = update_users_prefix();
    assert(msg.subrange(0, p.len() as int) =~= p);
    let rest = msg.subrange(p.len() as int, msg.len() as int);
    assert(rest =~= d + seq![':'] + alias);
    lemma_decimal_digits(id as nat);
    assert forall|k: int| 0 <= k < d.len() implies rest[k] != ':' by {
        assert(rest[k] == d[k]);
        assert(is_digit(d[k]));
    }
    lemma_find_char_found(rest, ':', d.len() as int);
    assert(rest.subrange(d.len() as int + 1, rest.len() as int) =~= alias);
    assert(rest.subrange(0, d.len() as int) =~= d);
    lemma_decimal_parse_roundtrip(id);
}

/// The UI understands the departures the server sends: the notice for
/// connection `id` removes exactly that user.
pub proof fn lemma_remove_notice_understood(id: u32)
    ensures
        !has_prefix(remove_user_text(id), update_users_prefix()),
        has_prefix(remove_user_text(id), remove_user_prefix()),
        removed_user(remove_user_text(id)) == Some(id),
{
    reveal_strlit("UPDATE_USERS:");
    reveal_strlit("REMOVE_USER:");
    let msg = remove_user_text(id);
    let p = remove_user_prefix();
    assert(msg.subrange(0, p.len() as int) =~= p);
    assert(msg[0] != update_users_prefix()[0]);
    if has_prefix(msg, update_users_prefix()) {
        assert(msg.subrange(0, 13)[0] == msg[0]);
    }
    assert(msg.subrange(p.len() as int, msg.len() as int) =~= decimal(id as nat));
    lemma_decimal_parse_roundtrip(id);
}

/// Toggling the screen twice from the main or the chat screen returns to
/// that screen, with its title.
pub proof fn lemma_toggle_twice(s0: UiState, s1: UiState, s2: UiState)
    requires
        s0.current_screen != CurrentScreen::Exiting,
        s0.title_consistent(),
        UiState::toggled(s0, s1),
        UiState::toggled(s1, s2),
    ensures
        s2.current_screen == s0.current_screen,
        s2.title@ == s0.title@,
        s2.chat_messages == s0.chat_messages,
        s2.users == s0.users,
{
}

/// Toggling the screen, applying notices and handling keys keep the title
/// in step with the screen.
pub proof fn lemma_title_consistent_kept(pre: UiState, post: UiState, msg: String, key: InputEvent)
    requires
        pre.title_consistent(),
    ensures
        UiState::toggled(pre, post) ==> post.title_consistent(),
        UiState::notice_applied(pre, post, msg) ==> post.title_consistent(),
        key_applied(pre, post, key) ==> post.title_consistent(),
{
}

/// The total number of characters in `lines`.
pub open spec fn total_len(lines: Seq<String>) -> nat
    decreases lines.len(),
{
    if lines.len() == 0 {
        0
    } else {
        total_len(lines.drop_last()) + lines.last()@.len()
    }
}

/// Where line `i` starts when `lines` are written one after another with
/// a line break between each two.
pub open spec fn line_offset(lines: Seq<String>, i: int) -> int {
    total_len(lines.take(i)) + i
}

proof fn lemma_joined_len(lines: Seq<String>)
    requires
        lines.len() > 0,
    ensures
        joined_lines(lines).len() == total_len(lines) + lines.len() - 1,
    decreases lines.len(),
{
    if lines.len() > 1 {
        let rest = lines.drop_last();
        lemma_joined_len(rest);
        assert(joined_lines(lines) == joined_lines(rest) + seq!['\n'] + lines.last()@);
        assert(total_len(lines) == total_len(rest) + lines.last()@.len());
        assert(joined_lines(lines).len() == joined_lines(rest).len() + 1 + lines.last()@.len());
    } else {
        assert(lines.drop_last() =~= Seq::<String>::empty());
        assert(total_len(lines.drop_last()) == 0);
        assert(total_len(lines) == lines.last()@.len());
        assert(joined_lines(lines) == lines[0]@);
    }
}

proof fn lemma_line_at(lines: Seq<String>, i: int)
    requires
        0 <= i < lines.len(),
    ensures
        line_offset(lines, i) + lines[i]@.len() <= joined_lines(lines).len(),
        joined_lines(lines).subrange(line_offset(lines, i), line_offset(lines, i) + lines[i]@.len())
            == lines[i]@,
        i > 0 ==> joined_lines(lines)[line_offset(lines, i) - 1] == '\n',
    decreases lines.len(),
{
    let n = lines.len() as int;
    lemma_joined_len(lines);
    if n == 1 {
        assert(lines.take(0) =~= Seq::<String>::empty());
        assert(lines.drop_last() =~= Seq::<String>::empty());
        assert(line_offset(lines, 0) == 0);
        assert(joined_lines(lines).subrange(0, lines[0]@.len() as int) =~= lines[0]@);
    } else {
        let rest = lines.drop_last();
        lemma_joined_len(rest);
        assert(joined_lines(lines) == joined_lines(rest) + seq!['\n'] + lines.last()@);
        if i < n - 1 {
            lemma_line_at(rest, i);
            assert(lines.take(i) =~= rest.take(i));
            assert(rest[i] == lines[i]);
            assert(joined_lines(lines).subrange(
                line_offset(lines, i),
                line_offset(lines, i) + lines[i]@.len(),
            ) =~= joined_lines(rest).subrange(
                line_offset(rest, i),
                line_offset(rest, i) + rest[i]@.len(),
            ));
        } else {
            assert(lines.take(n - 1) =~= rest);
            assert(line_offset(lines, i) == joined_lines(rest).len() + 1);
            assert(joined_lines(lines).subrange(
                line_offset(lines, i),
                line_offset(lines, i) + lines[i]@.len(),
            ) =~= lines.last()@);
        }
    }
}

/// The chat panel text holds every chat line, in order, separated by
/// single line breaks: its length is the total length of the lines plus
/// one break between each two, each line stands at its offset, and a
/// break stands before every line but the first.
pub proof fn lemma_chat_text_holds_every_line(lines: Seq<String>)
    ensures
        lines.len() > 0 ==> joined_lines(lines).len() == total_len(lines) + lines.len() - 1,
        forall|i: int|
            #![trigger line_offset(lines, i)]
            0 <= i < lines.len() ==> line_offset(lines, i) + lines[i]@.len() <= joined_lines(
                lines,
            ).len() && joined_lines(lines).subrange(
                line_offset(lines, i),
                line_offset(lines, i) + lines[i]@.len(),
            ) == lines[i]@,
        forall|i: int|
            0 < i < lines.len() ==> #[trigger] joined_lines(lines)[line_offset(lines, i) - 1]
                == '\n',
{
    if lines.len() > 0 {
        lemma_joined_len(lines);
    }
    assert forall|i: int|
        #![trigger line_offset(lines, i)]
        0 <= i < lines.len() implies line_offset(lines, i) + lines[i]@.len() <= joined_lines(
            lines,
        ).len() && joined_lines(lines).subrange(
            line_offset(lines, i),
            line_offset(lines, i) + lines[i]@.len(),
        ) == lines[i]@ by {
        lemma_line_at(lines, i);
    }
    assert forall|i: int| 0 < i < lines.len() implies #[trigger] joined_lines(lines)[line_offset(
        lines,
        i,
    ) - 1] == '\n' by {
        lemma_line_at(lines, i);
    }
}

/// Adding a line to a non-empty chat adds a line break and that line at
/// the end of the chat panel text.
pub proof fn lemma_chat_text_push(lines: Seq<String>, line: String)
    requires
        lines.len() > 0,
    ensures
        joined_lines(lines.push(line)) == joined_lines(lines) + seq!['\n'] + line@,
{
    assert(lines.push(line).drop_last() =~= lines);
}

} // verus!
