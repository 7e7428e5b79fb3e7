//! What the chat client sends and shows: its frames, one per line.

use vstd::prelude::*;

use crate::handles::message::{
    frame_text, hex_digit_char, lemma_frame_roundtrip, payload_content, payload_type,
    received_text, MessageType, MESSAGE_TYPE_ALIAS, MESSAGE_TYPE_TEXT,
};
use crate::text::{
    all_white_space, decode_utf8_lossy, decoded_lossy, is_white_space, lemma_trimmed_ws_suffix,
    trim, trimmed,
};
use vstd::utf8::encode_utf8;

verus! {

/// The line the client sends: the frame of `text` with type `type_byte`,
/// ended by a line break.
pub open spec fn client_line(type_byte: u8, text: Seq<char>) -> Seq<char> {
    frame_text(type_byte, text).push('\n')
}

fn hex_digit_str(d: u8) -> (r: &'static str)
    requires
        d < 16,
    ensures
        r@ == seq![hex_digit_char(d as nat)],
{
    proof {
        reveal_strlit("0");
        reveal_strlit("1");
        reveal_strlit("2");
        reveal_strlit("3");
        reveal_strlit("4");
        reveal_strlit("5");
        reveal_strlit("6");
        reveal_strlit("7");
        reveal_strlit("8");
        reveal_strlit("9");
        reveal_strlit("a");
        reveal_strlit("b");
        reveal_strlit("c");
        reveal_strlit("d");
        reveal_strlit("e");
        reveal_strlit("f");
    }
    let r = if d == 0 { "0" }
    else if d == 1 { "1" }
    else if d == 2 { "2" }
    else if d == 3 { "3" }
    else if d == 4 { "4" }
    else if d == 5 { "5" }
    else if d == 6 { "6" }
    else if d == 7 { "7" }
    else if d == 8 { "8" }
    else if d == 9 { "9" }
    else if d == 10 { "a" }
    else if d == 11 { "b" }
    else if d == 12 { "c" }
    else if d == 13 { "d" }
    else if d == 14 { "e" }
    else { "f" };
    assert(r@ =~= seq![hex_digit_char(d as nat)]);
    r
}

/// The line that sends `text` as a message of type `type_byte`:
/// `0x{type:02x} | {text}` and a line break.
pub fn frame_line(type_byte: u8, text: &str) -> (s: String)
    ensures
        s@ == client_line(type_byte, text@),
{
    let mut s = String::from_str("0x");
    s.append(hex_digit_str(type_byte / 16));
    s.append(hex_digit_str(type_byte % 16));
    s.append(" | ");
    s.append(text);
    s.append("\n");
    proof {
        reveal_strlit("0x");
        reveal_strlit(" | ");
        reveal_strlit("\n");
    }
    assert(s@ =~= client_line(type_byte, text@));
    s
}

/// The line that announces the alias typed as `input` (trimmed).
pub fn alias_line(input: &str) -> (s: String)
    ensures
        s@ == client_line(MESSAGE_TYPE_ALIAS, trimmed(input@)),
{
    frame_line(MESSAGE_TYPE_ALIAS, trim(input))
}

/// The line that sends the chat message typed as `input` (trimmed); none
/// when nothing but white space was typed.
pub fn chat_message_line(input: &str) -> (r: Option<String>)
    ensures
        trimmed(input@).len() == 0 <==> r is None,
        r matches Some(s) ==> s@ == client_line(MESSAGE_TYPE_TEXT, trimmed(input@)),
{
    let message = trim(input);
    if message.unicode_len() == 0 {
        None
    } else {
        Some(frame_line(MESSAGE_TYPE_TEXT, message))
    }
}

/// The text of a reply of `n` bytes from the server, decoded as UTF-8 with
/// invalid sequences replaced; none when `n` is 0, which means the server
/// closed the connection.
pub fn reply_text(buffer: &[u8], n: usize) -> (r: Option<String>)
    requires
        n <= buffer@.len(),
    ensures
        n == 0 <==> r is None,
        r matches Some(s) ==> s@ == decoded_lossy(buffer@.subrange(0, n as int)),
{
    if n == 0 {
        return None;
    }
    let (head, _rest) = buffer.split_at(n);
    Some(decode_utf8_lossy(head))
}

/// The server reads a line the client sends as a message of the type it
/// was sent with, whose content is the sent text, trimmed.
pub proof fn lemma_client_line_read_back(t: MessageType, text: Seq<char>)
    ensures
        ({
            let bytes = encode_utf8(client_line(t.spec_to_byte(), text));
            &&& payload_type(received_text(bytes, bytes.len() as int)) == t
            &&& payload_content(received_text(bytes, bytes.len() as int)) == trimmed(text)
        }),
{
    let b = t.spec_to_byte();
    let nl = seq!['\n'];
    assert(client_line(b, text) =~= frame_text(b, text + nl));
    lemma_frame_roundtrip(t, text + nl);
    assert(is_white_space(nl[0]));
    assert(all_white_space(nl));
    lemma_trimmed_ws_suffix(text, nl);
}

} // verus!
