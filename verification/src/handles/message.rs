use chrono::NaiveDateTime;
use vstd::prelude::*;
use vstd::utf8::{
    encode_utf8, encode_utf8_decode_utf8, encode_utf8_valid_utf8, is_ascii_chars,
    is_ascii_chars_encode_utf8,
};

use super::user::User;
use crate::text::{
    ascii_lowercase, decode_utf8_lossy, decoded_lossy, digit_char, is_white_space,
    lemma_encode_utf8_concat, lemma_trim_end_drop_suffix, lemma_trim_end_keep,
    lemma_trim_end_split, lemma_trim_start_drop_prefix, lemma_trim_start_keep,
    lemma_trimmed_of_trim_end, lowercased, str_eq, to_lowercase, trim, trim_end,
    trimmed, find_char, find_char_index, lemma_find_char_found, decimal,
};

verus! {

pub const MESSAGE_TYPE_ERROR: u8 = 0x01;

pub const MESSAGE_TYPE_WARNING: u8 = 0x02;

pub const MESSAGE_TYPE_INFO: u8 = 0x03;

pub const MESSAGE_TYPE_TEXT: u8 = 0x04;

pub const MESSAGE_TYPE_ALIAS: u8 = 0x05;

/// What a message carries: chat text, a chosen alias, or a server notice.
#[derive(Debug, Clone, Copy, PartialEq, Eq, Structural)]
pub enum MessageType {
    Warning,
    Info,
    Error,
    Text,
    Alias,
}

impl MessageType {
    /// The type a wire byte stands for; unknown bytes are text.
    pub open spec fn spec_from_byte(byte: u8) -> MessageType {
        if byte == MESSAGE_TYPE_ERROR {
            MessageType::Error
        } else if byte == MESSAGE_TYPE_WARNING {
            MessageType::Warning
        } else if byte == MESSAGE_TYPE_INFO {
            MessageType::Info
        } else if byte == MESSAGE_TYPE_ALIAS {
            MessageType::Alias
        } else {
            MessageType::Text
        }
    }

    /// The wire byte of a type.
    pub open spec fn spec_to_byte(self) -> u8 {
        match self {
            MessageType::Error => MESSAGE_TYPE_ERROR,
            MessageType::Warning => MESSAGE_TYPE_WARNING,
            MessageType::Info => MESSAGE_TYPE_INFO,
            MessageType::Text => MESSAGE_TYPE_TEXT,
            MessageType::Alias => MESSAGE_TYPE_ALIAS,
        }
    }

    /// The lower-case name under which a type is stored.
    pub open spec fn name(self) -> Seq<char> {
        match self {
            MessageType::Warning => "warning"@,
            MessageType::Info => "info"@,
            MessageType::Error => "error"@,
            MessageType::Text => "text"@,
            MessageType::Alias => "alias"@,
        }
    }

    /// The name of the variant, as `{:?}` shows it.
    pub open spec fn variant_name(self) -> Seq<char> {
        match self {
            MessageType::Warning => "Warning"@,
            MessageType::Info => "Info"@,
            MessageType::Error => "Error"@,
            MessageType::Text => "Text"@,
            MessageType::Alias => "Alias"@,
        }
    }

    /// The type a stored (already lower-cased) name stands for; unknown
    /// names are text.
    pub open spec fn spec_from_name(s: Seq<char>) -> MessageType {
        if s == "warning"@ {
            MessageType::Warning
        } else if s == "info"@ {
            MessageType::Info
        } else if s == "error"@ {
            MessageType::Error
        } else if s == "alias"@ {
            MessageType::Alias
        } else {
            MessageType::Text
        }
    }

    pub fn from_byte(byte: u8) -> (t: Self)
        ensures
            t == Self::spec_from_byte(byte),
    {
        if byte == MESSAGE_TYPE_ERROR {
            MessageType::Error
        } else if byte == MESSAGE_TYPE_WARNING {
            MessageType::Warning
        } else if byte == MESSAGE_TYPE_INFO {
            MessageType::Info
        } else if byte == MESSAGE_TYPE_ALIAS {
            MessageType::Alias
        } else {
            MessageType::Text
        }
    }

    pub fn to_byte(&self) -> (b: u8)
        ensures
            b == self.spec_to_byte(),
    {
        match self {
            MessageType::Error => MESSAGE_TYPE_ERROR,
            MessageType::Warning => MESSAGE_TYPE_WARNING,
            MessageType::Info => MESSAGE_TYPE_INFO,
            MessageType::Text => MESSAGE_TYPE_TEXT,
            MessageType::Alias => MESSAGE_TYPE_ALIAS,
        }
    }

    /// The lower-case name of the type.
    pub fn to_string(&self) -> (s: String)
        ensures
            s@ == self.name(),
    {
        match self {
            MessageType::Warning => String::from_str("warning"),
            MessageType::Info => String::from_str("info"),
            MessageType::Error => String::from_str("error"),
            MessageType::Text => String::from_str("text"),
            MessageType::Alias => String::from_str("alias"),
        }
    }

    /// The name of the variant, as `{:?}` shows it.
    pub fn variant_name_string(&self) -> (s: String)
        ensures
            s@ == self.variant_name(),
    {
        match self {
            MessageType::Warning => String::from_str("Warning"),
            MessageType::Info => String::from_str("Info"),
            MessageType::Error => String::from_str("Error"),
            MessageType::Text => String::from_str("Text"),
            MessageType::Alias => String::from_str("Alias"),
        }
    }

    /// The type named by an already lower-cased name.
    pub fn from_lowercase_name(s: &str) -> (t: Self)
        ensures
            t == Self::spec_from_name(s@),
    {
        if str_eq(s, "warning") {
            MessageType::Warning
        } else if str_eq(s, "info") {
            MessageType::Info
        } else if str_eq(s, "error") {
            MessageType::Error
        } else if str_eq(s, "alias") {
            MessageType::Alias
        } else {
            MessageType::Text
        }
    }
}

impl From<String> for MessageType {
    /// The type named by `s`, compared without regard to case.
    fn from(s: String) -> (t: Self) {
        let lowered = to_lowercase(s.as_str());
        Self::from_lowercase_name(lowered.as_str())
    }
}

impl vstd::std_specs::convert::FromSpecImpl<String> for MessageType {
    open spec fn obeys_from_spec() -> bool {
        true
    }

    open spec fn from_spec(s: String) -> Self {
        MessageType::spec_from_name(lowercased(s@))
    }
}

/// The lower-case hexadecimal digit for `d` (for `d < 16`).
pub open spec fn hex_digit_char(d: nat) -> char {
    if d < 10 {
        digit_char(d)
    } else if d == 10 {
        'a'
    } else if d == 11 {
        'b'
    } else if d == 12 {
        'c'
    } else if d == 13 {
        'd'
    } else if d == 14 {
        'e'
    } else {
        'f'
    }
}

/// The header `0x{type:02x} | ` that opens a frame.
pub open spec fn frame_header(type_byte: u8) -> Seq<char> {
    seq![
        '0',
        'x',
        hex_digit_char(type_byte as nat / 16),
        hex_digit_char(type_byte as nat % 16),
        ' ',
        '|',
        ' ',
    ]
}

/// The text of a frame: `0x{type:02x} | {content}`.
pub open spec fn frame_text(type_byte: u8, content: Seq<char>) -> Seq<char> {
    frame_header(type_byte) + content
}

/// The bytes of a frame: the UTF-8 encoding of its text.
pub open spec fn frame_bytes(type_byte: u8, content: Seq<char>) -> Seq<u8> {
    encode_utf8(frame_text(type_byte, content))
}

fn hex_digit_byte(d: u8) -> (b: u8)
    requires
        d < 16,
    ensures
        b == hex_digit_char(d as nat) as u8,
{
    if d < 10 {
        0x30 + d
    } else {
        0x57 + d
    }
}

proof fn lemma_frame_header_ascii(type_byte: u8)
    ensures
        is_ascii_chars(frame_header(type_byte)),
        encode_utf8(frame_header(type_byte)).len() == 7,
        forall|i: int|
            0 <= i < 7 ==> #[trigger] encode_utf8(frame_header(type_byte))[i] == frame_header(
                type_byte,
            )[i] as u8,
{
    let h = frame_header(type_byte);
    assert(is_ascii_chars(h));
    is_ascii_chars_encode_utf8(h);
}

/// `s` with every space character (U+0020) removed.
pub open spec fn without_spaces(s: Seq<char>) -> Seq<char>
    decreases s.len(),
{
    if s.len() == 0 {
        s
    } else if s.last() == ' ' {
        without_spaces(s.drop_last())
    } else {
        without_spaces(s.drop_last()).push(s.last())
    }
}

/// `s` with every leading repetition of `0x` removed.
pub open spec fn strip_hex_prefixes(s: Seq<char>) -> Seq<char>
    decreases s.len(),
{
    if s.len() >= 2 && s[0] == '0' && s[1] == 'x' {
        strip_hex_prefixes(s.subrange(2, s.len() as int))
    } else {
        s
    }
}

/// The type field of a frame as it is matched: trimmed, without spaces and
/// without leading `0x`.
pub open spec fn cleaned_type_token(type_field: Seq<char>) -> Seq<char> {
    strip_hex_prefixes(without_spaces(trimmed(type_field)))
}

/// The type byte that a cleaned, lower-cased type field selects: `1` or
/// `01` for errors, `2`/`02` for warnings, `3`/`03` for notices, `5`/`05`
/// for aliases, and text for anything else.
pub open spec fn type_byte_for(token: Seq<char>) -> u8 {
    if token == "01"@ || token == "1"@ {
        MESSAGE_TYPE_ERROR
    } else if token == "02"@ || token == "2"@ {
        MESSAGE_TYPE_WARNING
    } else if token == "03"@ || token == "3"@ {
        MESSAGE_TYPE_INFO
    } else if token == "05"@ || token == "5"@ {
        MESSAGE_TYPE_ALIAS
    } else {
        MESSAGE_TYPE_TEXT
    }
}

/// The type of a received payload (already trimmed): the type field before
/// the first `|`, cleaned and lower-cased; text when there is no `|`.
pub open spec fn payload_type(text: Seq<char>) -> MessageType {
    match find_char(text, '|') {
        Some(i) => MessageType::spec_from_byte(
            type_byte_for(lowercased(cleaned_type_token(text.subrange(0, i)))),
        ),
        None => MessageType::Text,
    }
}

/// The content of a received payload (already trimmed): what follows the
/// first `|`, trimmed; the whole payload when there is no `|`.
pub open spec fn payload_content(text: Seq<char>) -> Seq<char> {
    match find_char(text, '|') {
        Some(i) => trimmed(text.subrange(i + 1, text.len() as int)),
        None => text,
    }
}

/// The trimmed text of the first `n` bytes of a receive buffer.
pub open spec fn received_text(buffer: Seq<u8>, n: int) -> Seq<char> {
    trimmed(decoded_lossy(buffer.subrange(0, n)))
}

/// The type byte that a cleaned, lower-cased type field selects.
pub fn type_byte_for_token(token: &str) -> (b: u8)
    ensures
        b == type_byte_for(token@),
{
    if str_eq(token, "01") || str_eq(token, "1") {
        MESSAGE_TYPE_ERROR
    } else if str_eq(token, "02") || str_eq(token, "2") {
        MESSAGE_TYPE_WARNING
    } else if str_eq(token, "03") || str_eq(token, "3") {
        MESSAGE_TYPE_INFO
    } else if str_eq(token, "05") || str_eq(token, "5") {
        MESSAGE_TYPE_ALIAS
    } else {
        MESSAGE_TYPE_TEXT
    }
}

/// Cleans the type field of a frame: trims it, removes its spaces and its
/// leading `0x` repetitions.
pub fn clean_type_token(type_field: &str) -> (r: String)
    ensures
        r@ == cleaned_type_token(type_field@),
{
    let ts = trim(type_field);
    let n = ts.unicode_len();
    let mut ns = String::new();
    let mut k: usize = 0;
    while k < n
        invariant
            k <= n,
            n == ts@.len(),
            ns@ == without_spaces(ts@.subrange(0, k as int)),
        decreases n - k,
    {
        let c = ts.get_char(k);
        let ghost prefix = ts@.subrange(0, k + 1);
        assert(prefix.drop_last() =~= ts@.subrange(0, k as int));
        assert(prefix.last() == c);
        if c != ' ' {
            let one = ts.substring_char(k, k + 1);
            assert(one@ =~= seq![c]);
            ns.append(one);
            assert(ns@ =~= without_spaces(prefix));
        }
        k = k + 1;
    }
    assert(ts@.subrange(0, n as int) =~= ts@);
    let m = ns.unicode_len();
    let nss = ns.as_str();
    let mut p: usize = 0;
    assert(nss@.subrange(0, m as int) =~= nss@);
    while p < m && m - p >= 2 && nss.get_char(p) == '0' && nss.get_char(p + 1) == 'x'
        invariant
            p <= m,
            m == nss@.len(),
            nss@ == without_spaces(trimmed(type_field@)),
            strip_hex_prefixes(nss@) == strip_hex_prefixes(nss@.subrange(p as int, m as int)),
        decreases m - p,
    {
        assert(nss@.subrange(p as int, m as int).subrange(2, m - p) =~= nss@.subrange(
            p + 2,
            m as int,
        ));
        p = p + 2;
    }
    nss.substring_char(p, m).to_owned()
}

/// Splits a received payload into its type and content. The payload is
/// trimmed; its type field is what precedes the first `|`, and its content
/// what follows it, trimmed. Without a `|` the payload is text as a whole.
pub fn decode_payload(raw: &str) -> (r: (MessageType, String))
    ensures
        r.0 == payload_type(trimmed(raw@)),
        r.1@ == payload_content(trimmed(raw@)),
{
    let text = trim(raw);
    let len = text.unicode_len();
    let i = match find_char_index(text, '|') {
        Some(i) => i,
        None => {
            return (MessageType::Text, text.to_owned());
        },
    };
    let type_field = text.substring_char(0, i);
    let content = trim(text.substring_char(i + 1, len));
    let token = clean_type_token(type_field);
    let lowered = to_lowercase(token.as_str());
    let t = MessageType::from_byte(type_byte_for_token(lowered.as_str()));
    (t, content.to_owned())
}

/// A chat message as the server handles it.
pub struct Message {
    pub id: Option<i64>,
    pub sender_id: i32,
    pub receiver_id: i32,
    pub content: String,
    pub content_type: MessageType,
    pub created_at: Option<NaiveDateTime>,
    pub status: String,
    pub is_encrypted: bool,
}

impl Message {
    /// A message as the server composes it before storing it: no id yet,
    /// the given parties, content, type and creation time, status "sent",
    /// not encrypted.
    pub open spec fn is_composed(
        self,
        sender_id: i32,
        receiver_id: i32,
        content: Seq<char>,
        content_type: MessageType,
        created_at: NaiveDateTime,
    ) -> bool {
        &&& self.id is None
        &&& self.sender_id == sender_id
        &&& self.receiver_id == receiver_id
        &&& self.content@ == content
        &&& self.content_type == content_type
        &&& self.created_at == Some(created_at)
        &&& self.status@ == "sent"@
        &&& !self.is_encrypted
    }

    fn compose(
        sender_id: i32,
        receiver_id: i32,
        content: String,
        content_type: MessageType,
        created_at: NaiveDateTime,
    ) -> (m: Self)
        ensures
            m.is_composed(sender_id, receiver_id, content@, content_type, created_at),
    {
        Message {
            id: None,
            sender_id,
            receiver_id,
            content,
            content_type,
            created_at: Some(created_at),
            status: String::from_str("sent"),
            is_encrypted: false,
        }
    }

    /// A text message from `sender_id` to `receiver_id`, created at
    /// `created_at`.
    pub fn new(sender_id: i32, receiver_id: i32, content: String, created_at: NaiveDateTime) -> (m:
        Self)
        ensures
            m.is_composed(sender_id, receiver_id, content@, MessageType::Text, created_at),
    {
        Self::compose(sender_id, receiver_id, content, MessageType::Text, created_at)
    }

    /// The message carried by the first `n` bytes of a receive buffer, from
    /// `sender_id` to `receiver_id`, created at `created_at`. The bytes are
    /// decoded as UTF-8 (invalid sequences replaced) and split by
    /// `decode_payload`.
    pub fn from_buffer(
        buffer: &[u8],
        n: usize,
        sender_id: i32,
        receiver_id: i32,
        created_at: NaiveDateTime,
    ) -> (m: Self)
        requires
            n <= buffer@.len(),
        ensures
            m.is_composed(
                sender_id,
                receiver_id,
                payload_content(received_text(buffer@, n as int)),
                payload_type(received_text(buffer@, n as int)),
                created_at,
            ),
    {
        let (head, _rest) = buffer.split_at(n);
        let raw = decode_utf8_lossy(head);
        let (t, content) = decode_payload(raw.as_str());
        Self::compose(sender_id, receiver_id, content, t, created_at)
    }

    /// The frame that carries this message: `0x{type:02x} | {content}` in
    /// UTF-8.
    pub fn to_buffer(&self) -> (out: Vec<u8>)
        ensures
            out@ == frame_bytes(self.content_type.spec_to_byte(), self.content@),
    {
        let b = self.content_type.to_byte();
        let ghost header = frame_header(b);
        let mut out: Vec<u8> = Vec::new();
        out.push(0x30);
        out.push(0x78);
        out.push(hex_digit_byte(b / 16));
        out.push(hex_digit_byte(b % 16));
        out.push(0x20);
        out.push(0x7c);
        out.push(0x20);
        proof {
            lemma_frame_header_ascii(b);
            assert(out@ =~= encode_utf8(header));
        }
        let bytes = self.content.as_str().as_bytes();
        let mut i: usize = 0;
        while i < bytes.len()
            invariant
                i <= bytes@.len(),
                bytes@ == encode_utf8(self.content@),
                out@ == encode_utf8(header) + bytes@.subrange(0, i as int),
            decreases bytes@.len() - i,
        {
            out.push(bytes[i]);
            i = i + 1;
            assert(out@ =~= encode_utf8(header) + bytes@.subrange(0, i as int));
        }
        proof {
            assert(bytes@.subrange(0, i as int) =~= bytes@);
            lemma_encode_utf8_concat(header, self.content@);
        }
        out
    }

    /// The frame of an informational notice from the server (sender 1) to
    /// `user`, created at `created_at`.
    pub fn server_info(info_message: String, user: &User, created_at: NaiveDateTime) -> (out: Vec<
        u8,
    >)
        ensures
            out@ == frame_bytes(MESSAGE_TYPE_INFO, info_message@),
    {
        let server_info = Self::compose(1, user.id, info_message, MessageType::Info, created_at);
        server_info.to_buffer()
    }
}

/// The type field that a frame header reads back as: the header before its
/// `|`, trimmed and cleaned.
proof fn lemma_header_type_token(b: u8)
    requires
        1 <= b <= 5,
    ensures
        frame_header(b).subrange(0, 5).len() == 5,
        cleaned_type_token(frame_header(b).subrange(0, 5)) == seq!['0', hex_digit_char(b as nat)],
{
    let h5 = frame_header(b).subrange(0, 5);
    let h4 = seq!['0', 'x', '0', hex_digit_char(b as nat)];
    assert(h5 =~= h4 + seq![' ']);
    lemma_single_space_white();
    lemma_trim_end_drop_suffix(h4, seq![' ']);
    assert(h4 =~= Seq::<char>::empty() + h4);
    lemma_trim_end_keep(Seq::<char>::empty(), h4);
    lemma_trim_start_keep(h4, Seq::<char>::empty());
    assert(h4 + Seq::<char>::empty() =~= h4);
    assert(trimmed(h5) == h4);
    reveal_with_fuel(without_spaces, 5);
    assert(h4.drop_last() =~= seq!['0', 'x', '0']);
    assert(h4.drop_last().drop_last() =~= seq!['0', 'x']);
    assert(h4.drop_last().drop_last().drop_last() =~= seq!['0']);
    assert(h4.drop_last().drop_last().drop_last().drop_last() =~= Seq::<char>::empty());
    assert(without_spaces(h4) =~= h4);
    let t = seq!['0', hex_digit_char(b as nat)];
    assert(h4.subrange(2, 4) =~= t);
    assert(strip_hex_prefixes(t) == t);
}

proof fn lemma_single_space_white()
    ensures
        crate::text::all_white_space(seq![' ']),
{
    assert(is_white_space(seq![' '][0]));
}

/// A frame that `to_buffer` writes for a message is read back (by
/// `from_buffer`, on the whole frame) as a message of the same type whose
/// content is the original content, trimmed.
pub proof fn lemma_frame_roundtrip(content_type: MessageType, content: Seq<char>)
    ensures
        ({
            let bytes = frame_bytes(content_type.spec_to_byte(), content);
            &&& payload_type(received_text(bytes, bytes.len() as int)) == content_type
            &&& payload_content(received_text(bytes, bytes.len() as int)) == trimmed(content)
        }),
{
    let b = content_type.spec_to_byte();
    let bytes = frame_bytes(b, content);
    let full = frame_text(b, content);
    let header = frame_header(b);
    assert(bytes.subrange(0, bytes.len() as int) =~= bytes);
    encode_utf8_valid_utf8(full);
    encode_utf8_decode_utf8(full);
    assert(decoded_lossy(bytes) == full);
    lemma_trim_start_keep(header, content);
    let a = trim_end(content);
    lemma_trim_end_split(content);
    let q = content.subrange(a.len() as int, content.len() as int);
    assert(content =~= a + q);
    assert(full =~= (header + a) + q);
    lemma_trim_end_drop_suffix(header + a, q);
    let h6 = header.subrange(0, 6);
    assert(header =~= h6 + seq![' ']);
    lemma_single_space_white();
    let t = received_text(bytes, bytes.len() as int);
    if a.len() > 0 {
        lemma_trim_end_keep(header, a);
        assert(t == header + a);
    } else {
        assert(header + a =~= header);
        lemma_trim_end_drop_suffix(h6, seq![' ']);
        assert(h6 =~= Seq::<char>::empty() + h6);
        lemma_trim_end_keep(Seq::<char>::empty(), h6);
        assert(t == h6);
    }
    assert(t[5] == '|');
    assert forall|k: int| 0 <= k < 5 implies t[k] != '|' by {
        assert(t[k] == header[k]);
    }
    lemma_find_char_found(t, '|', 5);
    // content
    lemma_trimmed_of_trim_end(content);
    if a.len() > 0 {
        assert(t.subrange(6, t.len() as int) =~= seq![' '] + a);
        lemma_trim_start_drop_prefix(seq![' '], a);
    } else {
        assert(t.subrange(6, t.len() as int) =~= Seq::<char>::empty());
    }
    // type
    assert(t.subrange(0, 5) =~= header.subrange(0, 5));
    lemma_header_type_token(b);
    let token = seq!['0', hex_digit_char(b as nat)];
    assert(is_ascii_chars(token));
    assert(ascii_lowercase(token) =~= token);
    reveal_strlit("01");
    reveal_strlit("1");
    reveal_strlit("02");
    reveal_strlit("2");
    reveal_strlit("03");
    reveal_strlit("3");
    reveal_strlit("05");
    reveal_strlit("5");
    if token == "01"@ || token == "02"@ || token == "03"@ || token == "05"@ {
        assert(token[1] == "01"@[1] || token[1] == "02"@[1] || token[1] == "03"@[1] || token[1] == "05"@[1]);
    }
    assert(token != "1"@);
    assert(token != "2"@);
    assert(token != "3"@);
    assert(token != "5"@);
    match content_type {
        MessageType::Text => {
            assert(token != "01"@) by { assert(token[1] != "01"@[1]); }
            assert(token != "02"@) by { assert(token[1] != "02"@[1]); }
            assert(token != "03"@) by { assert(token[1] != "03"@[1]); }
            assert(token != "05"@) by { assert(token[1] != "05"@[1]); }
        },
        MessageType::Error => { assert(token =~= "01"@); },
        MessageType::Warning => { assert(token =~= "02"@); },
        MessageType::Info => { assert(token =~= "03"@); },
        MessageType::Alias => { assert(token =~= "05"@); },
    }
}

/// Reading a type back from its wire byte gives the same type.
pub proof fn lemma_type_byte_roundtrip(t: MessageType)
    ensures
        MessageType::spec_from_byte(t.spec_to_byte()) == t,
{
}

/// Every wire byte that stands for a non-text type is the byte of that
/// type: decoding and encoding agree.
pub proof fn lemma_byte_type_roundtrip(byte: u8)
    ensures
        MessageType::spec_from_byte(byte) != MessageType::Text ==> MessageType::spec_from_byte(
            byte,
        ).spec_to_byte() == byte,
{
}

/// A type converted from its stored name (`MessageType::from` on
/// `to_string`) is the same type.
pub proof fn lemma_type_name_roundtrip(t: MessageType)
    ensures
        MessageType::spec_from_name(lowercased(t.name())) == t,
{
    reveal_strlit("warning");
    reveal_strlit("info");
    reveal_strlit("error");
    reveal_strlit("text");
    reveal_strlit("alias");
    let n = t.name();
    assert(is_ascii_chars(n));
    assert(ascii_lowercase(n) =~= n);
    assert("warning"@ != "info"@) by { assert("warning"@.len() != "info"@.len()); }
    assert("warning"@ != "error"@) by { assert("warning"@[0] != "error"@[0]); }
    assert("warning"@ != "alias"@) by { assert("warning"@.len() != "alias"@.len()); }
    assert("info"@ != "error"@) by { assert("info"@.len() != "error"@.len()); }
    assert("info"@ != "alias"@) by { assert("info"@.len() != "alias"@.len()); }
    assert("error"@ != "alias"@) by { assert("error"@[0] != "alias"@[0]); }
    assert("text"@ != "warning"@) by { assert("text"@.len() != "warning"@.len()); }
    assert("text"@ != "info"@) by { assert("text"@[0] != "info"@[0]); }
    assert("text"@ != "error"@) by { assert("text"@.len() != "error"@.len()); }
    assert("text"@ != "alias"@) by { assert("text"@.len() != "alias"@.len()); }
}

/// The name a type is shown with in chat lines is its stored name with a
/// capital first letter: the two have the same length and agree after the
/// first letter, the shown name lowered is the stored name, and the shown
/// name read back as a stored name (ignoring case) gives the type again.
pub proof fn lemma_variant_name_is_capitalized_name(t: MessageType)
    ensures
        t.variant_name().len() == t.name().len(),
        t.variant_name().len() > 0,
        0x41 <= (t.variant_name()[0] as u32) <= 0x5a,
        t.variant_name().drop_first() == t.name().drop_first(),
        ascii_lowercase(t.variant_name()) == t.name(),
        MessageType::spec_from_name(lowercased(t.variant_name())) == t,
{
    reveal_strlit("Warning");
    reveal_strlit("Info");
    reveal_strlit("Error");
    reveal_strlit("Text");
    reveal_strlit("Alias");
    reveal_strlit("warning");
    reveal_strlit("info");
    reveal_strlit("error");
    reveal_strlit("text");
    reveal_strlit("alias");
    let v = t.variant_name();
    assert(is_ascii_chars(v));
    assert(ascii_lowercase(v) =~= t.name());
    assert(v.drop_first() =~= t.name().drop_first());
    assert(lowercased(v) == t.name());
    assert(is_ascii_chars(t.name()));
    assert(ascii_lowercase(t.name()) =~= t.name());
    lemma_type_name_roundtrip(t);
}

/// A type field written as a type's wire byte in decimal, with or without
/// one leading zero, selects that type; and one leading zero before a
/// single character never changes what a field selects.
pub proof fn lemma_type_field_forms(t: MessageType, c: char)
    ensures
        type_byte_for(decimal(t.spec_to_byte() as nat)) == t.spec_to_byte(),
        type_byte_for(seq!['0'] + decimal(t.spec_to_byte() as nat)) == t.spec_to_byte(),
        type_byte_for(seq!['0', c]) == type_byte_for(seq![c]),
{
    reveal_strlit("01");
    reveal_strlit("1");
    reveal_strlit("02");
    reveal_strlit("2");
    reveal_strlit("03");
    reveal_strlit("3");
    reveal_strlit("05");
    reveal_strlit("5");
    let b = t.spec_to_byte();
    let d = decimal(b as nat);
    assert(d =~= seq![digit_char(b as nat)]);
    assert(seq!['0'] + d =~= seq!['0', digit_char(b as nat)]);
    let one = seq![c];
    let two = seq!['0', c];
    assert(two == "01"@ <==> c == '1') by {
        if two == "01"@ {
            assert(two[1] == "01"@[1]);
        }
        if c == '1' {
            assert(two =~= "01"@);
        }
    }
    assert(two == "02"@ <==> c == '2') by {
        if two == "02"@ {
            assert(two[1] == "02"@[1]);
        }
        if c == '2' {
            assert(two =~= "02"@);
        }
    }
    assert(two == "03"@ <==> c == '3') by {
        if two == "03"@ {
            assert(two[1] == "03"@[1]);
        }
        if c == '3' {
            assert(two =~= "03"@);
        }
    }
    assert(two == "05"@ <==> c == '5') by {
        if two == "05"@ {
            assert(two[1] == "05"@[1]);
        }
        if c == '5' {
            assert(two =~= "05"@);
        }
    }
    assert(one == "1"@ <==> c == '1') by {
        if one == "1"@ {
            assert(one[0] == "1"@[0]);
        }
        if c == '1' {
            assert(one =~= "1"@);
        }
    }
    assert(one == "2"@ <==> c == '2') by {
        if one == "2"@ {
            assert(one[0] == "2"@[0]);
        }
        if c == '2' {
            assert(one =~= "2"@);
        }
    }
    assert(one == "3"@ <==> c == '3') by {
        if one == "3"@ {
            assert(one[0] == "3"@[0]);
        }
        if c == '3' {
            assert(one =~= "3"@);
        }
    }
    assert(one == "5"@ <==> c == '5') by {
        if one == "5"@ {
            assert(one[0] == "5"@[0]);
        }
        if c == '5' {
            assert(one =~= "5"@);
        }
    }
    assert(two != "1"@ && two != "2"@ && two != "3"@ && two != "5"@) by {
        assert(two.len() != "1"@.len());
    }
    assert(one != "01"@ && one != "02"@ && one != "03"@ && one != "05"@) by {
        assert(one.len() != "01"@.len());
    }
    let tb = seq!['0', digit_char(b as nat)];
    let ob = seq![digit_char(b as nat)];
    assert(type_byte_for(ob) == b && type_byte_for(tb) == b) by {
        match t {
            MessageType::Error => {
                assert(ob =~= "1"@);
                assert(tb =~= "01"@);
            },
            MessageType::Warning => {
                assert(ob =~= "2"@);
                assert(tb =~= "02"@);
            },
            MessageType::Info => {
                assert(ob =~= "3"@);
                assert(tb =~= "03"@);
            },
            MessageType::Alias => {
                assert(ob =~= "5"@);
                assert(tb =~= "05"@);
            },
            MessageType::Text => {
                assert(ob[0] == '4');
                assert(ob != "1"@ && ob != "2"@ && ob != "3"@ && ob != "5"@) by {
                    assert(ob[0] != "1"@[0]);
                    assert(ob[0] != "2"@[0]);
                    assert(ob[0] != "3"@[0]);
                    assert(ob[0] != "5"@[0]);
                }
                assert(tb != "01"@ && tb != "02"@ && tb != "03"@ && tb != "05"@) by {
                    assert(tb[1] != "01"@[1]);
                    assert(tb[1] != "02"@[1]);
                    assert(tb[1] != "03"@[1]);
                    assert(tb[1] != "05"@[1]);
                }
            },
        }
    }
}

} // verus!
