use vstd::prelude::*;

use crate::text::{decimal, push_decimal};

verus! {

/// The kinds of errors the server reports to a client.
#[derive(Debug, Clone, Copy, PartialEq, Eq, Structural)]
pub enum ServerErrorKind {
    MaxConnectionsReached,
}

/// An error reported by the server: a kind, a human-readable message and a
/// numeric code.
pub struct ServerError {
    kind: ServerErrorKind,
    message: String,
    code: u16,
}

impl ServerError {
    pub closed spec fn spec_kind(&self) -> ServerErrorKind {
        self.kind
    }

    pub closed spec fn spec_message(&self) -> Seq<char> {
        self.message@
    }

    pub closed spec fn spec_code(&self) -> u16 {
        self.code
    }

    /// The text `[code] message` that the error displays as.
    pub open spec fn display_text(&self) -> Seq<char> {
        seq!['['] + decimal(self.spec_code() as nat) + seq![']', ' '] + self.spec_message()
    }

    pub fn new(kind: ServerErrorKind, message: String, code: u16) -> (e: Self)
        ensures
            e.spec_kind() == kind,
            e.spec_message() == message@,
            e.spec_code() == code,
    {
        ServerError { kind, message, code }
    }

    pub fn kind(&self) -> (k: &ServerErrorKind)
        ensures
            *k == self.spec_kind(),
    {
        &self.kind
    }

    pub fn message(&self) -> (m: &str)
        ensures
            m@ == self.spec_message(),
    {
        self.message.as_str()
    }

    pub fn code(&self) -> (c: u16)
        ensures
            c == self.spec_code(),
    {
        self.code
    }

    /// The error sent when the server already holds its maximum number of
    /// connections: code 100, message "Max connections reached".
    pub fn max_connections_reached() -> (e: Self)
        ensures
            e.spec_kind() == ServerErrorKind::MaxConnectionsReached,
            e.spec_message() == "Max connections reached"@,
            e.spec_code() == 100,
    {
        Self::new(
            ServerErrorKind::MaxConnectionsReached,
            String::from_str("Max connections reached"),
            100,
        )
    }

    /// The displayed form of the error, `[code] message`.
    pub fn to_string(&self) -> (s: String)
        ensures
            s@ == self.display_text(),
    {
        let mut s = String::from_str("[");
        push_decimal(&mut s, self.code as u32);
        s.append("] ");
        s.append(self.message.as_str());
        proof {
            reveal_strlit("[");
            reveal_strlit("] ");
        }
        s
    }
}

} // verus!
