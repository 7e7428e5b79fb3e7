use chrono::NaiveDateTime;
use vstd::prelude::*;

verus! {

/// An IP address: the four octets of an IPv4 address, or the eight 16-bit
/// segments of an IPv6 address.
#[derive(Debug, Clone, Copy, PartialEq, Eq, Structural)]
pub enum IpAddress {
    V4(u8, u8, u8, u8),
    V6(u16, u16, u16, u16, u16, u16, u16, u16),
}

/// The address of a connected peer: its IP address and port.
#[derive(Debug, Clone, Copy, PartialEq, Eq, Structural)]
pub struct PeerAddress {
    pub ip: IpAddress,
    pub port: u16,
}

/// An address a user connected from, as the server records it.
pub struct UserIp {
    pub id: i32,
    pub user_id: i32,
    pub ip_address: IpAddress,
    pub created_at: NaiveDateTime,
}

impl UserIp {
    /// The record of `user_id` connecting from `socket_addr` at
    /// `created_at`, not yet stored (id 0). Only the IP address of the peer
    /// is kept.
    pub fn new(user_id: i32, socket_addr: PeerAddress, created_at: NaiveDateTime) -> (r: Self)
        ensures
            r.id == 0,
            r.user_id == user_id,
            r.ip_address == socket_addr.ip,
            r.created_at == created_at,
    {
        UserIp { id: 0, user_id, ip_address: socket_addr.ip, created_at }
    }
}

} // verus!
