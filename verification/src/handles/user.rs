use chrono::NaiveDateTime;
use vstd::prelude::*;

verus! {

/// A chat user as the server keeps it. The times are UTC.
pub struct User {
    pub id: i32,
    pub alias: String,
    pub created_at: NaiveDateTime,
    pub last_login_at: NaiveDateTime,
    pub status: String,
}

impl User {
    /// A user not yet stored: id 0, the given alias and times, status
    /// "offline".
    pub fn new(alias: String, created_at: NaiveDateTime, last_login_at: NaiveDateTime) -> (u: Self)
        ensures
            u.id == 0,
            u.alias@ == alias@,
            u.created_at == created_at,
            u.last_login_at == last_login_at,
            u.status@ == "offline"@,
    {
        User { id: 0, alias, created_at, last_login_at, status: String::from_str("offline") }
    }

    /// Marks the user online, logged in at `now`. Id, alias and creation
    /// time stay.
    pub fn set_online(&mut self, now: NaiveDateTime)
        ensures
            final(self).status@ == "online"@,
            final(self).last_login_at == now,
            final(self).id == old(self).id,
            final(self).alias == old(self).alias,
            final(self).created_at == old(self).created_at,
    {
        self.status = String::from_str("online");
        self.last_login_at = now;
    }
}

} // verus!
