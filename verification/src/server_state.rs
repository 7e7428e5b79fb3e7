use std::collections::HashMap;
use vstd::prelude::*;
use vstd::std_specs::hash::group_hash_axioms;

use crate::handles::user_ip::PeerAddress;

verus! {

broadcast use group_hash_axioms;

/// What the server knows of its connections: the peer and the alias of each
/// connection id, the next id to hand out and how many connections it takes.
pub struct State {
    pub connection_list: HashMap<u32, PeerAddress>,
    pub user_names: HashMap<u32, String>,
    pub id_counter: u32,
    max_connections: u32,
}

impl State {
    pub closed spec fn spec_max_connections(&self) -> u32 {
        self.max_connections
    }

    /// The open connections: the peer address of each connection id.
    pub closed spec fn connections(&self) -> Map<u32, PeerAddress> {
        self.connection_list@
    }

    /// The alias of each connection id.
    pub closed spec fn names(&self) -> Map<u32, String> {
        self.user_names@
    }

    /// The next connection id to hand out.
    pub closed spec fn next_id(&self) -> u32 {
        self.id_counter
    }

    /// The number of open connections.
    pub open spec fn connection_count(&self) -> nat {
        self.connections().len()
    }

    /// Every open connection has an alias and every alias an open
    /// connection.
    pub open spec fn aliases_match(&self) -> bool {
        self.names().dom() == self.connections().dom()
    }

    /// Whether another connection may be admitted.
    pub open spec fn spec_can_accept(&self) -> bool {
        self.connection_count() < self.spec_max_connections()
    }

    /// `post` is `pre` after handing out connection id `id`.
    pub open spec fn id_step(pre: State, post: State, id: u32) -> bool {
        &&& id == pre.next_id()
        &&& post.next_id() == pre.next_id() + 1
        &&& post.connections() == pre.connections()
        &&& post.names() == pre.names()
        &&& post.spec_max_connections() == pre.spec_max_connections()
    }

    /// A server without connections that hands out ids from 0 and takes up
    /// to `server_limit_connection` connections.
    pub fn new(server_limit_connection: u32) -> (s: Self)
        ensures
            s.connections() == Map::<u32, PeerAddress>::empty(),
            s.names() == Map::<u32, String>::empty(),
            s.next_id() == 0,
            s.spec_max_connections() == server_limit_connection,
            s.aliases_match(),
    {
        State {
            connection_list: HashMap::new(),
            user_names: HashMap::new(),
            id_counter: 0,
            max_connections: server_limit_connection,
        }
    }

    pub fn max_connections(&self) -> (m: u32)
        ensures
            m == self.spec_max_connections(),
    {
        self.max_connections
    }

    /// Whether fewer connections are open than the server takes.
    pub fn can_accept_connection(&self) -> (b: bool)
        ensures
            b == self.spec_can_accept(),
    {
        self.connection_list.len() < self.max_connections as usize
    }

    /// Hands out the next connection id: the current counter, which then
    /// moves on by one.
    pub fn id_increment(&mut self) -> (id: u32)
        requires
            old(self).next_id() < u32::MAX,
        ensures
            State::id_step(*old(self), *final(self), id),
            id == old(self).next_id(),
            final(self).next_id() == old(self).next_id() + 1,
            final(self).connections() == old(self).connections(),
            final(self).names() == old(self).names(),
            final(self).spec_max_connections() == old(self).spec_max_connections(),
    {
        let id = self.id_counter;
        self.id_counter = self.id_counter + 1;
        id
    }

    /// Records connection `id` from `addr` under `alias`.
    pub fn register_connection(&mut self, id: u32, addr: PeerAddress, alias: String)
        ensures
            final(self).connections() == old(self).connections().insert(id, addr),
            final(self).names() == old(self).names().insert(id, alias),
            final(self).next_id() == old(self).next_id(),
            final(self).spec_max_connections() == old(self).spec_max_connections(),
    {
        self.connection_list.insert(id, addr);
        self.user_names.insert(id, alias);
    }

    /// Forgets connection `id` and its alias.
    pub fn remove_connection(&mut self, id: u32)
        ensures
            final(self).connections() == old(self).connections().remove(id),
            final(self).names() == old(self).names().remove(id),
            final(self).next_id() == old(self).next_id(),
            final(self).spec_max_connections() == old(self).spec_max_connections(),
    {
        self.connection_list.remove(&id);
        self.user_names.remove(&id);
    }
}

/// Connection ids are never handed out twice: of two ids handed out one
/// after the other, the later is the greater.
pub proof fn lemma_ids_increase(s0: State, s1: State, s2: State, a: u32, b: u32)
    requires
        State::id_step(s0, s1, a),
        State::id_step(s1, s2, b),
    ensures
        a < b,
        b == a + 1,
{
}

/// Admitting a connection only while `can_accept_connection` holds keeps
/// the number of connections within the limit.
pub proof fn lemma_admission_within_limit(pre: State, post: State, id: u32, addr: PeerAddress)
    requires
        pre.spec_can_accept(),
        post.connections() == pre.connections().insert(id, addr),
        post.spec_max_connections() == pre.spec_max_connections(),
    ensures
        post.connection_count() <= post.spec_max_connections(),
{
    lemma_connections_finite(pre);
    if pre.connections().contains_key(id) {
        assert(pre.connections().insert(id, addr).dom() =~= pre.connections().dom());
    }
}

/// Closing one of the connections of a server that is within its limit
/// lets it admit a connection again.
pub proof fn lemma_removal_frees_slot(pre: State, post: State, id: u32)
    requires
        pre.connections().contains_key(id),
        pre.connection_count() <= pre.spec_max_connections(),
        post.connections() == pre.connections().remove(id),
        post.spec_max_connections() == pre.spec_max_connections(),
    ensures
        post.spec_can_accept(),
        post.connection_count() == pre.connection_count() - 1,
{
    lemma_connections_finite(pre);
}

pub(crate) proof fn lemma_connections_finite(s: State)
    ensures
        s.connections().dom().finite(),
{
    assert(s.connection_list@.dom().finite());
}

/// `states` is a run of `ids.len()` successive id hand-outs: each id in
/// `ids` takes `states[i]` to `states[i + 1]`.
pub open spec fn id_run(states: Seq<State>, ids: Seq<u32>) -> bool {
    &&& states.len() == ids.len() + 1
    &&& forall|i: int|
        0 <= i < ids.len() ==> State::id_step(states[i], states[i + 1], #[trigger] ids[i])
}

proof fn lemma_id_run_prefix(states: Seq<State>, ids: Seq<u32>, i: int)
    requires
        id_run(states, ids),
        0 <= i <= ids.len(),
    ensures
        states[i].next_id() == states[0].next_id() + i,
    decreases i,
{
    if i > 0 {
        lemma_id_run_prefix(states, ids, i - 1);
        assert(State::id_step(states[i - 1], states[i], ids[i - 1]));
    }
}

/// Handing out `k` ids in succession gives exactly the ids `c`, `c + 1`,
/// ..., `c + k - 1` of the starting counter `c`, in that order and so all
/// different, and leaves the counter at `c + k`.
pub proof fn lemma_id_run(states: Seq<State>, ids: Seq<u32>)
    requires
        id_run(states, ids),
    ensures
        forall|i: int| 0 <= i < ids.len() ==> #[trigger] ids[i] == states[0].next_id() + i,
        forall|i: int, j: int| 0 <= i < j < ids.len() ==> ids[i] != ids[j],
        states[ids.len() as int].next_id() == states[0].next_id() + ids.len(),
{
    assert forall|i: int| 0 <= i < ids.len() implies #[trigger] ids[i] == states[0].next_id() + i by {
        lemma_id_run_prefix(states, ids, i);
        assert(State::id_step(states[i], states[i + 1], ids[i]));
    }
    assert forall|i: int, j: int| 0 <= i < j < ids.len() implies ids[i] != ids[j] by {
        assert(ids[i] == states[0].next_id() + i);
        assert(ids[j] == states[0].next_id() + j);
    }
    lemma_id_run_prefix(states, ids, ids.len() as int);
}

} // verus!
