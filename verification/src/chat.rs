//! The session and room bookkeeping of the chat server.

use rand::Rng;
use std::collections::{HashMap, HashSet};
use vstd::prelude::*;
use vstd::std_specs::iter::IteratorSpec;

verus! {

broadcast use {vstd::std_specs::hash::group_hash_axioms, vstd::seq_lib::group_seq_properties};

#[verifier::external_type_specification]
#[verifier::external_body]
pub struct ExThreadRng(rand::rngs::ThreadRng);

/// Calls `rand::thread_rng`: a handle on the thread-local generator.
/// Nothing is promised of the generator's state.
#[verifier::external_body]
fn thread_rng() -> rand::rngs::ThreadRng {
    rand::thread_rng()
}

/// Calls `rand::Rng::gen::<usize>` on the thread-local generator.
/// The result is random: every `usize` may come out, so nothing is stated of it.
#[verifier::external_body]
fn random_session_id(rng: &mut rand::rngs::ThreadRng) -> usize {
    rng.gen::<usize>()
}

/// What the chat server holds, as mathematical values.
pub struct ChatView<R> {
    /// Connected sessions: the handle through which each session id is reached.
    pub sessions: Map<usize, R>,
    /// The session ids that listen in each room, by room (post) id.
    pub rooms: Map<i32, Set<usize>>,
}

impl<R> ChatView<R> {
    /// Finitely many sessions and finitely many rooms.
    pub open spec fn finite(self) -> bool {
        self.sessions.dom().finite() && self.rooms.dom().finite()
    }

    /// No session id listens in two rooms.
    pub open spec fn in_at_most_one_room(self) -> bool {
        forall|a: i32, b: i32, id: usize|
            #![trigger self.rooms[a].contains(id), self.rooms[b].contains(id)]
            self.rooms.contains_key(a) && self.rooms.contains_key(b) && self.rooms[a].contains(id)
                && self.rooms[b].contains(id) ==> a == b
    }

    /// The rooms with `id` taken out of each of them.
    pub open spec fn rooms_without(self, id: usize) -> Map<i32, Set<usize>> {
        self.rooms.map_values(|members: Set<usize>| members.remove(id))
    }

    /// The state after a new session `id` reached through `addr` registers.
    pub open spec fn after_connect(self, id: usize, addr: R) -> ChatView<R> {
        ChatView { sessions: self.sessions.insert(id, addr), rooms: self.rooms }
    }

    /// The state after session `id` disconnects: a known session is forgotten and
    /// taken out of every room; an unknown id changes nothing.
    pub open spec fn after_disconnect(self, id: usize) -> ChatView<R> {
        if self.sessions.contains_key(id) {
            ChatView { sessions: self.sessions.remove(id), rooms: self.rooms_without(id) }
        } else {
            self
        }
    }

    /// The state after session `id` moves into room `room`: it leaves every room,
    /// the room is made if it does not exist, and `id` joins it.
    pub open spec fn after_join(self, room: i32, id: usize) -> ChatView<R> {
        let left = self.rooms_without(id);
        let members = if left.contains_key(room) { left[room] } else { Set::empty() };
        ChatView { sessions: self.sessions, rooms: left.insert(room, members.insert(id)) }
    }

    /// The sessions that a message to `room` reaches when it is not sent back to
    /// `skip_id`: the room's members other than `skip_id` that are connected.
    pub open spec fn recipients(self, room: i32, skip_id: usize) -> Set<usize> {
        if self.rooms.contains_key(room) {
            self.rooms[room].filter(|m: usize| m != skip_id && self.sessions.contains_key(m))
        } else {
            Set::empty()
        }
    }
}

/// Keeps the connected sessions and the rooms (one per post) they listen in.
/// `R` is the handle through which a session is reached.
pub struct ChatServer<R> {
    sessions: HashMap<usize, R>,
    rooms: HashMap<i32, HashSet<usize>>,
    rng: rand::rngs::ThreadRng,
}

/// A new session, reached through `addr`, wants to be registered.
pub struct Connect<R> {
    pub addr: R,
}

/// A session went away.
pub struct Disconnect {
    pub id: usize,
}

impl<R> View for ChatServer<R> {
    type V = ChatView<R>;

    closed spec fn view(&self) -> ChatView<R> {
        ChatView {
            sessions: self.sessions@,
            rooms: self.rooms@.map_values(|s: HashSet<usize>| s@),
        }
    }
}

impl<R> Default for ChatServer<R> {
    /// A server with no session and no room.
    fn default() -> (chat: Self)
        ensures
            chat@.sessions == Map::<usize, R>::empty(),
            chat@.rooms == Map::<i32, Set<usize>>::empty(),
            chat@.in_at_most_one_room(),
            chat@.finite(),
    {
        let chat = ChatServer { sessions: HashMap::new(), rooms: HashMap::new(), rng: thread_rng() };
        assert(chat@.rooms =~= Map::<i32, Set<usize>>::empty());
        chat
    }
}

impl<R> ChatServer<R> {
    /// Every server holds finitely many sessions and rooms.
    pub proof fn lemma_finite(&self)
        ensures
            self@.finite(),
    {
        assert(self.sessions@.dom().finite());
        assert(self.rooms@.dom().finite());
        assert(self@.rooms.dom() =~= self.rooms@.dom());
    }

    /// Registers a new session and returns its id, which no connected session
    /// had. The id is drawn at random; a taken draw is followed by the next
    /// free id counting upward from it.
    pub fn connect(&mut self, msg: Connect<R>) -> (id: usize)
        ensures
            !old(self)@.sessions.contains_key(id),
            final(self)@ == old(self)@.after_connect(id, msg.addr),
            final(self)@.sessions.len() == old(self)@.sessions.len() + 1,
            final(self)@.finite(),
            old(self)@.in_at_most_one_room() ==> final(self)@.in_at_most_one_room(),
    {
        let start = random_session_id(&mut self.rng);
        let id = self.free_id_from(start);
        proof {
            assert(old(self)@.sessions.dom().finite());
        }
        self.sessions.insert(id, msg.addr);
        assert(self@.rooms == old(self)@.rooms);
        proof {
            self.lemma_finite();
        }
        id
    }

    /// The first id, counting upward from `start` and going on from 0 past
    /// `usize::MAX`, that no connected session has: every id met before it is
    /// taken.
    fn free_id_from(&self, start: usize) -> (id: usize)
        ensures
            !self@.sessions.contains_key(id),
            exists|k: nat|
                k <= usize::MAX && id == nth_id_from(start, k) && forall|j: nat|
                    j < k ==> self@.sessions.contains_key(#[trigger] nth_id_from(start, j)),
    {
        let mut id = start;
        let ghost mut tried: Set<usize> = Set::empty();
        let ghost mut k: nat = 0;
        while self.sessions.contains_key(&id)
            invariant
                tried.finite(),
                tried.len() == k,
                tried.subset_of(self.sessions@.dom()),
                k <= usize::MAX,
                id == nth_id_from(start, k),
                forall|x: usize| #[trigger] tried.contains(x) ==> exists|j: nat| j < k && x == nth_id_from(start, j),
                forall|j: nat| j < k ==> self.sessions@.contains_key(#[trigger] nth_id_from(start, j)),
            decreases self.sessions@.dom().len() - tried.len(),
        {
            proof {
                assert(!tried.contains(id)) by {
                    if tried.contains(id) {
                        let j = choose|j: nat| j < k && id == nth_id_from(start, j);
                        lemma_nth_id_distinct(start, j, k);
                    }
                }
                let bigger = tried.insert(id);
                vstd::set_lib::lemma_len_subset(bigger, self.sessions@.dom());
                assert(self.sessions@.len() == self.sessions.len());
                assert forall|x: usize| #[trigger] bigger.contains(x) implies exists|j: nat| j < k + 1 && x == nth_id_from(start, j) by {
                    if x == id {
                        assert(x == nth_id_from(start, k));
                    } else {
                        let j = choose|j: nat| j < k && x == nth_id_from(start, j);
                        assert(j < k + 1 && x == nth_id_from(start, j));
                    }
                }
                tried = bigger;
                k = k + 1;
            }
            id = if id == usize::MAX { 0 } else { id + 1 };
        }
        assert(id == nth_id_from(start, k));
        id
    }

    /// Forgets a session; if it was known, it also leaves every room.
    pub fn disconnect(&mut self, msg: Disconnect)
        ensures
            final(self)@ == old(self)@.after_disconnect(msg.id),
            final(self)@.finite(),
            old(self)@.in_at_most_one_room() ==> final(self)@.in_at_most_one_room(),
    {
        if self.sessions.remove(&msg.id).is_some() {
            self.leave_all_rooms(msg.id);
        } else {
            assert(self@.sessions =~= old(self)@.sessions);
            assert(self@.rooms == old(self)@.rooms);
        }
        proof {
            if old(self)@.in_at_most_one_room() {
                lemma_disconnect_keeps_one_room(old(self)@, msg.id);
            }
            self.lemma_finite();
        }
    }

    /// Moves session `id` into room `room`, making the room if it does not exist.
    pub fn join(&mut self, room: i32, id: usize)
        ensures
            final(self)@ == old(self)@.after_join(room, id),
            final(self)@.finite(),
            old(self)@.in_at_most_one_room() ==> final(self)@.in_at_most_one_room(),
    {
        self.leave_all_rooms(id);
        let members = self.rooms.remove(&room);
        let mut members = match members {
            Some(m) => m,
            None => HashSet::new(),
        };
        members.insert(id);
        self.rooms.insert(room, members);
        proof {
            assert(self@.rooms =~= old(self)@.after_join(room, id).rooms);
            if old(self)@.in_at_most_one_room() {
                lemma_join_keeps_one_room(old(self)@, room, id);
            }
            self.lemma_finite();
        }
    }

    /// The ids of the connected sessions in room `room`, except `skip_id`: those
    /// that a message to the room reaches. Each comes once.
    pub fn send_room_message(&self, room: i32, skip_id: usize) -> (targets: Vec<usize>)
        ensures
            targets@.to_set() == self@.recipients(room, skip_id),
            targets@.no_duplicates(),
    {
        let mut targets: Vec<usize> = Vec::new();
        match self.rooms.get(&room) {
            None => {
                assert(targets@.to_set() =~= self@.recipients(room, skip_id));
            },
            Some(members) => {
                let ghost keys = members.iter().remaining();
                let ghost pred = |m: usize| m != skip_id && self@.sessions.contains_key(m);
                for m in it: members.iter()
                    invariant
                        it.seq() == keys,
                        keys.unref().to_set() == members@,
                        keys.no_duplicates(),
                        pred == (|m: usize| m != skip_id && self@.sessions.contains_key(m)),
                        targets@.no_duplicates(),
                        targets@.to_set() == keys.take(it.index()).unref().to_set().filter(pred),
                {
                    let ghost i = it.index();
                    proof {
                        assert(keys.take(i + 1).unref() =~= keys.take(i).unref().push(*keys[i]));
                        assert(!keys.take(i).unref().contains(*m)) by {
                            if keys.take(i).unref().contains(*m) {
                                let j = choose|j: int| 0 <= j < i && keys.take(i).unref()[j] == *m;
                                assert(keys[j] == keys[i]);
                            }
                        }
                    }
                    assert(m == keys[i]);
                    assert(!targets@.contains(*m)) by {
                        if targets@.contains(*m) {
                            assert(targets@.to_set().contains(*m));
                            assert(keys.take(i).unref().to_set().contains(*m));
                        }
                    }
                    let ghost before = targets@;
                    if *m != skip_id && self.sessions.contains_key(m) {
                        targets.push(*m);
                    }
                    proof {
                        let pre = keys.take(i).unref();
                        let post = keys.take(i + 1).unref();
                        assert forall|x: usize| #[trigger] targets@.contains(x) <==> (post.contains(x) && pred(x)) by {
                            assert(post.contains(x) <==> pre.contains(x) || x == *m);
                            assert(before.contains(x) <==> before.to_set().contains(x));
                            assert(pre.contains(x) <==> pre.to_set().contains(x));
                            if targets@.contains(x) && !before.contains(x) {
                                let j = choose|j: int| 0 <= j < targets@.len() && targets@[j] == x;
                                assert(j == before.len());
                            }
                        }
                        assert(targets@.to_set() =~= post.to_set().filter(pred));
                    }
                }
                proof {
                    assert(keys.take(keys.len() as int) == keys);
                    assert(targets@.to_set() =~= self@.recipients(room, skip_id));
                }
            },
        }
        targets
    }

    /// The handle of session `id`, if it is connected: where a message meant
    /// only for that session goes.
    pub fn session(&self, id: usize) -> (addr: Option<&R>)
        ensures
            match addr {
                Some(a) => self@.sessions.contains_key(id) && *a == self@.sessions[id],
                None => !self@.sessions.contains_key(id),
            },
    {
        self.sessions.get(&id)
    }

    /// The rooms and their members.
    pub fn rooms(&self) -> (rooms: &HashMap<i32, HashSet<usize>>)
        ensures
            rooms@.map_values(|s: HashSet<usize>| s@) == self@.rooms,
    {
        &self.rooms
    }

    fn room_ids(&self) -> (ids: Vec<i32>)
        ensures
            ids@.to_set() == self@.rooms.dom(),
            ids@.no_duplicates(),
    {
        let mut ids: Vec<i32> = Vec::new();
        let ghost keys = self.rooms.keys().remaining();
        for k in it: self.rooms.keys()
            invariant
                it.seq() == keys,
                ids@.len() == it.index(),
                ids@ == keys.take(it.index()).unref(),
        {
            ids.push(*k);
        }
        assert(keys.take(ids@.len() as int) == keys);
        ids
    }

    fn leave_all_rooms(&mut self, id: usize)
        ensures
            final(self)@.sessions == old(self)@.sessions,
            final(self)@.rooms == old(self)@.rooms_without(id),
    {
        let ids = self.room_ids();
        let ghost old_rooms = self@.rooms;
        for i in 0..ids.len()
            invariant
                ids@.to_set() == old_rooms.dom(),
                ids@.no_duplicates(),
                self@.sessions == old(self)@.sessions,
                old_rooms == old(self)@.rooms,
                self@.rooms.dom() == old_rooms.dom(),
                forall|k: i32| #[trigger] self@.rooms.contains_key(k) ==> self@.rooms[k] == if ids@.take(i as int).contains(k) {
                    old_rooms[k].remove(id)
                } else {
                    old_rooms[k]
                },
        {
            let k = ids[i];
            assert(ids@.to_set().contains(k));
            assert(!ids@.take(i as int).contains(k)) by {
                if ids@.take(i as int).contains(k) {
                    let j = choose|j: int| 0 <= j < i && ids@.take(i as int)[j] == k;
                    assert(ids@[j] == ids@[i as int]);
                }
            }
            let removed = self.rooms.remove(&k);
            if let Some(mut members) = removed {
                members.remove(&id);
                self.rooms.insert(k, members);
            }
            assert(ids@.take(i + 1) =~= ids@.take(i as int).push(k));
        }
        assert(ids@.take(ids@.len() as int) == ids@);
        assert(self@.rooms =~= old(self)@.rooms_without(id)) by {
            assert forall|k: i32| #[trigger] self@.rooms.contains_key(k) implies ids@.contains(k) by {
                assert(ids@.to_set().contains(k));
            }
        }
    }
}


/// The id `j` steps upward from `start`, going on from 0 past `usize::MAX`.
pub open spec fn nth_id_from(start: usize, j: nat) -> usize {
    if start + j <= usize::MAX {
        (start + j) as usize
    } else {
        (start + j - usize::MAX - 1) as usize
    }
}

/// Fewer than `usize::MAX + 1` steps upward never come back to an id already met.
proof fn lemma_nth_id_distinct(start: usize, j: nat, k: nat)
    requires
        j < k <= usize::MAX,
    ensures
        nth_id_from(start, j) != nth_id_from(start, k),
{
}

/// A session that connects under an id no session had adds one session and
/// leaves every other session and every room as it was.
pub proof fn lemma_connect_adds_one<R>(v: ChatView<R>, id: usize, addr: R)
    requires
        !v.sessions.contains_key(id),
        v.sessions.dom().finite(),
    ensures
        v.after_connect(id, addr).sessions.len() == v.sessions.len() + 1,
        v.after_connect(id, addr).sessions[id] == addr,
        v.after_connect(id, addr).sessions.remove(id) == v.sessions,
        v.after_connect(id, addr).rooms == v.rooms,
{
    assert(v.after_connect(id, addr).sessions.remove(id) =~= v.sessions);
}

/// Two sessions that connect one after the other, each under an id that no
/// session had, get different ids, and each is reached through its own handle.
pub proof fn lemma_successive_connects_differ<R>(v: ChatView<R>, id1: usize, a1: R, id2: usize, a2: R)
    requires
        !v.sessions.contains_key(id1),
        !v.after_connect(id1, a1).sessions.contains_key(id2),
    ensures
        id1 != id2,
        v.after_connect(id1, a1).after_connect(id2, a2).sessions[id1] == a1,
        v.after_connect(id1, a1).after_connect(id2, a2).sessions[id2] == a2,
{
}

/// Disconnecting keeps every session in at most one room.
pub proof fn lemma_disconnect_keeps_one_room<R>(v: ChatView<R>, id: usize)
    requires
        v.in_at_most_one_room(),
    ensures
        v.after_disconnect(id).in_at_most_one_room(),
{
}

/// Moving a session into a room keeps every session in at most one room.
pub proof fn lemma_join_keeps_one_room<R>(v: ChatView<R>, room: i32, id: usize)
    requires
        v.in_at_most_one_room(),
    ensures
        v.after_join(room, id).in_at_most_one_room(),
{
}

/// A session that disconnects is forgotten and listens in no room any more;
/// the rooms themselves stay.
pub proof fn lemma_disconnect_forgets<R>(v: ChatView<R>, id: usize)
    requires
        v.sessions.contains_key(id),
    ensures
        !v.after_disconnect(id).sessions.contains_key(id),
        v.after_disconnect(id).rooms.dom() == v.rooms.dom(),
        forall|room: i32| #[trigger] v.after_disconnect(id).rooms.contains_key(room)
            ==> !v.after_disconnect(id).rooms[room].contains(id),
{
}

/// Disconnecting a session that just connected takes it out of every room and
/// forgets it, leaving the other sessions as they were.
pub proof fn lemma_connect_then_disconnect<R>(v: ChatView<R>, id: usize, addr: R)
    ensures
        v.after_connect(id, addr).after_disconnect(id)
            == (ChatView { sessions: v.sessions.remove(id), rooms: v.rooms_without(id) }),
{
    assert(v.after_connect(id, addr).sessions.remove(id) =~= v.sessions.remove(id));
}

/// Disconnecting twice is disconnecting once.
pub proof fn lemma_disconnect_idempotent<R>(v: ChatView<R>, id: usize)
    ensures
        v.after_disconnect(id).after_disconnect(id) == v.after_disconnect(id),
{
}

/// Moving a session into the room it was just moved into changes nothing.
pub proof fn lemma_join_idempotent<R>(v: ChatView<R>, room: i32, id: usize)
    ensures
        v.after_join(room, id).after_join(room, id) == v.after_join(room, id),
{
    let once = v.after_join(room, id);
    let twice = once.after_join(room, id);
    assert(twice.rooms =~= once.rooms) by {
        assert forall|r: i32| #[trigger] twice.rooms.contains_key(r) implies twice.rooms[r] =~= once.rooms[r] by {
            if r == room {
                assert(twice.rooms[r] =~= once.rooms[r].remove(id).insert(id));
            }
        }
    }
}

/// After moving into a room, a session listens in that room and in no other.
pub proof fn lemma_join_single_room<R>(v: ChatView<R>, room: i32, id: usize)
    ensures
        v.after_join(room, id).rooms.contains_key(room),
        v.after_join(room, id).rooms[room].contains(id),
        forall|r: i32| #[trigger] v.after_join(room, id).rooms.contains_key(r) && r != room
            ==> !v.after_join(room, id).rooms[r].contains(id),
{
}

/// Moving one session into a room moves no other session: every other
/// session listens in the same rooms as before, and no room disappears.
pub proof fn lemma_join_moves_only_joiner<R>(v: ChatView<R>, room: i32, id: usize, other: usize, r: i32)
    requires
        other != id,
    ensures
        v.rooms.dom().subset_of(v.after_join(room, id).rooms.dom()),
        v.after_join(room, id).sessions == v.sessions,
        v.rooms.contains_key(r) ==> (v.after_join(room, id).rooms[r].contains(other) <==> v.rooms[r].contains(other)),
        v.after_join(room, id).rooms.contains_key(r) && !v.rooms.contains_key(r)
            ==> !v.after_join(room, id).rooms[r].contains(other),
{
    if !v.rooms.contains_key(r) && r == room {
        assert(v.after_join(room, id).rooms[r] =~= Set::empty().insert(id));
    }
}

/// A message to a room is never sent back to the session it skips.
pub proof fn lemma_recipients_skip_sender<R>(v: ChatView<R>, room: i32, skip_id: usize)
    ensures
        !v.recipients(room, skip_id).contains(skip_id),
{
}

/// A connected session that moved into a room receives what any other session
/// sends to that room.
pub proof fn lemma_joined_session_receives<R>(v: ChatView<R>, room: i32, id: usize, sender: usize)
    requires
        v.sessions.contains_key(id),
        id != sender,
    ensures
        v.after_join(room, id).recipients(room, sender).contains(id),
{
}

/// A session that disconnected receives nothing sent to any room.
pub proof fn lemma_disconnected_session_receives_nothing<R>(v: ChatView<R>, id: usize, room: i32, sender: usize)
    requires
        v.sessions.contains_key(id),
    ensures
        !v.after_disconnect(id).recipients(room, sender).contains(id),
{
}

/// A message to a room reaches exactly the sessions that listen in that room,
/// are connected, and are not the one skipped.
pub proof fn lemma_recipients_are_connected_members<R>(v: ChatView<R>, room: i32, skip_id: usize, m: usize)
    ensures
        v.recipients(room, skip_id).contains(m) <==> (v.rooms.contains_key(room) && v.rooms[room].contains(m)
            && m != skip_id && v.sessions.contains_key(m)),
{
}

} // verus!
