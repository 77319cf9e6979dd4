//! The sockets that watch sessions: who is in which room, what each is sent,
//! and when one is given up.

#[allow(unused_imports)]
use crate::table::lemma_filter_all;
use crate::table::Table;
use vstd::prelude::*;

verus! {

/// The sockets in one room, each under its id.
pub struct Room<R> {
    members: Vec<(usize, R)>,
}

impl<R> View for Room<R> {
    type V = Seq<(usize, R)>;

    closed spec fn view(&self) -> Seq<(usize, R)> {
        self.members@
    }
}

/// Every room with its sockets. `R` is how a socket is reached.
pub struct WsBroadcaster<R> {
    rooms: Table<Room<R>>,
    next_id: usize,
}

/// The contents of a [`WsBroadcaster`].
#[verifier::reject_recursive_types(R)]
#[verifier::ext_equal]
pub struct RoomsView<R> {
    /// The sockets in each room that has any, in the order in which they came.
    pub rooms: Map<Seq<char>, Seq<(usize, R)>>,
    /// The id of the next socket.
    pub next_id: usize,
}

impl<R> View for WsBroadcaster<R> {
    type V = RoomsView<R>;

    closed spec fn view(&self) -> RoomsView<R> {
        RoomsView { rooms: self.rooms@, next_id: self.next_id }
    }
}

/// The sockets in a room.
pub open spec fn members<R>(v: RoomsView<R>, room: Seq<char>) -> Seq<(usize, R)> {
    if v.rooms.contains_key(room) {
        v.rooms[room]
    } else {
        seq![]
    }
}

/// The rooms after a socket has come.
pub open spec fn after_connect<R>(v: RoomsView<R>, room: Seq<char>, addr: R) -> RoomsView<R> {
    RoomsView {
        rooms: v.rooms.insert(room, members(v, room).push((v.next_id, addr))),
        next_id: (v.next_id + 1) as usize,
    }
}

/// Whether a socket has another id.
pub open spec fn other_than<R>(id: usize) -> spec_fn((usize, R)) -> bool {
    |m: (usize, R)| m.0 != id
}

/// The sockets of a room without one of them.
pub open spec fn without<R>(s: Seq<(usize, R)>, id: usize) -> Seq<(usize, R)> {
    s.filter(other_than(id))
}

/// The rooms after a socket has gone. A room that is left empty is given up.
pub open spec fn after_disconnect<R>(v: RoomsView<R>, room: Seq<char>, id: usize) -> RoomsView<R> {
    let left = without(members(v, room), id);
    RoomsView {
        rooms: if !v.rooms.contains_key(room) {
            v.rooms
        } else if left.len() == 0 {
            v.rooms.remove(room)
        } else {
            v.rooms.insert(room, left)
        },
        ..v
    }
}

impl<R> WsBroadcaster<R> {
    /// The names of the rooms are distinct.
    pub closed spec fn wf(&self) -> bool {
        self.rooms.wf()
    }

    /// No rooms yet.
    pub fn new() -> (r: Self)
        ensures
            r.wf(),
            r@ == (RoomsView { rooms: Map::<Seq<char>, Seq<(usize, R)>>::empty(), next_id: 1 }),
    {
        WsBroadcaster { rooms: Table::new(), next_id: 1 }
    }

    /// Whether there is an id left for another socket.
    pub fn has_room(&self) -> (r: bool)
        ensures
            r == (self@.next_id < usize::MAX),
    {
        self.next_id < usize::MAX
    }

    /// Lets a socket into a room, and gives its id.
    pub fn connect(&mut self, room: String, addr: R) -> (r: usize)
        requires
            old(self).wf(),
            old(self)@.next_id < usize::MAX,
        ensures
            final(self).wf(),
            final(self)@ == after_connect(old(self)@, room@, addr),
            r == old(self)@.next_id,
    {
        let id: usize = self.next_id;
        self.next_id = id + 1;
        if self.rooms.contains_key(room.as_str()) {
            match self.rooms.get_mut(room.as_str()) {
                Some(r) => {
                    r.members.push((id, addr));
                },
                None => {},
            }
        } else {
            let mut members: Vec<(usize, R)> = Vec::new();
            members.push((id, addr));
            assert(members@ =~= Seq::<(usize, R)>::empty().push((id, addr)));
            self.rooms.insert(room, Room { members });
        }
        id
    }

    /// Lets a socket go.
    pub fn disconnect(&mut self, room: &str, id: usize)
        requires
            old(self).wf(),
        ensures
            final(self).wf(),
            final(self)@ == after_disconnect(old(self)@, room@, id),
    {
        let mut empty = false;
        match self.rooms.get_mut(room) {
            Some(r) => {
                r.leave(id);
                empty = r.members.len() == 0;
            },
            None => {},
        }
        if empty {
            self.rooms.remove(room);
            assert(self.rooms@ =~= old(self).rooms@.remove(room@));
        }
    }

    /// How each socket in a room is reached.
    pub fn recipients(&self, room: &str) -> (r: Vec<&R>)
        requires
            self.wf(),
        ensures
            r@.len() == members(self@, room@).len(),
            forall|i: int| 0 <= i < r@.len() ==> *(#[trigger] r@[i]) == members(self@, room@)[i].1,
    {
        let mut list: Vec<&R> = Vec::new();
        match self.rooms.get(room) {
            Some(r) => {
                let n: usize = r.members.len();
                let mut i: usize = 0;
                while i < n
                    invariant
                        i <= n == r@.len(),
                        list@.len() == i,
                        forall|j: int| 0 <= j < i ==> *(#[trigger] list@[j]) == r@[j].1,
                    decreases n - i,
                {
                    list.push(&r.members[i].1);
                    i += 1;
                }
            },
            None => {},
        }
        list
    }
}

impl<R> Room<R> {
    fn leave(&mut self, id: usize)
        ensures
            final(self)@ == without(old(self)@, id),
    {
        let ghost all = self.members@;
        let ghost stays = other_than::<R>(id);
        let n: usize = self.members.len();
        let mut seen: usize = 0;
        let mut i: usize = 0;
        proof {
            all.take(0).lemma_filter_len(stays);
        }
        assert(all.take(0).filter(stays) + all.skip(0) =~= self.members@);
        while seen < n
            invariant
                seen <= n == all.len(),
                stays == other_than::<R>(id),
                i == all.take(seen as int).filter(stays).len(),
                self.members@ == all.take(seen as int).filter(stays) + all.skip(seen as int),
            decreases n - seen,
        {
            let ghost here = all[seen as int];
            assert(self.members@[i as int] == here);
            assert(all.take(seen + 1) =~= all.take(seen as int).push(here));
            proof {
                all.take(seen as int).lemma_filter_push(here, stays);
            }
            if self.members[i].0 != id {
                i += 1;
            } else {
                self.members.remove(i);
            }
            assert(self.members@ =~= all.take(seen + 1).filter(stays) + all.skip(seen + 1));
            seen += 1;
        }
        assert(all.take(n as int) =~= all);
        assert(all.filter(stays) + all.skip(n as int) =~= all.filter(stays));
    }
}

/// No room is empty, every id was given out, and no socket has the id of
/// another, in its room or elsewhere.
pub open spec fn orderly<R>(v: RoomsView<R>) -> bool {
    &&& forall|k: Seq<char>| #[trigger] v.rooms.contains_key(k) ==> v.rooms[k].len() > 0
    &&& forall|k: Seq<char>, i: int|
        v.rooms.contains_key(k) && 0 <= i < v.rooms[k].len() ==> 1 <= (
        #[trigger] v.rooms[k][i]).0 < v.next_id
    &&& forall|k: Seq<char>, i: int, l: Seq<char>, j: int|
        v.rooms.contains_key(k) && v.rooms.contains_key(l) && 0 <= i < v.rooms[k].len() && 0 <= j
            < v.rooms[l].len() && (#[trigger] v.rooms[k][i]).0 == (#[trigger] v.rooms[l][j]).0
            ==> k == l && i == j
}

/// The rooms begin orderly.
pub proof fn rooms_begin_orderly<R>()
    ensures
        orderly(RoomsView { rooms: Map::<Seq<char>, Seq<(usize, R)>>::empty(), next_id: 1 }),
{
}

/// A socket that comes keeps the rooms orderly.
pub proof fn connecting_keeps_order<R>(v: RoomsView<R>, room: Seq<char>, addr: R)
    requires
        orderly(v),
        1 <= v.next_id < usize::MAX,
    ensures
        orderly(after_connect(v, room, addr)),
{
    let w = after_connect(v, room, addr);
    let n = members(v, room).len() as int;
    assert forall|k: Seq<char>, i: int|
        w.rooms.contains_key(k) && 0 <= i < w.rooms[k].len() implies 1 <= (
    #[trigger] w.rooms[k][i]).0 < w.next_id by {
        if k != room || i < n {
            assert(v.rooms.contains_key(k) && w.rooms[k][i] == v.rooms[k][i]);
        }
    }
    assert forall|k: Seq<char>, i: int, l: Seq<char>, j: int|
        w.rooms.contains_key(k) && w.rooms.contains_key(l) && 0 <= i < w.rooms[k].len() && 0 <= j
            < w.rooms[l].len() && (#[trigger] w.rooms[k][i]).0 == (
        #[trigger] w.rooms[l][j]).0 implies k == l && i == j by {
        if k != room || i < n {
            assert(v.rooms.contains_key(k) && w.rooms[k][i] == v.rooms[k][i]);
        }
        if l != room || j < n {
            assert(v.rooms.contains_key(l) && w.rooms[l][j] == v.rooms[l][j]);
        }
    }
}

proof fn lemma_without<R>(s: Seq<(usize, R)>, id: usize)
    ensures
        forall|i: int|
            0 <= i < without(s, id).len() ==> (#[trigger] without(s, id)[i]).0 != id && exists|
                j: int,
            |
                i <= j < s.len() && #[trigger] s[j] == without(s, id)[i],
    decreases s.len(),
{
    let stays = other_than::<R>(id);
    let w = without(s, id);
    if s.len() == 0 {
        s.lemma_filter_len(stays);
    } else {
        let head = s.drop_last();
        lemma_without(head, id);
        head.lemma_filter_push(s.last(), stays);
        assert(head.push(s.last()) =~= s);
        assert forall|i: int| 0 <= i < w.len() implies (#[trigger] w[i]).0 != id && exists|j: int|
            i <= j < s.len() && #[trigger] s[j] == w[i] by {
            if i < without(head, id).len() {
                assert(w[i] == without(head, id)[i]);
                let j = choose|j: int| i <= j < head.len() && #[trigger] head[j] == without(
                    head,
                    id,
                )[i];
                assert(s[j] == w[i]);
            } else {
                head.lemma_filter_len(stays);
                assert(s[s.len() - 1] == w[i]);
            }
        }
    }
}

/// A socket that goes keeps the rooms orderly.
pub proof fn disconnecting_keeps_order<R>(v: RoomsView<R>, room: Seq<char>, id: usize)
    requires
        orderly(v),
    ensures
        orderly(after_disconnect(v, room, id)),
{
    let w = after_disconnect(v, room, id);
    if v.rooms.contains_key(room) {
        let all = v.rooms[room];
        let left = without(all, id);
        lemma_without(all, id);
        assert forall|a: int, b: int| 0 <= a < b < all.len() implies (#[trigger] all[a]).0 != (
        #[trigger] all[b]).0 by {
            assert(v.rooms[room][a] == all[a] && v.rooms[room][b] == all[b]);
        }
        lemma_without_distinct(all, id);
        assert forall|k: Seq<char>, i: int|
            w.rooms.contains_key(k) && 0 <= i < w.rooms[k].len() implies 1 <= (
        #[trigger] w.rooms[k][i]).0 < w.next_id by {
            if k == room {
                let j = choose|j: int| i <= j < all.len() && #[trigger] all[j] == left[i];
                assert(v.rooms[room][j] == left[i]);
            } else {
                assert(v.rooms[k][i] == w.rooms[k][i]);
            }
        }
        assert forall|k: Seq<char>, i: int, l: Seq<char>, j: int|
            w.rooms.contains_key(k) && w.rooms.contains_key(l) && 0 <= i < w.rooms[k].len() && 0
                <= j < w.rooms[l].len() && (#[trigger] w.rooms[k][i]).0 == (
            #[trigger] w.rooms[l][j]).0 implies k == l && i == j by {
            let p = if k == room {
                choose|p: int| i <= p < all.len() && #[trigger] all[p] == left[i]
            } else {
                i
            };
            let q = if l == room {
                choose|q: int| j <= q < all.len() && #[trigger] all[q] == left[j]
            } else {
                j
            };
            assert(v.rooms[k][p] == w.rooms[k][i]);
            assert(v.rooms[l][q] == w.rooms[l][j]);
            assert(k == l && p == q);
            if k == room && i != j {
                assert(left[i].0 == left[j].0);
            }
        }
    }
}

proof fn lemma_without_distinct<R>(s: Seq<(usize, R)>, id: usize)
    requires
        forall|a: int, b: int| 0 <= a < b < s.len() ==> (#[trigger] s[a]).0 != (#[trigger] s[b]).0,
    ensures
        forall|i: int, j: int|
            0 <= i < j < without(s, id).len() ==> (#[trigger] without(s, id)[i]).0 != (
            #[trigger] without(s, id)[j]).0,
    decreases s.len(),
{
    let stays = other_than::<R>(id);
    let w = without(s, id);
    if s.len() == 0 {
        s.lemma_filter_len(stays);
    } else {
        let head = s.drop_last();
        let v = without(head, id);
        assert forall|a: int, b: int| 0 <= a < b < head.len() implies (#[trigger] head[a]).0 != (
        #[trigger] head[b]).0 by {
            assert(head[a] == s[a] && head[b] == s[b]);
        }
        lemma_without_distinct(head, id);
        lemma_without(head, id);
        head.lemma_filter_push(s.last(), stays);
        assert(head.push(s.last()) =~= s);
        assert forall|i: int, j: int| 0 <= i < j < w.len() implies (#[trigger] w[i]).0 != (
        #[trigger] w[j]).0 by {
            assert(w[i] == v[i]);
            if j < v.len() {
                assert(w[j] == v[j]);
            } else {
                let a = choose|a: int| i <= a < head.len() && #[trigger] head[a] == v[i];
                assert(s[a].0 != s[s.len() - 1].0);
            }
        }
    }
}

/// A socket that comes and goes leaves the sockets as they were, where its room
/// does not stand empty and nobody in it has the id that is to be given out.
pub proof fn coming_and_going_changes_no_room<R>(v: RoomsView<R>, room: Seq<char>, addr: R)
    requires
        v.rooms.contains_key(room) ==> v.rooms[room].len() > 0,
        forall|i: int|
            0 <= i < members(v, room).len() ==> (#[trigger] members(v, room)[i]).0 != v.next_id,
    ensures
        after_disconnect(after_connect(v, room, addr), room, v.next_id).rooms == v.rooms,
{
    let before = members(v, room);
    let during = before.push((v.next_id, addr));
    let stays = other_than::<R>(v.next_id);
    before.lemma_filter_push((v.next_id, addr), stays);
    lemma_filter_all(before, stays);
    assert(without(during, v.next_id) == before);
    assert(after_disconnect(after_connect(v, room, addr), room, v.next_id).rooms =~= v.rooms);
}

/// A socket that has come is reached in its room, behind those that were there.
pub proof fn connected_socket_is_reached<R>(v: RoomsView<R>, room: Seq<char>, addr: R)
    ensures
        members(after_connect(v, room, addr), room) == members(v, room).push((v.next_id, addr)),
{
}

/// A socket that has gone is not reached in its room any more, and every other
/// still is.
pub proof fn gone_socket_is_not_reached<R>(
    v: RoomsView<R>,
    room: Seq<char>,
    id: usize,
    m: (usize, R),
)
    ensures
        members(after_disconnect(v, room, id), room).contains(m) <==> members(v, room).contains(m)
            && m.0 != id,
{
    let all = members(v, room);
    let left = without(all, id);
    let stays = other_than::<R>(id);
    lemma_without(all, id);
    if v.rooms.contains_key(room) {
        assert(members(after_disconnect(v, room, id), room) =~= left);
        if all.contains(m) && m.0 != id {
            let i = choose|i: int| 0 <= i < all.len() && all[i] == m;
            all.lemma_filter_contains(stays, i);
        }
        if left.contains(m) {
            let i = choose|i: int| 0 <= i < left.len() && left[i] == m;
            assert(left[i].0 != id);
        }
    }
}

/// What is said in one room is sent to nobody in another: a socket that comes
/// or goes changes the room that it names, and no other.
pub proof fn rooms_are_kept_apart<R>(
    v: RoomsView<R>,
    room: Seq<char>,
    other: Seq<char>,
    addr: R,
    id: usize,
)
    requires
        room != other,
    ensures
        members(after_connect(v, room, addr), other) == members(v, other),
        members(after_disconnect(v, room, id), other) == members(v, other),
{
}

/// How often a socket is pinged, in seconds.
pub const PING_INTERVAL: u64 = 5;

/// How long a socket may be silent, in nanoseconds.
pub const SILENCE_LIMIT: u128 = 30_000_000_000;

/// Whether a socket that has been silent for so many nanoseconds is given up.
pub fn heartbeat_expired(silent_nanos: u128) -> (r: bool)
    ensures
        r == (silent_nanos > SILENCE_LIMIT),
{
    silent_nanos > SILENCE_LIMIT
}

/// What comes in on a socket.
#[derive(Clone, Copy, Debug, PartialEq, Eq, Structural)]
pub enum SocketEvent {
    /// A ping.
    Ping,
    /// An answer to a ping.
    Pong,
    /// Text.
    Text,
    /// Bytes.
    Binary,
    /// The other side closes.
    Close,
    /// The other side breaks the protocol.
    ProtocolError,
    /// Anything else.
    Other,
}

/// What is done about it.
#[derive(Clone, Copy, Debug, PartialEq, Eq, Structural)]
pub enum SocketAnswer {
    /// Nothing.
    Nothing,
    /// The ping is answered.
    Pong,
    /// The socket is closed and given up.
    CloseAndStop,
    /// The socket is given up.
    Stop,
}

/// Whether an event shows that the other side is alive.
pub open spec fn shows_life(e: SocketEvent) -> bool {
    e is Ping || e is Pong || e is Text || e is Binary
}

/// What is done about an event.
pub open spec fn answer_to(e: SocketEvent) -> SocketAnswer {
    match e {
        SocketEvent::Ping => SocketAnswer::Pong,
        SocketEvent::Close => SocketAnswer::CloseAndStop,
        SocketEvent::ProtocolError => SocketAnswer::Stop,
        _ => SocketAnswer::Nothing,
    }
}

/// Decides about an event: whether it counts as a sign of life, and what is
/// done about it.
pub fn on_socket_event(e: SocketEvent) -> (r: (bool, SocketAnswer))
    ensures
        r.0 == shows_life(e),
        r.1 == answer_to(e),
{
    match e {
        SocketEvent::Ping => (true, SocketAnswer::Pong),
        SocketEvent::Pong => (true, SocketAnswer::Nothing),
        SocketEvent::Text => (true, SocketAnswer::Nothing),
        SocketEvent::Binary => (true, SocketAnswer::Nothing),
        SocketEvent::Close => (false, SocketAnswer::CloseAndStop),
        SocketEvent::ProtocolError => (false, SocketAnswer::Stop),
        SocketEvent::Other => (false, SocketAnswer::Nothing),
    }
}

} // verus!
