//! The server's state as a model: who is connected, in which room, what each
//! operation does to it and what is delivered to whom.

use vstd::prelude::*;

use crate::ids::rising;
use crate::order::{before, lemma_before_irreflexive, lemma_before_transitive};
use crate::protocol::{room_fault, ServerMsg, DEFAULT_ROOM};
use crate::text_map::ascending;

verus! {

/// The number of lines that the activity log keeps.
pub const LOG_LINES: usize = 500;

// ---------------------------------------------------------------------------
// The model
// ---------------------------------------------------------------------------

/// The model of a `Client`.
#[verifier::ext_equal]
pub struct Member {
    pub username: Seq<char>,
    pub room: Seq<char>,
    pub blocked: Set<Seq<char>>,
}

/// The model of a `LogLine`.
#[verifier::ext_equal]
pub struct LogEntry {
    pub ts: i64,
    pub text: Seq<char>,
}

/// The model of a `ServerState`.
#[verifier::ext_equal]
pub struct Hub {
    pub next_id: u64,
    pub clients: Map<u64, Member>,
    pub names: Map<Seq<char>, u64>,
    pub rooms: Map<Seq<char>, Set<u64>>,
    pub log: Seq<LogEntry>,
    pub total_messages: u64,
    pub total_connections: u64,
    pub uptime: u64,
    pub observe_mode: bool,
    pub observed_users: Seq<(Seq<char>, Seq<char>)>,
    pub observed_rooms: Seq<(Seq<char>, usize)>,
}

/// The model of a `Delivery`.
#[verifier::ext_equal]
pub struct Post {
    pub to: u64,
    pub msg: ServerMsg,
}

/// Whether the name index holds each client under its name and nothing else.
pub open spec fn names_agree(h: Hub) -> bool {
    &&& forall|id: u64| #[trigger]
        h.clients.contains_key(id) ==> h.names.contains_key(h.clients[id].username)
            && h.names[h.clients[id].username] == id
    &&& forall|n: Seq<char>| #[trigger]
        h.names.contains_key(n) ==> h.clients.contains_key(h.names[n])
            && h.clients[h.names[n]].username == n
}

/// Whether `id` is a member of `room`.
pub open spec fn is_in(rooms: Map<Seq<char>, Set<u64>>, room: Seq<char>, id: u64) -> bool {
    rooms.contains_key(room) && rooms[room].contains(id)
}

/// Whether each client is a member of its room, and no room has another member.
pub open spec fn rooms_agree(h: Hub) -> bool {
    &&& forall|id: u64| #[trigger]
        h.clients.contains_key(id) ==> is_in(h.rooms, h.clients[id].room, id)
    &&& forall|r: Seq<char>, id: u64| #[trigger]
        is_in(h.rooms, r, id) ==> h.clients.contains_key(id) && h.clients[id].room == r
}

/// Whether the default room is there and every other room has a member.
pub open spec fn rooms_lived_in(h: Hub) -> bool {
    &&& h.rooms.contains_key(DEFAULT_ROOM@)
    &&& forall|r: Seq<char>| #[trigger]
        h.rooms.contains_key(r) && r != DEFAULT_ROOM@ ==> exists|id: u64| is_in(h.rooms, r, id)
}

/// Whether clients are numbered by the connections made so far.
pub open spec fn numbered(h: Hub) -> bool {
    &&& forall|id: u64| #[trigger]
        h.clients.contains_key(id) ==> 1 <= id <= h.total_connections
    &&& h.next_id == (if h.total_connections < u64::MAX {
        h.total_connections + 1
    } else {
        0
    })
}

/// What holds of every state of the server.
pub open spec fn hub_wf(h: Hub) -> bool {
    &&& names_agree(h)
    &&& rooms_agree(h)
    &&& rooms_lived_in(h)
    &&& numbered(h)
    &&& h.log.len() <= LOG_LINES
}

// ---------------------------------------------------------------------------
// What the operations do
// ---------------------------------------------------------------------------

/// The state of a server that has just started.
pub open spec fn empty_hub() -> Hub {
    Hub {
        next_id: 1,
        clients: Map::empty(),
        names: Map::empty(),
        rooms: Map::empty().insert(DEFAULT_ROOM@, Set::empty()),
        log: Seq::empty(),
        total_messages: 0,
        total_connections: 0,
        uptime: 0,
        observe_mode: false,
        observed_users: Seq::empty(),
        observed_rooms: Seq::empty(),
    }
}

/// The log with one more line: the oldest makes room where it is full.
pub open spec fn with_entry(log: Seq<LogEntry>, entry: LogEntry) -> Seq<LogEntry> {
    if log.len() >= LOG_LINES {
        log.drop_first().push(entry)
    } else {
        log.push(entry)
    }
}

/// The state after `text` was logged at `ts`.
pub open spec fn logged(h: Hub, text: Seq<char>, ts: i64) -> Hub {
    Hub { log: with_entry(h.log, LogEntry { ts, text }), ..h }
}

/// The rooms after `id` was made a member of `room`.
pub open spec fn entered(
    rooms: Map<Seq<char>, Set<u64>>,
    room: Seq<char>,
    id: u64,
) -> Map<Seq<char>, Set<u64>> {
    let members = if rooms.contains_key(room) {
        rooms[room]
    } else {
        Set::empty()
    };
    rooms.insert(room, members.insert(id))
}

/// The rooms without `room`, where that is empty and not the default room.
pub open spec fn pruned(
    rooms: Map<Seq<char>, Set<u64>>,
    room: Seq<char>,
) -> Map<Seq<char>, Set<u64>> {
    if room != DEFAULT_ROOM@ && rooms.contains_key(room) && rooms[room] == Set::<u64>::empty() {
        rooms.remove(room)
    } else {
        rooms
    }
}

/// The rooms after `id` has left `room`.
pub open spec fn vacated(
    rooms: Map<Seq<char>, Set<u64>>,
    room: Seq<char>,
    id: u64,
) -> Map<Seq<char>, Set<u64>> {
    pruned(
        if rooms.contains_key(room) {
            rooms.insert(room, rooms[room].remove(id))
        } else {
            rooms
        },
        room,
    )
}

/// The state after a client called `name` has connected.
pub open spec fn registered(h: Hub, name: Seq<char>) -> Hub {
    Hub {
        next_id: if h.next_id < u64::MAX {
            (h.next_id + 1) as u64
        } else {
            0
        },
        clients: h.clients.insert(
            h.next_id,
            Member { username: name, room: DEFAULT_ROOM@, blocked: Set::empty() },
        ),
        names: h.names.insert(name, h.next_id),
        rooms: entered(h.rooms, DEFAULT_ROOM@, h.next_id),
        total_connections: (h.total_connections + 1) as u64,
        ..h
    }
}

/// The state after client `id` has gone.
pub open spec fn unregistered(h: Hub, id: u64) -> Hub {
    if h.clients.contains_key(id) {
        Hub {
            clients: h.clients.remove(id),
            names: h.names.remove(h.clients[id].username),
            rooms: vacated(h.rooms, h.clients[id].room, id),
            ..h
        }
    } else {
        h
    }
}

/// The state after client `id` has gone to `room`.
pub open spec fn moved(h: Hub, id: u64, room: Seq<char>) -> Hub {
    Hub {
        clients: h.clients.insert(id, Member { room, ..h.clients[id] }),
        rooms: entered(vacated(h.rooms, h.clients[id].room, id), room, id),
        ..h
    }
}

/// The state after client `id` has blocked or unblocked `target`.
pub open spec fn with_block(h: Hub, id: u64, target: Seq<char>, block: bool) -> Hub {
    if h.clients.contains_key(id) {
        let c = h.clients[id];
        let blocked = if block {
            c.blocked.insert(target)
        } else {
            c.blocked.remove(target)
        };
        Hub { clients: h.clients.insert(id, Member { blocked, ..c }), ..h }
    } else {
        h
    }
}

/// The state after `secs` seconds.
pub open spec fn timed(h: Hub, secs: u64) -> Hub {
    Hub { uptime: secs, ..h }
}

/// The state of a server that watches another one, or not.
pub open spec fn watching(h: Hub, on: bool) -> Hub {
    Hub { observe_mode: on, ..h }
}

/// The state with the users seen on the server that is watched.
pub open spec fn with_observed_users(h: Hub, users: Seq<(Seq<char>, Seq<char>)>) -> Hub {
    Hub { observed_users: users, ..h }
}

/// The state with the rooms seen on the server that is watched.
pub open spec fn with_observed_rooms(h: Hub, rooms: Seq<(Seq<char>, usize)>) -> Hub {
    Hub { observed_rooms: rooms, ..h }
}

// ---------------------------------------------------------------------------
// What is delivered
// ---------------------------------------------------------------------------

/// Whether `msg` is a chat line of someone whom client `id` has blocked.
pub open spec fn is_unwanted(h: Hub, id: u64, msg: ServerMsg) -> bool {
    match msg {
        ServerMsg::Chat { from, .. } => h.clients[id].blocked.contains(from),
        _ => false,
    }
}

/// Whether client `id` gets `msg` when it is sent to `room` for all but `except`.
pub open spec fn hears(
    h: Hub,
    room: Seq<char>,
    msg: ServerMsg,
    except: Option<u64>,
    id: u64,
) -> bool {
    &&& is_in(h.rooms, room, id)
    &&& except != Some(id)
    &&& h.clients.contains_key(id)
    &&& !is_unwanted(h, id, msg)
}

/// The addressees of a list of deliveries.
pub open spec fn addressees(posts: Seq<Post>) -> Seq<u64> {
    posts.map_values(|p: Post| p.to)
}

/// Whether the deliveries are one of `msg` to each client in `room` that hears
/// it, and no other. Their order is open.
pub open spec fn is_broadcast(
    posts: Seq<Post>,
    h: Hub,
    room: Seq<char>,
    msg: ServerMsg,
    except: Option<u64>,
) -> bool {
    &&& forall|i: int| 0 <= i < posts.len() ==> (#[trigger] posts[i]).msg == msg
    &&& addressees(posts).no_duplicates()
    &&& forall|id: u64| #[trigger]
        addressees(posts).contains(id) <==> hears(h, room, msg, except, id)
}

/// Whether the deliveries are one of `msg` to each client, in whatever room, in
/// the order in which they came.
pub open spec fn is_announcement(posts: Seq<Post>, h: Hub, msg: ServerMsg) -> bool {
    &&& forall|i: int| 0 <= i < posts.len() ==> (#[trigger] posts[i]).msg == msg
    &&& rising(addressees(posts))
    &&& addressees(posts).no_duplicates()
    &&& forall|id: u64| #[trigger]
        addressees(posts).contains(id) <==> h.clients.contains_key(id)
}

/// The delivery of `msg` to client `id`, where that is connected.
pub open spec fn posted(h: Hub, id: u64, msg: ServerMsg) -> Seq<Post> {
    if h.clients.contains_key(id) {
        seq![Post { to: id, msg }]
    } else {
        Seq::empty()
    }
}

/// What is delivered when client `id` says `text` at `ts`.
pub open spec fn is_say(posts: Seq<Post>, h: Hub, id: u64, text: Seq<char>, ts: i64) -> bool {
    if h.clients.contains_key(id) {
        let c = h.clients[id];
        is_broadcast(
            posts,
            h,
            c.room,
            ServerMsg::Chat { from: c.username, room: c.room, text, ts },
            Some(id),
        )
    } else {
        posts == Seq::<Post>::empty()
    }
}

/// Whether client `id` can go to `room`: the room can have that name and is
/// another one than the client's.
pub open spec fn can_move(h: Hub, id: u64, room: Seq<char>) -> bool {
    room_fault(room) is None && h.clients.contains_key(id) && h.clients[id].room != room
}

/// The state after client `id` has asked to join `room`.
pub open spec fn after_join(h: Hub, id: u64, room: Seq<char>) -> Hub {
    if can_move(h, id, room) {
        moved(h, id, room)
    } else {
        h
    }
}

/// Whether the deliveries of a move of client `id` to `room` are `left`, which
/// tell the old room that it left, then the one that tells the client that it
/// joined, then `come`, which tell the new room.
pub open spec fn are_move_posts(
    posts: Seq<Post>,
    left: Seq<Post>,
    come: Seq<Post>,
    h: Hub,
    id: u64,
    room: Seq<char>,
) -> bool {
    let c = h.clients[id];
    let after = moved(h, id, room);
    &&& posts == left.push(Post { to: id, msg: ServerMsg::Joined { room } }) + come
    &&& is_broadcast(
        left,
        after,
        c.room,
        ServerMsg::UserLeft { username: c.username, room: c.room },
        Some(id),
    )
    &&& is_broadcast(
        come,
        after,
        room,
        ServerMsg::UserJoined { username: c.username, room },
        Some(id),
    )
}

/// What is delivered when client `id` asks to join `room`.
pub open spec fn is_join(posts: Seq<Post>, h: Hub, id: u64, room: Seq<char>) -> bool {
    match room_fault(room) {
        Some(e) => posts == posted(h, id, ServerMsg::Error { text: e }),
        None => if can_move(h, id, room) {
            exists|left: Seq<Post>, come: Seq<Post>| #[trigger]
                are_move_posts(posts, left, come, h, id, room)
        } else {
            posts == Seq::<Post>::empty()
        },
    }
}

/// Whether `users` lists the name of each member of `room` once. Their order is
/// open.
pub open spec fn is_roster(users: Seq<Seq<char>>, h: Hub, room: Seq<char>) -> bool {
    &&& users.no_duplicates()
    &&& forall|n: Seq<char>| #[trigger]
        users.contains(n) <==> exists|id: u64|
            #![trigger h.clients[id]]
            is_in(h.rooms, room, id) && h.clients[id].username == n
}

/// What is delivered when client `id` asks who is in its room.
pub open spec fn is_user_list(posts: Seq<Post>, h: Hub, id: u64) -> bool {
    if h.clients.contains_key(id) {
        exists|users: Seq<Seq<char>>|
            posts == seq![Post { to: id, msg: ServerMsg::UserList { users } }]
                && #[trigger] is_roster(users, h, h.clients[id].room)
    } else {
        posts == Seq::<Post>::empty()
    }
}

/// Whether `names` lists a set of texts in ascending order.
pub open spec fn is_sorted(names: Seq<Seq<char>>, set: Set<Seq<char>>) -> bool {
    ascending(names) && names.to_set() == set
}

/// What is delivered when client `id` asks for the rooms.
pub open spec fn is_room_list(posts: Seq<Post>, h: Hub, id: u64) -> bool {
    if h.clients.contains_key(id) {
        exists|rooms: Seq<Seq<char>>|
            posts == seq![Post { to: id, msg: ServerMsg::RoomList { rooms } }]
                && #[trigger] is_sorted(rooms, h.rooms.dom())
    } else {
        posts == Seq::<Post>::empty()
    }
}

/// What is delivered when client `id` sends `text` to the user called `to` at
/// `ts`.
pub open spec fn pm_posts(h: Hub, id: u64, to: Seq<char>, text: Seq<char>, ts: i64) -> Seq<Post> {
    if !h.clients.contains_key(id) {
        Seq::empty()
    } else if !h.names.contains_key(to) {
        seq![
            Post { to: id, msg: ServerMsg::Error { text: "user '"@ + to + "' not found"@ } },
        ]
    } else if h.clients[h.names[to]].blocked.contains(h.clients[id].username) {
        seq![
            Post { to: id, msg: ServerMsg::Error { text: "you are blocked by "@ + to } },
        ]
    } else {
        seq![
            Post {
                to: h.names[to],
                msg: ServerMsg::Pm { from: h.clients[id].username, text, ts },
            },
        ]
    }
}

/// What is delivered when client `id` blocks or unblocks `target` at `ts`.
pub open spec fn block_posts(
    h: Hub,
    id: u64,
    target: Seq<char>,
    block: bool,
    ts: i64,
) -> Seq<Post> {
    posted(
        h,
        id,
        ServerMsg::System {
            text: (if block {
                "blocked"@
            } else {
                "unblocked"@
            }) + " "@ + target,
            ts,
        },
    )
}

// ---------------------------------------------------------------------------
// What the dashboard shows
// ---------------------------------------------------------------------------

/// Whether `users` lists each client with its room, in the order in which they
/// came.
pub open spec fn is_census(users: Seq<(Seq<char>, Seq<char>)>, h: Hub) -> bool {
    exists|ids: Seq<u64>|
        #[trigger] rising(ids) && ids.to_set() == h.clients.dom() && users == ids.map_values(
            |id: u64| (h.clients[id].username, h.clients[id].room),
        )
}

/// Whether `rooms` lists each room with the number of its members, in ascending
/// order of their names.
pub open spec fn is_directory(rooms: Seq<(Seq<char>, usize)>, h: Hub) -> bool {
    &&& is_sorted(rooms.map_values(|r: (Seq<char>, usize)| r.0), h.rooms.dom())
    &&& forall|i: int|
        0 <= i < rooms.len() ==> (#[trigger] rooms[i]).1 == h.rooms[rooms[i].0].len()
}

// ---------------------------------------------------------------------------
// Laws
// ---------------------------------------------------------------------------

/// A server that has just started is in order.
pub proof fn law_starts_in_order()
    ensures
        hub_wf(empty_hub()),
{
}

/// Connecting under a free name keeps the state in order.
pub proof fn law_register_keeps_order(h: Hub, name: Seq<char>)
    requires
        hub_wf(h),
        !h.names.contains_key(name),
        h.total_connections < u64::MAX,
    ensures
        hub_wf(registered(h, name)),
{
    let g = registered(h, name);
    let new = h.next_id;
    assert(!h.clients.contains_key(new));
    assert forall|r: Seq<char>, id: u64| #[trigger] is_in(g.rooms, r, id) implies
        g.clients.contains_key(id) && g.clients[id].room == r by {
        if id != new {
            assert(is_in(h.rooms, r, id));
        } else if r != DEFAULT_ROOM@ {
            assert(is_in(h.rooms, r, id));
        }
    }
    assert forall|id: u64| #[trigger] g.clients.contains_key(id) implies is_in(
        g.rooms,
        g.clients[id].room,
        id,
    ) by {
        if id != new {
            assert(h.clients.contains_key(id));
            assert(is_in(h.rooms, h.clients[id].room, id));
        }
    }
    assert forall|r: Seq<char>| #[trigger]
        g.rooms.contains_key(r) && r != DEFAULT_ROOM@ implies exists|id: u64|
        is_in(g.rooms, r, id) by {
        assert(h.rooms.contains_key(r));
        let id = choose|id: u64| is_in(h.rooms, r, id);
        assert(is_in(g.rooms, r, id));
    }
    assert forall|n: Seq<char>| #[trigger] g.names.contains_key(n) implies g.clients.contains_key(
        g.names[n],
    ) && g.clients[g.names[n]].username == n by {
        if n != name {
            assert(h.names.contains_key(n));
        }
    }
    assert forall|id: u64| #[trigger] g.clients.contains_key(id) implies g.names.contains_key(
        g.clients[id].username,
    ) && g.names[g.clients[id].username] == id by {
        if id != new {
            assert(h.clients.contains_key(id));
        }
    }
}

/// Leaving a room takes `id` out of it and changes no other membership.
pub proof fn lemma_vacated(rooms: Map<Seq<char>, Set<u64>>, room: Seq<char>, id: u64)
    ensures
        forall|r: Seq<char>, k: u64| #[trigger]
            is_in(vacated(rooms, room, id), r, k) <==> is_in(rooms, r, k) && !(r == room && k
                == id),
        rooms.contains_key(DEFAULT_ROOM@) ==> vacated(rooms, room, id).contains_key(DEFAULT_ROOM@),
        forall|r: Seq<char>| #[trigger]
            vacated(rooms, room, id).contains_key(r) && r != room ==> rooms.contains_key(r),
        vacated(rooms, room, id).contains_key(room) && room != DEFAULT_ROOM@ ==> exists|k: u64|
            is_in(vacated(rooms, room, id), room, k),
{
    let v = vacated(rooms, room, id);
    if rooms.contains_key(room) {
        let left = rooms[room].remove(id);
        assert forall|r: Seq<char>, k: u64| #[trigger] is_in(v, r, k) <==> is_in(rooms, r, k) && !(
        r == room && k == id) by {
            if r == room {
                assert(left.contains(k) <==> rooms[room].contains(k) && k != id);
                if left == Set::<u64>::empty() {
                    assert(!left.contains(k));
                }
            }
        }
        if v.contains_key(room) && room != DEFAULT_ROOM@ {
            assert(v[room] == left);
            if forall|k: u64| !left.contains(k) {
                assert(left =~= Set::empty());
            }
            let k = choose|k: u64| left.contains(k);
            assert(is_in(v, room, k));
        }
    }
}

/// Disconnecting keeps the state in order.
pub proof fn law_unregister_keeps_order(h: Hub, id: u64)
    requires
        hub_wf(h),
    ensures
        hub_wf(unregistered(h, id)),
{
    if h.clients.contains_key(id) {
        let g = unregistered(h, id);
        let room = h.clients[id].room;
        lemma_vacated(h.rooms, room, id);
        assert forall|r: Seq<char>| #[trigger]
            g.rooms.contains_key(r) && r != DEFAULT_ROOM@ implies exists|k: u64|
            is_in(g.rooms, r, k) by {
            if r != room {
                assert(h.rooms.contains_key(r));
                let k = choose|k: u64| is_in(h.rooms, r, k);
                assert(is_in(g.rooms, r, k));
            }
        }
        assert forall|k: u64| #[trigger] g.clients.contains_key(k) implies is_in(
            g.rooms,
            g.clients[k].room,
            k,
        ) && g.names.contains_key(g.clients[k].username) && g.names[g.clients[k].username]
            == k by {
            assert(h.clients.contains_key(k));
            assert(is_in(h.rooms, h.clients[k].room, k));
        }
        assert forall|n: Seq<char>| #[trigger]
            g.names.contains_key(n) implies g.clients.contains_key(g.names[n])
            && g.clients[g.names[n]].username == n by {
            assert(h.names.contains_key(n));
        }
        assert forall|r: Seq<char>, k: u64| #[trigger] is_in(g.rooms, r, k) implies
            g.clients.contains_key(k) && g.clients[k].room == r by {
            assert(is_in(h.rooms, r, k));
        }
    }
}

/// Going to another room keeps the state in order.
pub proof fn law_move_keeps_order(h: Hub, id: u64, room: Seq<char>)
    requires
        hub_wf(h),
        h.clients.contains_key(id),
        h.clients[id].room != room,
    ensures
        hub_wf(moved(h, id, room)),
{
    let g = moved(h, id, room);
    let old_room = h.clients[id].room;
    let v = vacated(h.rooms, old_room, id);
    lemma_vacated(h.rooms, old_room, id);
    assert forall|r: Seq<char>, k: u64| #[trigger] is_in(g.rooms, r, k) <==> is_in(v, r, k) || (r
        == room && k == id) by {}
    assert forall|r: Seq<char>| #[trigger]
        g.rooms.contains_key(r) && r != DEFAULT_ROOM@ implies exists|k: u64|
        is_in(g.rooms, r, k) by {
        if r == room {
            assert(is_in(g.rooms, r, id));
        } else {
            assert(v.contains_key(r));
            if r != old_room {
                assert(h.rooms.contains_key(r));
                let k = choose|k: u64| is_in(h.rooms, r, k);
                assert(is_in(v, r, k));
                assert(is_in(g.rooms, r, k));
            } else {
                let k = choose|k: u64| is_in(v, r, k);
                assert(is_in(g.rooms, r, k));
            }
        }
    }
    assert forall|k: u64| #[trigger] g.clients.contains_key(k) implies is_in(
        g.rooms,
        g.clients[k].room,
        k,
    ) && g.names.contains_key(g.clients[k].username) && g.names[g.clients[k].username] == k by {
        assert(h.clients.contains_key(k));
        assert(is_in(h.rooms, h.clients[k].room, k));
    }
    assert forall|n: Seq<char>| #[trigger] g.names.contains_key(n) implies g.clients.contains_key(
        g.names[n],
    ) && g.clients[g.names[n]].username == n by {
        assert(h.names.contains_key(n));
    }
    assert forall|r: Seq<char>, k: u64| #[trigger] is_in(g.rooms, r, k) implies
        g.clients.contains_key(k) && g.clients[k].room == r by {
        assert(is_in(v, r, k) || (r == room && k == id));
        if is_in(v, r, k) {
            assert(is_in(h.rooms, r, k));
        }
    }
}

/// Blocking and unblocking keep the state in order.
pub proof fn law_block_keeps_order(h: Hub, id: u64, target: Seq<char>, block: bool)
    requires
        hub_wf(h),
    ensures
        hub_wf(with_block(h, id, target, block)),
{
    let g = with_block(h, id, target, block);
    if h.clients.contains_key(id) {
        assert forall|k: u64| #[trigger] g.clients.contains_key(k) implies is_in(
            g.rooms,
            g.clients[k].room,
            k,
        ) && g.names.contains_key(g.clients[k].username) && g.names[g.clients[k].username]
            == k by {
            assert(h.clients.contains_key(k));
        }
        assert forall|r: Seq<char>| #[trigger]
            g.rooms.contains_key(r) && r != DEFAULT_ROOM@ implies exists|k: u64|
            is_in(g.rooms, r, k) by {
            let k = choose|k: u64| is_in(h.rooms, r, k);
            assert(is_in(g.rooms, r, k));
        }
    }
}

/// Logging keeps the state in order; the log never outgrows its length and its
/// newest line is the one just logged.
pub proof fn law_log_keeps_order(h: Hub, text: Seq<char>, ts: i64)
    requires
        hub_wf(h),
    ensures
        hub_wf(logged(h, text, ts)),
        logged(h, text, ts).log.last() == (LogEntry { ts, text }),
{
    let g = logged(h, text, ts);
    assert(names_agree(g));
    assert(rooms_agree(g));
    assert(rooms_lived_in(g)) by {
        assert forall|r: Seq<char>| #[trigger]
            g.rooms.contains_key(r) && r != DEFAULT_ROOM@ implies exists|id: u64|
            is_in(g.rooms, r, id) by {
            let id = choose|id: u64| is_in(h.rooms, r, id);
            assert(is_in(g.rooms, r, id));
        }
    }
}

/// No two clients have one name.
pub proof fn law_names_are_unique(h: Hub, a: u64, b: u64)
    requires
        hub_wf(h),
        h.clients.contains_key(a),
        h.clients.contains_key(b),
        h.clients[a].username == h.clients[b].username,
    ensures
        a == b,
{
}

/// Every client is in exactly one room, which exists.
pub proof fn law_one_room_each(h: Hub, id: u64, room: Seq<char>)
    requires
        hub_wf(h),
        h.clients.contains_key(id),
    ensures
        h.rooms.contains_key(h.clients[id].room),
        is_in(h.rooms, room, id) <==> room == h.clients[id].room,
{
}

/// A room other than the default one exists only while someone is in it.
pub proof fn law_no_ghost_rooms(h: Hub, room: Seq<char>)
    requires
        hub_wf(h),
        room != DEFAULT_ROOM@,
    ensures
        h.rooms.contains_key(room) <==> exists|id: u64|
            #![trigger h.clients[id]]
            h.clients.contains_key(id) && h.clients[id].room == room,
{
    if h.rooms.contains_key(room) {
        let id = choose|id: u64| is_in(h.rooms, room, id);
        assert(is_in(h.rooms, room, id));
        assert(h.clients[id].room == room);
    }
    if exists|id: u64|
        #![trigger h.clients[id]]
        h.clients.contains_key(id) && h.clients[id].room == room {
        let id = choose|id: u64|
            #![trigger h.clients[id]]
            h.clients.contains_key(id) && h.clients[id].room == room;
        assert(is_in(h.rooms, room, id));
    }
}

/// The default room is always there.
pub proof fn law_default_room_stays(h: Hub)
    requires
        hub_wf(h),
    ensures
        h.rooms.contains_key(DEFAULT_ROOM@),
{
}

/// A client that goes leaves nothing behind but the counts of connections.
pub proof fn law_unregister_undoes_register(h: Hub, name: Seq<char>)
    requires
        hub_wf(h),
        !h.names.contains_key(name),
        h.total_connections < u64::MAX,
    ensures
        unregistered(registered(h, name), h.next_id) == (Hub {
            next_id: registered(h, name).next_id,
            total_connections: (h.total_connections + 1) as u64,
            ..h
        }),
{
    let id = h.next_id;
    let g = unregistered(registered(h, name), id);
    assert(!h.clients.contains_key(id));
    assert(!is_in(h.rooms, DEFAULT_ROOM@, id));
    assert(g.clients =~= h.clients);
    assert(g.names =~= h.names);
    assert(h.rooms[DEFAULT_ROOM@].insert(id).remove(id) =~= h.rooms[DEFAULT_ROOM@]);
    assert(g.rooms =~= h.rooms);
}

/// A client that has gone cannot go again: nothing changes.
pub proof fn law_going_twice_is_going_once(h: Hub, id: u64)
    ensures
        unregistered(unregistered(h, id), id) == unregistered(h, id),
{
}

/// The name of a client that has gone is free again.
pub proof fn law_name_is_free_again(h: Hub, id: u64)
    requires
        h.clients.contains_key(id),
    ensures
        !unregistered(h, id).names.contains_key(h.clients[id].username),
{
}

/// What one client does leaves every other client as it is.
pub proof fn law_others_are_untouched(
    h: Hub,
    id: u64,
    other: u64,
    room: Seq<char>,
    target: Seq<char>,
    block: bool,
)
    requires
        other != id,
    ensures
        h.clients.contains_key(other) <==> unregistered(h, id).clients.contains_key(other),
        h.clients.contains_key(other) <==> after_join(h, id, room).clients.contains_key(other),
        h.clients.contains_key(other) <==> with_block(h, id, target, block).clients.contains_key(
            other,
        ),
        h.clients.contains_key(other) ==> unregistered(h, id).clients[other] == h.clients[other],
        h.clients.contains_key(other) ==> after_join(h, id, room).clients[other]
            == h.clients[other],
        h.clients.contains_key(other) ==> with_block(h, id, target, block).clients[other]
            == h.clients[other],
{
}

/// A client that was let into a room is in that room and in no other.
pub proof fn law_join_moves_the_client(h: Hub, id: u64, room: Seq<char>, r: Seq<char>)
    requires
        hub_wf(h),
        can_move(h, id, room),
    ensures
        after_join(h, id, room).clients[id].room == room,
        is_in(after_join(h, id, room).rooms, r, id) <==> r == room,
{
    law_move_keeps_order(h, id, room);
    law_one_room_each(moved(h, id, room), id, r);
}

/// Going to another room and back gives back the state.
pub proof fn law_move_and_back(h: Hub, id: u64, room: Seq<char>)
    requires
        hub_wf(h),
        h.clients.contains_key(id),
        h.clients[id].room != room,
    ensures
        moved(moved(h, id, room), id, h.clients[id].room) == h,
{
    let old_room = h.clients[id].room;
    let g = moved(h, id, room);
    let b = moved(g, id, old_room);
    let v = vacated(h.rooms, old_room, id);
    lemma_vacated(h.rooms, old_room, id);
    law_move_keeps_order(h, id, room);
    law_move_keeps_order(g, id, old_room);
    assert(b.clients =~= h.clients);
    assert forall|r: Seq<char>, k: u64| is_in(b.rooms, r, k) <==> is_in(h.rooms, r, k) by {
        if is_in(b.rooms, r, k) {
            assert(b.clients.contains_key(k) && b.clients[k].room == r);
            assert(is_in(h.rooms, h.clients[k].room, k));
        }
        if is_in(h.rooms, r, k) {
            assert(h.clients.contains_key(k) && h.clients[k].room == r);
            assert(is_in(b.rooms, b.clients[k].room, k));
        }
    }
    assert forall|r: Seq<char>| b.rooms.contains_key(r) <==> h.rooms.contains_key(r) by {
        if r != DEFAULT_ROOM@ {
            law_no_ghost_rooms(h, r);
            law_no_ghost_rooms(b, r);
        }
    }
    assert forall|r: Seq<char>| h.rooms.contains_key(r) implies b.rooms[r] == h.rooms[r] by {
        assert forall|k: u64| b.rooms[r].contains(k) <==> h.rooms[r].contains(k) by {
            assert(is_in(b.rooms, r, k) <==> is_in(h.rooms, r, k));
        }
        assert(b.rooms[r] =~= h.rooms[r]);
    }
    assert(b.rooms =~= h.rooms);
}

/// Nobody gets a chat line of someone whom they have blocked.
pub proof fn law_blocked_chat_is_not_heard(
    posts: Seq<Post>,
    h: Hub,
    id: u64,
    text: Seq<char>,
    ts: i64,
    other: u64,
)
    requires
        h.clients.contains_key(id),
        is_say(posts, h, id, text, ts),
        h.clients[other].blocked.contains(h.clients[id].username),
    ensures
        !addressees(posts).contains(other),
{
}

/// The one who speaks gets no echo.
pub proof fn law_no_echo(posts: Seq<Post>, h: Hub, id: u64, text: Seq<char>, ts: i64)
    requires
        is_say(posts, h, id, text, ts),
    ensures
        !addressees(posts).contains(id),
{
}

/// Everyone else in the room gets what was said, unless they have blocked the
/// speaker.
pub proof fn law_the_room_hears(
    posts: Seq<Post>,
    h: Hub,
    id: u64,
    text: Seq<char>,
    ts: i64,
    other: u64,
)
    requires
        hub_wf(h),
        h.clients.contains_key(id),
        is_say(posts, h, id, text, ts),
        h.clients.contains_key(other),
        other != id,
        !h.clients[other].blocked.contains(h.clients[id].username),
    ensures
        addressees(posts).contains(other) <==> h.clients[other].room == h.clients[id].room,
{
}

/// Someone who was blocked and is unblocked again is as before.
pub proof fn law_unblock_undoes_block(h: Hub, id: u64, target: Seq<char>)
    requires
        !h.clients[id].blocked.contains(target),
    ensures
        with_block(with_block(h, id, target, true), id, target, false) == h,
{
    let g = with_block(with_block(h, id, target, true), id, target, false);
    if h.clients.contains_key(id) {
        assert(g.clients[id].blocked =~= h.clients[id].blocked);
        assert(g.clients =~= h.clients);
    }
}

/// A private message reaches the user it names, and nobody else, unless that
/// user is not there or has blocked the sender; then the sender alone is told.
pub proof fn law_private_messages_stay_private(
    h: Hub,
    id: u64,
    to: Seq<char>,
    text: Seq<char>,
    ts: i64,
)
    requires
        hub_wf(h),
        h.clients.contains_key(id),
    ensures
        ({
            let posts = pm_posts(h, id, to, text, ts);
            &&& posts.len() == 1
            &&& posts[0].msg is Pm ==> h.clients[posts[0].to].username == to
                && !h.clients[posts[0].to].blocked.contains(h.clients[id].username)
            &&& !(posts[0].msg is Pm) ==> posts[0].to == id && posts[0].msg is Error
        }),
{
}

/// There is one list of a set of texts in ascending order.
pub proof fn law_sorted_lists_are_equal(a: Seq<Seq<char>>, b: Seq<Seq<char>>, set: Set<Seq<char>>)
    requires
        is_sorted(a, set),
        is_sorted(b, set),
    ensures
        a == b,
    decreases a.len(),
{
    if a.len() == 0 {
        if b.len() > 0 {
            assert(b.to_set().contains(b[0]));
            assert(a.contains(b[0]));
        }
        assert(a =~= b);
    } else {
        assert(a.to_set().contains(a[0]));
        assert(b.contains(a[0]));
        let j = b.index_of(a[0]);
        assert(b.to_set().contains(b[0]));
        assert(a.contains(b[0]));
        let i = a.index_of(b[0]);
        lemma_before_irreflexive(a[0]);
        if j > 0 && i > 0 {
            lemma_before_transitive(a[0], b[0], a[0]);
        }
        assert(a[0] == b[0]);
        let first = a[0];
        let rest = set.remove(first);
        assert forall|x: Seq<char>| a.drop_first().to_set().contains(x) <==> rest.contains(x) by {
            lemma_tail_of_sorted(a, x);
            assert(set.contains(x) <==> a.contains(x));
        }
        assert forall|x: Seq<char>| b.drop_first().to_set().contains(x) <==> rest.contains(x) by {
            lemma_tail_of_sorted(b, x);
            assert(set.contains(x) <==> b.contains(x));
        }
        assert(a.drop_first().to_set() =~= rest);
        assert(b.drop_first().to_set() =~= rest);
        assert(ascending(a.drop_first())) by {
            assert forall|k: int, l: int| 0 <= k < l < a.drop_first().len() implies before(
                #[trigger] a.drop_first()[k],
                #[trigger] a.drop_first()[l],
            ) by {
                assert(before(a[k + 1], a[l + 1]));
            }
        }
        assert(ascending(b.drop_first())) by {
            assert forall|k: int, l: int| 0 <= k < l < b.drop_first().len() implies before(
                #[trigger] b.drop_first()[k],
                #[trigger] b.drop_first()[l],
            ) by {
                assert(before(b[k + 1], b[l + 1]));
            }
        }
        law_sorted_lists_are_equal(a.drop_first(), b.drop_first(), rest);
        assert(a =~= seq![first] + a.drop_first());
        assert(b =~= seq![first] + b.drop_first());
    }
}

proof fn lemma_tail_of_sorted(a: Seq<Seq<char>>, x: Seq<char>)
    requires
        ascending(a),
        a.len() > 0,
    ensures
        a.drop_first().contains(x) <==> a.contains(x) && x != a[0],
{
    if a.drop_first().contains(x) {
        let k = a.drop_first().index_of(x);
        assert(a[k + 1] == x);
        assert(before(a[0], a[k + 1]));
        lemma_before_irreflexive(x);
    }
    if a.contains(x) && x != a[0] {
        let k = a.index_of(x);
        assert(a.drop_first()[k - 1] == x);
    }
}

} // verus!
