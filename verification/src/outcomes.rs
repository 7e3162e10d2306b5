//! Laws on what the server's operations are for: who gets what, and what changes
//! in the state and what does not.

use vstd::prelude::*;

use crate::hub::{
    addressees, after_join, are_move_posts, block_posts, empty_hub, hears, hub_wf, is_announcement,
    is_broadcast, is_census, is_directory, is_in, is_join, is_room_list, is_roster, is_say,
    is_sorted, is_user_list, logged, moved, pm_posts, posted, registered, timed, unregistered,
    watching, with_block, with_observed_rooms, with_observed_users, Hub, LogEntry, Member, Post,
};
use crate::ids::rising;
use crate::order::before;
use crate::protocol::{room_fault, ServerMsg, DEFAULT_ROOM};
use crate::state::{
    entries, is_server_notice, is_snapshot, room_pairs, server_notice, user_pairs, Snapshot,
};
use crate::text_map::ascending;

verus! {

// ---------------------------------------------------------------------------
// Private messages
// ---------------------------------------------------------------------------

/// A private message to a connected user who has not blocked the sender is
/// delivered once, to that user, with the sender's name, the whole text and the
/// time as given.
pub proof fn law_private_message_is_delivered(h: Hub, id: u64, t: u64, text: Seq<char>, ts: i64)
    requires
        hub_wf(h),
        h.clients.contains_key(id),
        h.clients.contains_key(t),
        !h.clients[t].blocked.contains(h.clients[id].username),
    ensures
        pm_posts(h, id, h.clients[t].username, text, ts) == seq![
            Post { to: t, msg: ServerMsg::Pm { from: h.clients[id].username, text, ts } },
        ],
{
}

/// A private message to a user who has blocked the sender is not delivered: the
/// sender alone is told, with the user's name.
pub proof fn law_blocked_private_message_is_refused(
    h: Hub,
    id: u64,
    t: u64,
    text: Seq<char>,
    ts: i64,
)
    requires
        hub_wf(h),
        h.clients.contains_key(id),
        h.clients.contains_key(t),
        h.clients[t].blocked.contains(h.clients[id].username),
    ensures
        pm_posts(h, id, h.clients[t].username, text, ts) == seq![
            Post {
                to: id,
                msg: ServerMsg::Error { text: "you are blocked by "@ + h.clients[t].username },
            },
        ],
{
}

/// A private message to a name that no client bears is answered to the sender
/// alone, with the name in quotes. Nobody sends without being connected.
pub proof fn law_private_message_to_nobody(
    h: Hub,
    id: u64,
    to: Seq<char>,
    text: Seq<char>,
    ts: i64,
)
    requires
        hub_wf(h),
        forall|t: u64| #[trigger] h.clients.contains_key(t) ==> h.clients[t].username != to,
    ensures
        h.clients.contains_key(id) ==> pm_posts(h, id, to, text, ts) == seq![
            Post { to: id, msg: ServerMsg::Error { text: "user '"@ + to + "' not found"@ } },
        ],
        !h.clients.contains_key(id) ==> pm_posts(h, id, to, text, ts).len() == 0,
{
}

/// A private message asked for by no client comes to nothing.
pub proof fn law_no_sender_no_message(
    posts: Seq<Post>,
    h: Hub,
    id: u64,
    to: Seq<char>,
    text: Seq<char>,
    room: Seq<char>,
    block: bool,
    ts: i64,
)
    requires
        !h.clients.contains_key(id),
    ensures
        pm_posts(h, id, to, text, ts).len() == 0,
        block_posts(h, id, to, block, ts).len() == 0,
        is_say(posts, h, id, text, ts) ==> posts.len() == 0,
        is_join(posts, h, id, room) ==> posts.len() == 0,
        is_user_list(posts, h, id) ==> posts.len() == 0,
        is_room_list(posts, h, id) ==> posts.len() == 0,
        after_join(h, id, room) == h,
        with_block(h, id, to, block) == h,
        unregistered(h, id) == h,
{
}

// ---------------------------------------------------------------------------
// Chat
// ---------------------------------------------------------------------------

/// Each delivery of a chat line carries the sender's name and room, the whole
/// text and the time as given, and goes to a client in that room; no client gets
/// it twice.
pub proof fn law_chat_carries_what_was_said(
    posts: Seq<Post>,
    h: Hub,
    id: u64,
    text: Seq<char>,
    ts: i64,
)
    requires
        hub_wf(h),
        h.clients.contains_key(id),
        is_say(posts, h, id, text, ts),
    ensures
        forall|i: int|
            #![trigger posts[i]]
            0 <= i < posts.len() ==> {
                &&& posts[i].msg == ServerMsg::Chat {
                    from: h.clients[id].username,
                    room: h.clients[id].room,
                    text,
                    ts,
                }
                &&& h.clients.contains_key(posts[i].to)
                &&& h.clients[posts[i].to].room == h.clients[id].room
                &&& posts[i].to != id
            },
        forall|i: int, j: int|
            #![trigger posts[i], posts[j]]
            0 <= i < j < posts.len() ==> posts[i].to != posts[j].to,
        forall|other: u64|
            #![trigger h.clients[other]]
            h.clients.contains_key(other) && other != id && h.clients[other].room
                == h.clients[id].room && !h.clients[other].blocked.contains(
                h.clients[id].username,
            ) ==> exists|k: int| 0 <= k < posts.len() && (#[trigger] posts[k]).to == other,
        forall|other: u64|
            #![trigger h.clients[other]]
            h.clients[other].blocked.contains(h.clients[id].username) ==> forall|k: int|
                0 <= k < posts.len() ==> (#[trigger] posts[k]).to != other,
{
    let msg = ServerMsg::Chat {
        from: h.clients[id].username,
        room: h.clients[id].room,
        text,
        ts,
    };
    lemma_broadcast(posts, h, h.clients[id].room, msg, Some(id));
    assert forall|other: u64|
        #![trigger h.clients[other]]
        h.clients.contains_key(other) && other != id && h.clients[other].room
            == h.clients[id].room && !h.clients[other].blocked.contains(
            h.clients[id].username,
        ) implies exists|k: int| 0 <= k < posts.len() && (#[trigger] posts[k]).to == other by {
        assert(hears(h, h.clients[id].room, msg, Some(id), other));
    }
}

/// A broadcast read one delivery at a time.
pub proof fn lemma_broadcast(
    posts: Seq<Post>,
    h: Hub,
    room: Seq<char>,
    msg: ServerMsg,
    except: Option<u64>,
)
    requires
        is_broadcast(posts, h, room, msg, except),
    ensures
        forall|i: int|
            #![trigger posts[i]]
            0 <= i < posts.len() ==> posts[i].msg == msg && hears(
                h,
                room,
                msg,
                except,
                posts[i].to,
            ),
        forall|i: int, j: int|
            #![trigger posts[i], posts[j]]
            0 <= i < j < posts.len() ==> posts[i].to != posts[j].to,
        forall|id: u64| #[trigger]
            hears(h, room, msg, except, id) ==> exists|k: int|
                0 <= k < posts.len() && (#[trigger] posts[k]).to == id,
{
    let to = addressees(posts);
    assert forall|i: int| #![trigger posts[i]] 0 <= i < posts.len() implies posts[i].msg == msg
        && hears(h, room, msg, except, posts[i].to) by {
        assert(to[i] == posts[i].to);
        assert(to.contains(posts[i].to));
    }
    assert forall|i: int, j: int|
        #![trigger posts[i], posts[j]]
        0 <= i < j < posts.len() implies posts[i].to != posts[j].to by {
        assert(to[i] == posts[i].to && to[j] == posts[j].to);
    }
    assert forall|id: u64| #[trigger] hears(h, room, msg, except, id) implies exists|k: int|
        0 <= k < posts.len() && (#[trigger] posts[k]).to == id by {
        assert(to.contains(id));
        let k = to.index_of(id);
        assert(posts[k].to == id);
    }
}

/// What is sent to a room goes as it is, once, to every client that is in the
/// room, but for the one that is left out and, of chat, for those who have
/// blocked its sender.
pub proof fn law_a_broadcast_reaches_the_room(
    posts: Seq<Post>,
    h: Hub,
    room: Seq<char>,
    msg: ServerMsg,
    except: Option<u64>,
    id: u64,
)
    requires
        hub_wf(h),
        is_broadcast(posts, h, room, msg, except),
    ensures
        posts.contains(Post { to: id, msg }) <==> {
            &&& h.clients.contains_key(id)
            &&& h.clients[id].room == room
            &&& except != Some(id)
            &&& msg matches ServerMsg::Chat { from, room: r, text, ts }
                ==> !h.clients[id].blocked.contains(from)
        },
        forall|i: int| 0 <= i < posts.len() ==> (#[trigger] posts[i]).msg == msg,
        forall|i: int, j: int|
            #![trigger posts[i], posts[j]]
            0 <= i < j < posts.len() ==> posts[i].to != posts[j].to,
{
    lemma_broadcast(posts, h, room, msg, except);
    if posts.contains(Post { to: id, msg }) {
        let k = posts.index_of(Post { to: id, msg });
        assert(hears(h, room, msg, except, posts[k].to));
    }
    if h.clients.contains_key(id) && h.clients[id].room == room {
        assert(is_in(h.rooms, room, id));
        if hears(h, room, msg, except, id) {
            let k = choose|k: int| 0 <= k < posts.len() && (#[trigger] posts[k]).to == id;
            assert(posts[k] == Post { to: id, msg });
        }
    }
}

/// A message to one client goes to that client as it is, once, if it is
/// connected. A notice of the server says that it is one, and then its text.
pub proof fn law_messages_to_one(h: Hub, id: u64, msg: ServerMsg, text: Seq<char>, ts: i64)
    ensures
        h.clients.contains_key(id) ==> posted(h, id, msg) == seq![Post { to: id, msg }],
        !h.clients.contains_key(id) ==> posted(h, id, msg).len() == 0,
        server_notice(text, ts) == (ServerMsg::System { text: "[SERVER] "@ + text, ts }),
{
}

// ---------------------------------------------------------------------------
// Rooms
// ---------------------------------------------------------------------------

/// Who goes to another room is told so once. Those who were with it are told
/// that it left their room, those whom it joins are told that it joined theirs,
/// and nobody is told anything else.
pub proof fn law_a_move_is_told(posts: Seq<Post>, h: Hub, id: u64, room: Seq<char>)
    requires
        hub_wf(h),
        h.clients.contains_key(id),
        h.clients[id].room != room,
        room_fault(room) is None,
        is_join(posts, h, id, room),
    ensures
        ({
            let name = h.clients[id].username;
            let old_room = h.clients[id].room;
            let left = ServerMsg::UserLeft { username: name, room: old_room };
            let come = ServerMsg::UserJoined { username: name, room };
            &&& posts.contains(Post { to: id, msg: ServerMsg::Joined { room } })
            &&& forall|i: int|
                #![trigger posts[i]]
                0 <= i < posts.len() ==> {
                    ||| posts[i] == Post { to: id, msg: ServerMsg::Joined { room } }
                    ||| posts[i].msg == left && posts[i].to != id && h.clients.contains_key(
                        posts[i].to,
                    ) && h.clients[posts[i].to].room == old_room
                    ||| posts[i].msg == come && posts[i].to != id && h.clients.contains_key(
                        posts[i].to,
                    ) && h.clients[posts[i].to].room == room
                }
            &&& forall|i: int, j: int|
                #![trigger posts[i], posts[j]]
                0 <= i < j < posts.len() ==> posts[i].to != posts[j].to
            &&& forall|i: int, j: int|
                #![trigger posts[i], posts[j]]
                0 <= i < j < posts.len() ==> !(posts[j].msg is UserLeft && posts[i].msg
                    !is UserLeft) && !(posts[i].msg is UserJoined && posts[j].msg !is UserJoined)
            &&& forall|other: u64|
                #![trigger h.clients[other]]
                h.clients.contains_key(other) && other != id && h.clients[other].room == old_room
                    ==> posts.contains(Post { to: other, msg: left })
            &&& forall|other: u64|
                #![trigger h.clients[other]]
                h.clients.contains_key(other) && other != id && h.clients[other].room == room
                    ==> posts.contains(Post { to: other, msg: come })
        }),
{
    let c = h.clients[id];
    let left_msg = ServerMsg::UserLeft { username: c.username, room: c.room };
    let come_msg = ServerMsg::UserJoined { username: c.username, room };
    let after = moved(h, id, room);
    let mid = Post { to: id, msg: ServerMsg::Joined { room } };
    let (left, come) = choose|left: Seq<Post>, come: Seq<Post>| #[trigger]
        are_move_posts(posts, left, come, h, id, room);
    assert(are_move_posts(posts, left, come, h, id, room));
    lemma_broadcast(left, after, c.room, left_msg, Some(id));
    lemma_broadcast(come, after, room, come_msg, Some(id));
    crate::hub::law_move_keeps_order(h, id, room);
    let n = left.len() as int;
    assert(posts[n] == mid);
    assert forall|i: int| #![trigger posts[i]] 0 <= i < posts.len() implies {
        ||| i < n && posts[i] == left[i]
        ||| i == n && posts[i] == mid
        ||| n < i && posts[i] == come[i - n - 1]
    } by {}
    assert forall|i: int|
        #![trigger posts[i]]
        0 <= i < posts.len() implies if i < n {
            posts[i].msg == left_msg && hears(after, c.room, left_msg, Some(id), posts[i].to)
        } else if i == n {
            posts[i] == mid
        } else {
            posts[i].msg == come_msg && hears(after, room, come_msg, Some(id), posts[i].to)
        } by {
        if i < n {
            assert(left[i].msg == left_msg);
        } else if i > n {
            assert(come[i - n - 1].msg == come_msg);
        }
    }
    assert forall|other: u64| #![trigger h.clients[other]] other != id implies (
    after.clients.contains_key(other) <==> h.clients.contains_key(other)) && (
    h.clients.contains_key(other) ==> after.clients[other] == h.clients[other]) by {}
    assert forall|i: int, j: int|
        #![trigger posts[i], posts[j]]
        0 <= i < j < posts.len() implies posts[i].to != posts[j].to by {
        if j < n {
            assert(left[i].to != left[j].to);
        } else if i > n {
            assert(come[i - n - 1].to != come[j - n - 1].to);
        } else if i < n && j > n {
            assert(is_in(after.rooms, c.room, posts[i].to));
            assert(is_in(after.rooms, room, posts[j].to));
        }
    }
    assert forall|other: u64|
        #![trigger h.clients[other]]
        h.clients.contains_key(other) && other != id && h.clients[other].room
            == c.room implies posts.contains(Post { to: other, msg: left_msg }) by {
        assert(after.clients.contains_key(other));
        assert(hears(after, c.room, left_msg, Some(id), other));
        let k = choose|k: int| 0 <= k < left.len() && (#[trigger] left[k]).to == other;
        assert(posts[k] == left[k]);
        assert(posts[k] == Post { to: other, msg: left_msg });
    }
    assert forall|other: u64|
        #![trigger h.clients[other]]
        h.clients.contains_key(other) && other != id && h.clients[other].room
            == room implies posts.contains(Post { to: other, msg: come_msg }) by {
        assert(after.clients.contains_key(other));
        assert(hears(after, room, come_msg, Some(id), other));
        let k = choose|k: int| 0 <= k < come.len() && (#[trigger] come[k]).to == other;
        assert(posts[n + 1 + k] == come[k]);
        assert(posts[n + 1 + k] == Post { to: other, msg: come_msg });
    }
}

/// Asking for the room one is in does nothing. Asking for a name that no room
/// can have changes nothing, and the client alone is told the fault.
pub proof fn law_no_move_no_news(posts: Seq<Post>, h: Hub, id: u64, room: Seq<char>)
    requires
        is_join(posts, h, id, room),
        h.clients.contains_key(id),
    ensures
        room_fault(room) matches Some(e) ==> posts == seq![
            Post { to: id, msg: ServerMsg::Error { text: e } },
        ],
        room_fault(room) is None && h.clients[id].room == room ==> posts.len() == 0,
        room_fault(room) is Some || h.clients[id].room == room ==> after_join(h, id, room) == h,
{
}

/// A move takes the client to the room, with its name and its blocks, and
/// changes nothing but who is where.
pub proof fn law_a_move_keeps_the_rest(h: Hub, id: u64, room: Seq<char>)
    requires
        hub_wf(h),
        h.clients.contains_key(id),
        room_fault(room) is None,
    ensures
        ({
            let g = after_join(h, id, room);
            &&& g.clients[id] == Member { room, ..h.clients[id] }
            &&& g.clients.dom() == h.clients.dom()
            &&& g == Hub { clients: g.clients, rooms: g.rooms, ..h }
        }),
        after_join(h, id, room).rooms.contains_key(room),
        hub_wf(after_join(h, id, room)),
{
    let g = after_join(h, id, room);
    assert(g.clients.dom() =~= h.clients.dom());
    assert(is_in(h.rooms, h.clients[id].room, id));
    if h.clients[id].room != room {
        crate::hub::law_move_keeps_order(h, id, room);
    } else {
        assert(g.clients[id] == Member { room, ..h.clients[id] });
    }
}

// ---------------------------------------------------------------------------
// Lists
// ---------------------------------------------------------------------------

/// Who asks for the users gets one list, and it names once everyone who is in
/// the same room, the asker with them, and nobody else.
pub proof fn law_the_user_list_names_the_room(posts: Seq<Post>, h: Hub, id: u64)
    requires
        hub_wf(h),
        h.clients.contains_key(id),
        is_user_list(posts, h, id),
    ensures
        posts.len() == 1,
        posts[0].to == id,
        (posts[0].msg matches ServerMsg::UserList { users } && users.no_duplicates() && (forall|
            n: Seq<char>,
        | #[trigger]
            users.contains(n) <==> exists|other: u64|
                #![trigger h.clients[other]]
                h.clients.contains_key(other) && h.clients[other].room == h.clients[id].room
                    && h.clients[other].username == n)),
{
    let room = h.clients[id].room;
    let users = choose|users: Seq<Seq<char>>|
        posts == seq![Post { to: id, msg: ServerMsg::UserList { users } }] && #[trigger] is_roster(
            users,
            h,
            room,
        );
    assert(is_roster(users, h, room));
    assert forall|n: Seq<char>| #[trigger] users.contains(n) <==> exists|other: u64|
        #![trigger h.clients[other]]
        h.clients.contains_key(other) && h.clients[other].room == room
            && h.clients[other].username == n by {
        if users.contains(n) {
            let other = choose|other: u64|
                #![trigger h.clients[other]]
                is_in(h.rooms, room, other) && h.clients[other].username == n;
            assert(h.clients.contains_key(other) && h.clients[other].room == room);
        }
        if exists|other: u64|
            #![trigger h.clients[other]]
            h.clients.contains_key(other) && h.clients[other].room == room
                && h.clients[other].username == n {
            let other = choose|other: u64|
                #![trigger h.clients[other]]
                h.clients.contains_key(other) && h.clients[other].room == room
                    && h.clients[other].username == n;
            assert(is_in(h.rooms, room, other));
        }
    }
}

/// Who asks for the rooms gets one list, and it names in ascending order the
/// default room and every room that someone is in, and no other.
pub proof fn law_the_room_list_names_the_rooms(posts: Seq<Post>, h: Hub, id: u64, r: Seq<char>)
    requires
        hub_wf(h),
        h.clients.contains_key(id),
        is_room_list(posts, h, id),
    ensures
        posts.len() == 1,
        posts[0].to == id,
        (posts[0].msg matches ServerMsg::RoomList { rooms } && ascending(rooms) && (forall|
            i: int,
            j: int,
        |
            0 <= i < j < rooms.len() ==> before(#[trigger] rooms[i], #[trigger] rooms[j])) && (
        rooms.contains(r)
            <==> (r == "general"@ || exists|other: u64|
            #![trigger h.clients[other]]
            h.clients.contains_key(other) && h.clients[other].room == r))),
{
    let rooms = choose|rooms: Seq<Seq<char>>|
        posts == seq![Post { to: id, msg: ServerMsg::RoomList { rooms } }] && #[trigger] is_sorted(
            rooms,
            h.rooms.dom(),
        );
    assert(is_sorted(rooms, h.rooms.dom()));
    assert(rooms.to_set().contains(r) <==> rooms.contains(r));
    if r != DEFAULT_ROOM@ {
        crate::hub::law_no_ghost_rooms(h, r);
    }
}

// ---------------------------------------------------------------------------
// Blocking
// ---------------------------------------------------------------------------

/// Blocking or unblocking a name settles that name for that client, and leaves
/// the client's other blocks, its name, its room and everything else alone. The
/// client alone is told, with the name.
pub proof fn law_blocking_settles_one_name(
    h: Hub,
    id: u64,
    target: Seq<char>,
    block: bool,
    n: Seq<char>,
    ts: i64,
)
    requires
        h.clients.contains_key(id),
    ensures
        ({
            let g = with_block(h, id, target, block);
            &&& g.clients.dom() == h.clients.dom()
            &&& g == Hub { clients: g.clients, ..h }
            &&& g.clients[id].username == h.clients[id].username
            &&& g.clients[id].room == h.clients[id].room
            &&& g.clients[id].blocked.contains(target) == block
            &&& n != target ==> g.clients[id].blocked.contains(n)
                == h.clients[id].blocked.contains(n)
        }),
        block_posts(h, id, target, true, ts) == seq![
            Post { to: id, msg: ServerMsg::System { text: "blocked "@ + target, ts } },
        ],
        block_posts(h, id, target, false, ts) == seq![
            Post { to: id, msg: ServerMsg::System { text: "unblocked "@ + target, ts } },
        ],
{
    let g = with_block(h, id, target, block);
    assert(g.clients.dom() =~= h.clients.dom());
    reveal_strlit("blocked");
    reveal_strlit("unblocked");
    reveal_strlit("blocked ");
    reveal_strlit("unblocked ");
    reveal_strlit(" ");
    assert("blocked"@ + " "@ =~= "blocked "@);
    assert("unblocked"@ + " "@ =~= "unblocked "@);
}

// ---------------------------------------------------------------------------
// Coming and going
// ---------------------------------------------------------------------------

/// A server starts with nobody on it, with the default room alone, with nothing
/// logged and nothing counted, and watching no other.
pub proof fn law_a_server_starts_empty(r: Seq<char>)
    ensures
        ({
            let h = empty_hub();
            &&& h.clients == Map::<u64, Member>::empty()
            &&& h.names == Map::<Seq<char>, u64>::empty()
            &&& h.rooms.contains_key(r) <==> r == "general"@
            &&& h.rooms["general"@] == Set::<u64>::empty()
            &&& h.log.len() == 0
            &&& h.total_messages == 0 && h.total_connections == 0 && h.uptime == 0
            &&& h.next_id == 1
            &&& !h.observe_mode && h.observed_users.len() == 0 && h.observed_rooms.len() == 0
        }),
{
}

/// What is set of the state is that, and nothing else changes.
pub proof fn law_settings_change_one_thing(
    h: Hub,
    on: bool,
    secs: u64,
    users: Seq<(Seq<char>, Seq<char>)>,
    rooms: Seq<(Seq<char>, usize)>,
)
    ensures
        watching(h, on).observe_mode == on,
        watching(watching(h, on), h.observe_mode) == h,
        timed(h, secs).uptime == secs,
        timed(timed(h, secs), h.uptime) == h,
        with_observed_users(h, users).observed_users == users,
        with_observed_users(with_observed_users(h, users), h.observed_users) == h,
        with_observed_rooms(h, rooms).observed_rooms == rooms,
        with_observed_rooms(with_observed_rooms(h, rooms), h.observed_rooms) == h,
{
}

/// Who connects under a free name gets a number that nobody has, the name asked
/// for, the default room and no blocks. The others, the log, the counters but
/// that of connections, and the other rooms stay as they are.
pub proof fn law_who_comes(h: Hub, name: Seq<char>, other: u64, r: Seq<char>)
    requires
        hub_wf(h),
        !h.names.contains_key(name),
        h.total_connections < u64::MAX,
    ensures
        ({
            let g = registered(h, name);
            let id = h.next_id;
            &&& !h.clients.contains_key(id)
            &&& g.clients.contains_key(id)
            &&& g.clients[id].username == name
            &&& g.clients[id].room == "general"@
            &&& g.clients[id].blocked == Set::<Seq<char>>::empty()
            &&& g.names.contains_key(name) && g.names[name] == id
            &&& other != id ==> (g.clients.contains_key(other) <==> h.clients.contains_key(other))
            &&& h.clients.contains_key(other) ==> g.clients[other] == h.clients[other]
            &&& r != "general"@ ==> (g.rooms.contains_key(r) <==> h.rooms.contains_key(r))
            &&& r != "general"@ && h.rooms.contains_key(r) ==> g.rooms[r] == h.rooms[r]
            &&& g.total_connections == h.total_connections + 1
            &&& id == h.total_connections + 1
            &&& id < u64::MAX ==> g.next_id == id + 1
            &&& g == Hub {
                next_id: g.next_id,
                clients: g.clients,
                names: g.names,
                rooms: g.rooms,
                total_connections: g.total_connections,
                ..h
            }
        }),
{
}

/// Who goes leaves its name free and its room, and the room is gone with the
/// last of its members, unless it is the default room. The log and the counters
/// stay as they are.
pub proof fn law_who_goes(h: Hub, id: u64, r: Seq<char>)
    requires
        hub_wf(h),
        h.clients.contains_key(id),
    ensures
        ({
            let g = unregistered(h, id);
            &&& !g.clients.contains_key(id)
            &&& g.clients.dom() == h.clients.dom().remove(id)
            &&& g.names.dom() == h.names.dom().remove(h.clients[id].username)
            &&& g == Hub { clients: g.clients, names: g.names, rooms: g.rooms, ..h }
            &&& g.rooms.contains_key(r) <==> (r == "general"@ || exists|other: u64|
                #![trigger h.clients[other]]
                other != id && h.clients.contains_key(other) && h.clients[other].room == r)
        }),
{
    let g = unregistered(h, id);
    crate::hub::law_unregister_keeps_order(h, id);
    assert(g.clients.dom() =~= h.clients.dom().remove(id));
    assert(g.names.dom() =~= h.names.dom().remove(h.clients[id].username));
    if r != DEFAULT_ROOM@ {
        crate::hub::law_no_ghost_rooms(g, r);
        if g.rooms.contains_key(r) {
            let other = choose|other: u64|
                #![trigger g.clients[other]]
                g.clients.contains_key(other) && g.clients[other].room == r;
            assert(h.clients.contains_key(other) && h.clients[other].room == r);
        }
        if exists|other: u64|
            #![trigger h.clients[other]]
            other != id && h.clients.contains_key(other) && h.clients[other].room == r {
            let other = choose|other: u64|
                #![trigger h.clients[other]]
                other != id && h.clients.contains_key(other) && h.clients[other].room == r;
            assert(g.clients.contains_key(other) && g.clients[other].room == r);
        }
    }
}

/// The log takes a line at its end, whole and with its time, and keeps the
/// newest lines before it in their order, five hundred in all. Nothing else
/// changes.
pub proof fn law_the_log_keeps_the_newest(h: Hub, text: Seq<char>, ts: i64)
    requires
        h.log.len() <= 500,
    ensures
        ({
            let g = logged(h, text, ts);
            &&& g == Hub { log: g.log, ..h }
            &&& g.log.len() == if h.log.len() < 500 {
                h.log.len() + 1
            } else {
                500
            }
            &&& g.log.last() == LogEntry { ts, text }
            &&& forall|i: int|
                1 <= i < g.log.len() ==> #[trigger] g.log[g.log.len() - 1 - i]
                    == h.log[h.log.len() - i]
        }),
{
}

/// An announcement reaches every client once, as it is.
pub proof fn law_an_announcement_reaches_all(posts: Seq<Post>, h: Hub, msg: ServerMsg, id: u64)
    requires
        is_announcement(posts, h, msg),
    ensures
        h.clients.contains_key(id) <==> posts.contains(Post { to: id, msg }),
        forall|i: int| 0 <= i < posts.len() ==> (#[trigger] posts[i]).msg == msg,
        forall|i: int, j: int|
            #![trigger posts[i], posts[j]]
            0 <= i < j < posts.len() ==> posts[i].to < posts[j].to,
{
    let to = addressees(posts);
    assert forall|i: int, j: int|
        #![trigger posts[i], posts[j]]
        0 <= i < j < posts.len() implies posts[i].to < posts[j].to by {
        assert(to[i] == posts[i].to && to[j] == posts[j].to);
    }
    if h.clients.contains_key(id) {
        assert(to.contains(id));
        let k = to.index_of(id);
        assert(posts[k] == Post { to: id, msg });
    }
    if posts.contains(Post { to: id, msg }) {
        let k = posts.index_of(Post { to: id, msg });
        assert(to[k] == id);
        assert(to.contains(id));
    }
}

// ---------------------------------------------------------------------------
// What the dashboard shows
// ---------------------------------------------------------------------------

/// The dashboard shows the log and the counters as they are. On a server that
/// watches another it shows the users and rooms last seen there, and otherwise
/// the server's own.
pub proof fn law_the_snapshot_is_true(snap: Snapshot, h: Hub, n: Seq<char>, r: Seq<char>)
    requires
        hub_wf(h),
        is_snapshot(snap, h),
    ensures
        entries(snap.log@) == h.log,
        snap.total_messages == h.total_messages,
        snap.total_connections == h.total_connections,
        snap.uptime == h.uptime,
        h.observe_mode ==> user_pairs(snap.users@) == h.observed_users,
        h.observe_mode ==> room_pairs(snap.rooms@) == h.observed_rooms,
        !h.observe_mode ==> (user_pairs(snap.users@).contains((n, r)) <==> exists|id: u64|
            #![trigger h.clients[id]]
            h.clients.contains_key(id) && h.clients[id].username == n && h.clients[id].room == r),
        !h.observe_mode ==> is_directory(room_pairs(snap.rooms@), h),
{
    if !h.observe_mode {
        law_the_census_is_complete(user_pairs(snap.users@), h, n, r);
    }
}

/// A notice of the server reaches everyone in the default room, and nobody else,
/// and says that it is the server's.
pub proof fn law_server_notices_reach_the_default_room(
    posts: Seq<Post>,
    h: Hub,
    text: Seq<char>,
    ts: i64,
    id: u64,
)
    requires
        hub_wf(h),
        is_server_notice(posts, h, text, ts),
    ensures
        posts.contains(Post { to: id, msg: ServerMsg::System { text: "[SERVER] "@ + text, ts } })
            <==> h.clients.contains_key(id) && h.clients[id].room == "general"@,
        forall|i: int|
            0 <= i < posts.len() ==> (#[trigger] posts[i]).msg == (ServerMsg::System {
                text: "[SERVER] "@ + text,
                ts,
            }),
        forall|i: int, j: int|
            #![trigger posts[i], posts[j]]
            0 <= i < j < posts.len() ==> posts[i].to != posts[j].to,
{
    law_a_broadcast_reaches_the_room(
        posts,
        h,
        "general"@,
        ServerMsg::System { text: "[SERVER] "@ + text, ts },
        None,
        id,
    );
}

/// The dashboard lists every client by name, with its room, and nobody else.
pub proof fn law_the_census_is_complete(
    users: Seq<(Seq<char>, Seq<char>)>,
    h: Hub,
    n: Seq<char>,
    r: Seq<char>,
)
    requires
        hub_wf(h),
        is_census(users, h),
    ensures
        users.contains((n, r)) <==> exists|id: u64|
            #![trigger h.clients[id]]
            h.clients.contains_key(id) && h.clients[id].username == n && h.clients[id].room == r,
        users.no_duplicates(),
{
    let f = |id: u64| (h.clients[id].username, h.clients[id].room);
    let ids = choose|ids: Seq<u64>|
        #[trigger] rising(ids) && ids.to_set() == h.clients.dom() && users == ids.map_values(
            |id: u64| (h.clients[id].username, h.clients[id].room),
        );
    assert forall|i: int| 0 <= i < ids.len() implies #[trigger] h.clients.contains_key(ids[i])
        && users[i] == (h.clients[ids[i]].username, h.clients[ids[i]].room) by {
        assert(ids.to_set().contains(ids[i]));
    }
    if users.contains((n, r)) {
        let k = users.index_of((n, r));
        assert(h.clients.contains_key(ids[k]));
        assert(h.clients[ids[k]].username == n && h.clients[ids[k]].room == r);
    }
    if exists|id: u64|
        #![trigger h.clients[id]]
        h.clients.contains_key(id) && h.clients[id].username == n && h.clients[id].room == r {
        let id = choose|id: u64|
            #![trigger h.clients[id]]
            h.clients.contains_key(id) && h.clients[id].username == n && h.clients[id].room == r;
        assert(ids.to_set().contains(id));
        let k = ids.index_of(id);
        assert(h.clients.contains_key(ids[k]));
        assert(users[k] == (n, r));
    }
    assert forall|i: int, j: int| 0 <= i < users.len() && 0 <= j < users.len() && i != j implies
        users[i] != users[j] by {
        assert(h.clients.contains_key(ids[i]) && h.clients.contains_key(ids[j]));
        assert(ids[i] != ids[j]);
    }
}

/// The dashboard lists every room by name, in ascending order, with the number
/// of clients that are in it.
pub proof fn law_the_directory_counts(rooms: Seq<(Seq<char>, usize)>, h: Hub, i: int)
    requires
        hub_wf(h),
        is_directory(rooms, h),
        0 <= i < rooms.len(),
    ensures
        h.rooms.contains_key(rooms[i].0),
        rooms[i].1 == h.clients.dom().filter(
            |id: u64| h.clients[id].room == rooms[i].0,
        ).len(),
        forall|j: int|
            0 <= j < i ==> before((#[trigger] rooms[j]).0, rooms[i].0),
        forall|r: Seq<char>| #[trigger]
            h.rooms.contains_key(r) ==> exists|k: int|
                0 <= k < rooms.len() && (#[trigger] rooms[k]).0 == r,
{
    let names = rooms.map_values(|r: (Seq<char>, usize)| r.0);
    assert(names[i] == rooms[i].0);
    assert(names.to_set().contains(names[i]));
    let here = h.clients.dom().filter(|id: u64| h.clients[id].room == rooms[i].0);
    assert(here =~= h.rooms[rooms[i].0]) by {
        assert forall|id: u64| here.contains(id) <==> h.rooms[rooms[i].0].contains(id) by {
            if here.contains(id) {
                assert(h.clients.contains_key(id));
            }
            if h.rooms[rooms[i].0].contains(id) {
                assert(is_in(h.rooms, rooms[i].0, id));
            }
        }
    }
    assert forall|j: int| 0 <= j < i implies before(
        (#[trigger] rooms[j]).0,
        rooms[i].0,
    ) by {
        assert(names[j] == rooms[j].0);
    }
    assert forall|r: Seq<char>| #[trigger] h.rooms.contains_key(r) implies exists|k: int|
        0 <= k < rooms.len() && (#[trigger] rooms[k]).0 == r by {
        assert(names.to_set().contains(r));
        let k = names.index_of(r);
        assert(rooms[k].0 == r);
    }
}

} // verus!
