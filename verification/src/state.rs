//! The server's state.

use std::collections::{BTreeMap, HashSet, VecDeque};
use vstd::prelude::*;

use crate::hub::{
    addressees, after_join, are_move_posts, block_posts, can_move, empty_hub, entered, hears,
    hub_wf, is_announcement, is_broadcast, is_census, is_directory, is_in, is_join, is_room_list,
    is_roster, is_say, is_sorted, is_unwanted, is_user_list, law_block_keeps_order,
    law_log_keeps_order, law_move_keeps_order, law_names_are_unique, law_register_keeps_order,
    law_unregister_keeps_order, logged, moved, pm_posts, posted, pruned, registered, timed,
    unregistered, vacated, watching, with_block, with_observed_rooms, with_observed_users, Hub,
    LogEntry, Member, Post, LOG_LINES,
};
use crate::ids::{list_ids, list_keys, rising};
use crate::protocol::{now_ts, validate_room, ServerMessage, ServerMsg, DEFAULT_ROOM};
use crate::session::counted;
use crate::text::{str_eq, texts};
use crate::text_map::{ascending, TextMap};

verus! {

// ---------------------------------------------------------------------------
// Types
// ---------------------------------------------------------------------------

/// The number of a client.
#[derive(Copy, Clone, Eq, PartialEq, Ord, PartialOrd, Hash, Debug, Structural)]
pub struct ClientId(pub u64);

/// A connected client.
pub struct Client {
    pub username: String,
    pub room: String,
    pub blocked: TextMap<()>,
}

impl View for Client {
    type V = Member;

    open spec fn view(&self) -> Member {
        Member { username: self.username@, room: self.room@, blocked: self.blocked@.dom() }
    }
}

/// A line of the activity log.
#[derive(Debug)]
pub struct LogLine {
    pub ts: i64,
    pub text: String,
}

impl View for LogLine {
    type V = LogEntry;

    open spec fn view(&self) -> LogEntry {
        LogEntry { ts: self.ts, text: self.text@ }
    }
}

impl Clone for LogLine {
    fn clone(&self) -> (r: Self)
        ensures
            r@ == self@,
    {
        LogLine { ts: self.ts, text: self.text.clone() }
    }
}

/// The models of a list of log lines.
pub open spec fn entries(list: Seq<LogLine>) -> Seq<LogEntry> {
    list.map_values(|l: LogLine| l@)
}

/// A message for a client.
#[derive(Debug)]
pub struct Delivery {
    pub to: ClientId,
    pub msg: ServerMessage,
}

impl View for Delivery {
    type V = Post;

    open spec fn view(&self) -> Post {
        Post { to: self.to.0, msg: self.msg@ }
    }
}

/// The models of a list of deliveries.
pub open spec fn posts(list: Seq<Delivery>) -> Seq<Post> {
    list.map_values(|d: Delivery| d@)
}

/// The models of a list of users with their rooms.
pub open spec fn user_pairs(list: Seq<(String, String)>) -> Seq<(Seq<char>, Seq<char>)> {
    list.map_values(|u: (String, String)| (u.0@, u.1@))
}

/// The models of a list of rooms with their sizes.
pub open spec fn room_pairs(list: Seq<(String, usize)>) -> Seq<(Seq<char>, usize)> {
    list.map_values(|r: (String, usize)| (r.0@, r.1))
}

/// What the dashboard shows of the state.
pub struct Snapshot {
    pub log: Vec<LogLine>,
    pub rooms: Vec<(String, usize)>,
    pub users: Vec<(String, String)>,
    pub total_messages: u64,
    pub total_connections: u64,
    pub uptime: u64,
}

/// Whether `r` is what the dashboard shows of the state `h`. In observe mode
/// users and rooms are those last seen upstream.
pub open spec fn is_snapshot(r: Snapshot, h: Hub) -> bool {
    &&& entries(r.log@) == h.log
    &&& h.observe_mode ==> user_pairs(r.users@) == h.observed_users && room_pairs(r.rooms@)
        == h.observed_rooms
    &&& !h.observe_mode ==> is_census(user_pairs(r.users@), h) && is_directory(
        room_pairs(r.rooms@),
        h,
    )
    &&& r.total_messages == h.total_messages
    &&& r.total_connections == h.total_connections
    &&& r.uptime == h.uptime
}

/// The members of each room.
pub open spec fn member_sets(rooms: Map<Seq<char>, HashSet<u64>>) -> Map<Seq<char>, Set<u64>> {
    rooms.map_values(|s: HashSet<u64>| s@)
}

/// The server's state.
pub struct ServerState {
    next_id: u64,
    clients: BTreeMap<u64, Client>,
    name_to_id: TextMap<ClientId>,
    rooms: TextMap<HashSet<u64>>,
    log: VecDeque<LogLine>,
    total_messages: u64,
    total_connections: u64,
    uptime: u64,
    observe_mode: bool,
    observed_users: Vec<(String, String)>,
    observed_rooms: Vec<(String, usize)>,
}

impl View for ServerState {
    type V = Hub;

    closed spec fn view(&self) -> Hub {
        Hub {
            next_id: self.next_id,
            clients: self.clients@.map_values(|c: Client| c@),
            names: self.name_to_id@.map_values(|id: ClientId| id.0),
            rooms: member_sets(self.rooms@),
            log: entries(self.log@),
            total_messages: self.total_messages,
            total_connections: self.total_connections,
            uptime: self.uptime,
            observe_mode: self.observe_mode,
            observed_users: user_pairs(self.observed_users@),
            observed_rooms: room_pairs(self.observed_rooms@),
        }
    }
}

/// A copy of a list of users with their rooms.
fn clone_user_pairs(list: &Vec<(String, String)>) -> (r: Vec<(String, String)>)
    ensures
        user_pairs(r@) == user_pairs(list@),
{
    let mut out: Vec<(String, String)> = Vec::new();
    let mut i: usize = 0;
    while i < list.len()
        invariant
            i <= list.len(),
            user_pairs(out@) == user_pairs(list@).take(i as int),
        decreases list.len() - i,
    {
        let ghost so_far = user_pairs(out@);
        out.push((list[i].0.clone(), list[i].1.clone()));
        assert(user_pairs(out@) =~= so_far.push(user_pairs(list@)[i as int]));
        i += 1;
        assert(user_pairs(out@) =~= user_pairs(list@).take(i as int));
    }
    assert(user_pairs(list@).take(i as int) =~= user_pairs(list@));
    out
}

/// A copy of a list of rooms with their sizes.
fn clone_room_pairs(list: &Vec<(String, usize)>) -> (r: Vec<(String, usize)>)
    ensures
        room_pairs(r@) == room_pairs(list@),
{
    let mut out: Vec<(String, usize)> = Vec::new();
    let mut i: usize = 0;
    while i < list.len()
        invariant
            i <= list.len(),
            room_pairs(out@) == room_pairs(list@).take(i as int),
        decreases list.len() - i,
    {
        let ghost so_far = room_pairs(out@);
        out.push((list[i].0.clone(), list[i].1));
        assert(room_pairs(out@) =~= so_far.push(room_pairs(list@)[i as int]));
        i += 1;
        assert(room_pairs(out@) =~= room_pairs(list@).take(i as int));
    }
    assert(room_pairs(list@).take(i as int) =~= room_pairs(list@));
    out
}

// ---------------------------------------------------------------------------
// Start, log and counts
// ---------------------------------------------------------------------------

impl ServerState {
    /// Whether the state is in order.
    pub closed spec fn wf(&self) -> bool {
        &&& hub_wf(self@)
        &&& self.name_to_id.wf()
        &&& self.rooms.wf()
        &&& forall|id: u64| #[trigger]
            self.clients@.contains_key(id) ==> self.clients@[id].blocked.wf()
    }

    /// Of every state that the operations below give, what is promised of its
    /// model holds.
    pub proof fn law_state_is_in_order(&self)
        requires
            self.wf(),
        ensures
            hub_wf(self@),
    {
    }

    pub fn new() -> (r: Self)
        ensures
            r.wf(),
            r@ == empty_hub(),
    {
        let mut rooms: TextMap<HashSet<u64>> = TextMap::new();
        rooms.insert(DEFAULT_ROOM.to_owned(), HashSet::new());
        let r = ServerState {
            next_id: 1,
            clients: BTreeMap::new(),
            name_to_id: TextMap::new(),
            rooms,
            log: VecDeque::with_capacity(512),
            total_messages: 0,
            total_connections: 0,
            uptime: 0,
            observe_mode: false,
            observed_users: Vec::new(),
            observed_rooms: Vec::new(),
        };
        assert(r@.rooms =~= empty_hub().rooms);
        assert(r@ =~= empty_hub());
        r
    }

    pub fn set_observe_mode(&mut self, on: bool)
        requires
            old(self).wf(),
        ensures
            final(self).wf(),
            final(self)@ == watching(old(self)@, on),
    {
        self.observe_mode = on;
        proof {
            lemma_same_house(old(self)@, self@);
        }
    }

    pub fn set_observed_users(&mut self, users: Vec<(String, String)>)
        requires
            old(self).wf(),
        ensures
            final(self).wf(),
            final(self)@ == with_observed_users(old(self)@, user_pairs(users@)),
    {
        self.observed_users = users;
        proof {
            lemma_same_house(old(self)@, self@);
        }
    }

    pub fn set_observed_rooms(&mut self, rooms: Vec<(String, usize)>)
        requires
            old(self).wf(),
        ensures
            final(self).wf(),
            final(self)@ == with_observed_rooms(old(self)@, room_pairs(rooms@)),
    {
        self.observed_rooms = rooms;
        proof {
            lemma_same_house(old(self)@, self@);
        }
    }

    pub fn set_uptime(&mut self, secs: u64)
        requires
            old(self).wf(),
        ensures
            final(self).wf(),
            final(self)@ == timed(old(self)@, secs),
    {
        self.uptime = secs;
        proof {
            lemma_same_house(old(self)@, self@);
        }
    }

    /// Counts a message.
    pub fn bump_msg_count(&mut self)
        requires
            old(self).wf(),
            old(self)@.total_messages < u64::MAX,
        ensures
            final(self).wf(),
            final(self)@ == counted(old(self)@),
    {
        self.total_messages = self.total_messages + 1;
        proof {
            lemma_same_house(old(self)@, self@);
        }
    }

    /// Whether `n` more messages can be counted.
    pub fn can_count(&self, n: usize) -> (r: bool)
        ensures
            r == (self@.total_messages + n <= u64::MAX),
    {
        n as u64 <= u64::MAX - self.total_messages
    }

    /// Whether a client called `name` is connected.
    pub fn has_name(&self, name: &str) -> (r: bool)
        requires
            self.wf(),
        ensures
            r == self@.names.contains_key(name@),
    {
        self.name_to_id.contains_key(name)
    }

    /// Whether one more connection can be counted.
    pub fn can_connect(&self) -> (r: bool)
        ensures
            r == (self@.total_connections < u64::MAX),
    {
        self.total_connections < u64::MAX
    }

    /// Logs `text` with the time `ts`.
    pub fn log_at(&mut self, text: String, ts: i64)
        requires
            old(self).wf(),
        ensures
            final(self).wf(),
            final(self)@ == logged(old(self)@, text@, ts),
    {
        let ghost h = self@;
        let ghost entry = LogEntry { ts, text: text@ };
        if self.log.len() >= LOG_LINES {
            let oldest = self.log.pop_front();
            assert(entries(self.log@) =~= h.log.drop_first());
        }
        let ghost kept = entries(self.log@);
        self.log.push_back(LogLine { ts, text });
        proof {
            assert(entries(self.log@) =~= kept.push(entry));
            assert(self@ =~= logged(h, entry.text, ts));
            law_log_keeps_order(h, entry.text, ts);
        }
    }

    /// Logs `text` with the current time.
    pub fn log(&mut self, text: String)
        requires
            old(self).wf(),
        ensures
            final(self).wf(),
            exists|ts: i64| final(self)@ == #[trigger] logged(old(self)@, text@, ts),
    {
        let ts = now_ts();
        self.log_at(text, ts);
    }
}

/// What is in order stays so where clients, names, rooms, log and the number of
/// connections do.
proof fn lemma_same_house(h: Hub, g: Hub)
    requires
        hub_wf(h),
        g.clients == h.clients,
        g.names == h.names,
        g.rooms == h.rooms,
        g.log == h.log,
        g.next_id == h.next_id,
        g.total_connections == h.total_connections,
    ensures
        hub_wf(g),
{
}

// ---------------------------------------------------------------------------
// Rooms
// ---------------------------------------------------------------------------

/// Removes a room once it has no members, so that neither `/rooms` nor the
/// dashboard gathers ghost rooms. The default room is kept.
fn prune_empty_room(rooms: &mut TextMap<HashSet<u64>>, room: &str)
    requires
        old(rooms).wf(),
    ensures
        final(rooms).wf(),
        member_sets(final(rooms)@) == pruned(member_sets(old(rooms)@), room@),
{
    let ghost was = member_sets(rooms@);
    if str_eq(room, DEFAULT_ROOM) {
        return;
    }
    let empty = match rooms.get(room) {
        Some(s) => s.is_empty(),
        None => false,
    };
    if empty {
        assert(was[room@] =~= Set::empty());
        let gone = rooms.remove(room);
        assert(member_sets(rooms@) =~= was.remove(room@));
    } else {
        assert(was.contains_key(room@) ==> was[room@] != Set::<u64>::empty());
    }
}

/// Takes `id` out of `room`, and the room away where it was the last.
fn vacate(rooms: &mut TextMap<HashSet<u64>>, room: &str, id: u64)
    requires
        old(rooms).wf(),
    ensures
        final(rooms).wf(),
        member_sets(final(rooms)@) == vacated(member_sets(old(rooms)@), room@, id),
{
    let ghost was = member_sets(rooms@);
    match rooms.remove(room) {
        Some(s) => {
            let mut s = s;
            let there = s.remove(&id);
            let ghost left = s@;
            rooms.insert(room.to_owned(), s);
            proof {
                assert(left =~= was[room@].remove(id));
                assert(member_sets(rooms@) =~= was.insert(room@, left));
            }
        },
        None => {
            assert(member_sets(rooms@) =~= was);
        },
    }
    prune_empty_room(rooms, room);
}

/// Puts `id` into `room`, which is made where it does not exist.
fn enter(rooms: &mut TextMap<HashSet<u64>>, room: &str, id: u64)
    requires
        old(rooms).wf(),
    ensures
        final(rooms).wf(),
        member_sets(final(rooms)@) == entered(member_sets(old(rooms)@), room@, id),
{
    let ghost was = member_sets(rooms@);
    let mut s = match rooms.remove(room) {
        Some(s) => s,
        None => HashSet::new(),
    };
    let new = s.insert(id);
    let ghost members = s@;
    rooms.insert(room.to_owned(), s);
    proof {
        assert(members =~= entered(was, room@, id)[room@]);
        assert(member_sets(rooms@) =~= entered(was, room@, id));
    }
}

impl ServerState {
    /// Connects a client called `username`. It gets the next number and starts
    /// in the default room. Fails where the name is in use.
    pub fn register(&mut self, username: String) -> (r: Result<ClientId, &'static str>)
        requires
            old(self).wf(),
            !old(self)@.names.contains_key(username@) ==> old(self)@.total_connections < u64::MAX,
        ensures
            final(self).wf(),
            match r {
                Ok(id) => !old(self)@.names.contains_key(username@) && id.0 == old(self)@.next_id
                    && final(self)@ == registered(old(self)@, username@),
                Err(e) => old(self)@.names.contains_key(username@) && e@
                    == "username already in use"@ && final(self)@ == old(self)@,
            },
    {
        let ghost h = self@;
        let ghost name = username@;
        if self.name_to_id.contains_key(username.as_str()) {
            return Err("username already in use");
        }
        let id = self.next_id;
        self.next_id = self.next_id.wrapping_add(1);
        let client = Client {
            username: username.clone(),
            room: DEFAULT_ROOM.to_owned(),
            blocked: TextMap::new(),
        };
        let ghost member = client@;
        let none_before = self.clients.insert(id, client);
        self.name_to_id.insert(username, ClientId(id));
        enter(&mut self.rooms, DEFAULT_ROOM, id);
        self.total_connections = self.total_connections + 1;
        proof {
            assert(member.blocked =~= Set::empty());
            let g = registered(h, name);
            assert(self@.clients =~= g.clients);
            assert(self@.names =~= g.names);
            assert(self@ =~= g);
            law_register_keeps_order(h, name);
        }
        Ok(ClientId(id))
    }

    /// Disconnects client `id`, and tells its room.
    pub fn unregister(&mut self, id: ClientId) -> (r: Vec<Delivery>)
        requires
            old(self).wf(),
        ensures
            final(self).wf(),
            final(self)@ == unregistered(old(self)@, id.0),
            if old(self)@.clients.contains_key(id.0) {
                let c = old(self)@.clients[id.0];
                is_broadcast(
                    posts(r@),
                    final(self)@,
                    c.room,
                    ServerMsg::UserLeft { username: c.username, room: c.room },
                    Some(id.0),
                )
            } else {
                posts(r@) == Seq::<Post>::empty()
            },
    {
        let ghost h = self@;
        match self.clients.remove(&id.0) {
            Some(c) => {
                let ghost before = *self;
                let gone = self.name_to_id.remove(c.username.as_str());
                vacate(&mut self.rooms, c.room.as_str(), id.0);
                proof {
                    let g = unregistered(h, id.0);
                    assert(h.clients[id.0] == c@);
                    assert(self@.clients =~= g.clients);
                    assert(self@.names =~= g.names);
                    assert(self@ =~= g);
                    law_unregister_keeps_order(h, id.0);
                }
                let room = c.room.clone();
                let msg = ServerMessage::UserLeft { username: c.username, room: c.room };
                self.broadcast_room(room.as_str(), msg, Some(id))
            },
            None => {
                assert(self@ =~= h);
                let r: Vec<Delivery> = Vec::new();
                assert(posts(r@) =~= Seq::<Post>::empty());
                r
            },
        }
    }

    /// The delivery of `msg` to client `id`, where that is connected.
    pub fn send_to(&self, id: ClientId, msg: ServerMessage) -> (r: Vec<Delivery>)
        ensures
            posts(r@) == posted(self@, id.0, msg@),
    {
        let mut r: Vec<Delivery> = Vec::new();
        if self.clients.contains_key(&id.0) {
            let ghost post = Post { to: id.0, msg: msg@ };
            r.push(Delivery { to: id, msg });
            assert(posts(r@) =~= seq![post]);
        } else {
            assert(posts(r@) =~= Seq::<Post>::empty());
        }
        r
    }

    /// The deliveries of `msg` to everyone in `room` but `except`. A chat line
    /// is not delivered to those who have blocked its author.
    #[verifier::rlimit(40)]
    pub fn broadcast_room(
        &self,
        room: &str,
        msg: ServerMessage,
        except: Option<ClientId>,
    ) -> (r: Vec<Delivery>)
        requires
            self.wf(),
        ensures
            is_broadcast(posts(r@), self@, room@, msg@, opt_id(except)),
    {
        let mut out: Vec<Delivery> = Vec::new();
        let ids: Vec<u64> = match self.rooms.get(room) {
            Some(members) => list_ids(members),
            None => Vec::new(),
        };
        let ghost who = ids@;
        proof {
            assert forall|id: u64| is_in(self@.rooms, room@, id) <==> who.contains(id) by {
                if self.rooms@.contains_key(room@) {
                    assert(who.to_set().contains(id) <==> self@.rooms[room@].contains(id));
                }
            }
            assert(addressees(posts(out@)) =~= Seq::<u64>::empty());
        }
        let mut i: usize = 0;
        while i < ids.len()
            invariant
                self.wf(),
                i <= ids.len(),
                ids@ == who,
                who.no_duplicates(),
                forall|id: u64| #[trigger] is_in(self@.rooms, room@, id) <==> who.contains(id),
                forall|k: int|
                    0 <= k < posts(out@).len() ==> (#[trigger] posts(out@)[k]).msg == msg@,
                addressees(posts(out@)).no_duplicates(),
                forall|id: u64| #[trigger]
                    addressees(posts(out@)).contains(id) <==> who.take(i as int).contains(id)
                        && hears(self@, room@, msg@, opt_id(except), id),
            decreases ids.len() - i,
        {
            let mid = ids[i];
            let ghost so_far = posts(out@);
            let ghost told = addressees(posts(out@));
            let excluded = match except {
                Some(e) => e.0 == mid,
                None => false,
            };
            let mut hear = false;
            if !excluded {
                if let Some(c) = self.clients.get(&mid) {
                    let unwanted = match &msg {
                        ServerMessage::Chat { from, room, text, ts } => c.blocked.contains_key(
                            from.as_str(),
                        ),
                        _ => false,
                    };
                    assert(unwanted == is_unwanted(self@, mid, msg@));
                    hear = !unwanted;
                }
            }
            proof {
                assert(who.contains(mid));
                assert(is_in(self@.rooms, room@, mid));
                assert(hear == hears(self@, room@, msg@, opt_id(except), mid));
                assert(who.take(i + 1) =~= who.take(i as int).push(mid));
                if who.take(i as int).contains(mid) {
                    let k = who.take(i as int).index_of(mid);
                    assert(who[k] == mid);
                }
                assert(!told.contains(mid));
                lemma_push_contains(who.take(i as int), mid);
                lemma_push_contains(told, mid);
            }
            if hear {
                out.push(Delivery { to: ClientId(mid), msg: msg.clone() });
                proof {
                    assert(posts(out@) =~= so_far.push(Post { to: mid, msg: msg@ }));
                    assert(addressees(posts(out@)) =~= told.push(mid));
                }
            }
            i += 1;
        }
        assert(who.take(i as int) =~= who);
        out
    }
}

/// What a sequence with one more element contains.
proof fn lemma_push_contains(s: Seq<u64>, x: u64)
    ensures
        forall|y: u64| #[trigger] s.push(x).contains(y) <==> s.contains(y) || y == x,
{
    assert forall|y: u64| #[trigger] s.push(x).contains(y) <==> s.contains(y) || y == x by {
        if s.contains(y) {
            assert(s.push(x)[s.index_of(y)] == y);
        }
        assert(s.push(x)[s.len() as int] == x);
    }
}

/// The number in an optional client number.
pub open spec fn opt_id(id: Option<ClientId>) -> Option<u64> {
    match id {
        Some(c) => Some(c.0),
        None => None,
    }
}

// ---------------------------------------------------------------------------
// Requests
// ---------------------------------------------------------------------------

/// One list of deliveries after another.
pub fn chain(first: Vec<Delivery>, second: Vec<Delivery>) -> (r: Vec<Delivery>)
    ensures
        posts(r@) == posts(first@) + posts(second@),
{
    let mut r = first;
    let mut second = second;
    let ghost a = r@;
    let ghost b = second@;
    r.append(&mut second);
    assert(posts(r@) =~= posts(a) + posts(b));
    r
}

impl ServerState {
    /// The deliveries of a server notice to the default room, with the time `ts`.
    pub fn admin_say_at(&self, text: String, ts: i64) -> (r: Vec<Delivery>)
        requires
            self.wf(),
        ensures
            is_server_notice(posts(r@), self@, text@, ts),
    {
        let notice = "[SERVER] ".to_owned().concat(text.as_str());
        self.broadcast_room(DEFAULT_ROOM, ServerMessage::System { text: notice, ts }, None)
    }

    /// The deliveries of a server notice to the default room.
    pub fn admin_say(&self, text: String) -> (r: Vec<Delivery>)
        requires
            self.wf(),
        ensures
            exists|ts: i64| #[trigger] is_server_notice(posts(r@), self@, text@, ts),
    {
        let ts = now_ts();
        self.admin_say_at(text, ts)
    }

    /// The deliveries of a notice to every client, in whatever room, with the time
    /// `ts`.
    pub fn announce_at(&self, text: String, ts: i64) -> (r: Vec<Delivery>)
        requires
            self.wf(),
        ensures
            is_announcement(posts(r@), self@, ServerMsg::System { text: text@, ts }),
    {
        let ids = list_keys(&self.clients);
        let ghost msg = ServerMsg::System { text: text@, ts };
        let mut out: Vec<Delivery> = Vec::new();
        let mut i: usize = 0;
        assert(addressees(posts(out@)) =~= ids@.take(0));
        while i < ids.len()
            invariant
                i <= ids@.len(),
                msg == (ServerMsg::System { text: text@, ts }),
                forall|k: int|
                    0 <= k < posts(out@).len() ==> (#[trigger] posts(out@)[k]).msg == msg,
                addressees(posts(out@)) == ids@.take(i as int),
            decreases ids.len() - i,
        {
            let ghost so_far = posts(out@);
            let ghost told = addressees(posts(out@));
            let notice = ServerMessage::System { text: text.clone(), ts };
            out.push(Delivery { to: ClientId(ids[i]), msg: notice });
            proof {
                assert(posts(out@) =~= so_far.push(Post { to: ids@[i as int], msg }));
                assert(addressees(posts(out@)) =~= told.push(ids@[i as int]));
                assert(ids@.take(i + 1) =~= ids@.take(i as int).push(ids@[i as int]));
            }
            i += 1;
        }
        proof {
            assert(ids@.take(i as int) =~= ids@);
            assert forall|id: u64| #[trigger]
                ids@.contains(id) <==> self@.clients.contains_key(id) by {
                assert(ids@.to_set().contains(id) <==> self.clients@.dom().contains(id));
            }
        }
        out
    }

    /// Client `id` says `text` at `ts`. The sender gets no copy: the client
    /// shows its own lines itself.
    pub fn handle_say_at(&self, id: ClientId, text: String, ts: i64) -> (r: Vec<Delivery>)
        requires
            self.wf(),
        ensures
            is_say(posts(r@), self@, id.0, text@, ts),
    {
        match self.clients.get(&id.0) {
            Some(c) => {
                assert(self@.clients[id.0] == c@);
                let msg = ServerMessage::Chat {
                    from: c.username.clone(),
                    room: c.room.clone(),
                    text,
                    ts,
                };
                self.broadcast_room(c.room.as_str(), msg, Some(id))
            },
            None => {
                let r: Vec<Delivery> = Vec::new();
                assert(posts(r@) =~= Seq::<Post>::empty());
                r
            },
        }
    }

    /// Client `id` says `text` now.
    pub fn handle_say(&self, id: ClientId, text: String) -> (r: Vec<Delivery>)
        requires
            self.wf(),
        ensures
            exists|ts: i64| #[trigger] is_say(posts(r@), self@, id.0, text@, ts),
    {
        let ts = now_ts();
        self.handle_say_at(id, text, ts)
    }

    /// Client `id` asks to join `new_room`.
    #[verifier::rlimit(40)]
    pub fn handle_join(&mut self, id: ClientId, new_room: String) -> (r: Vec<Delivery>)
        requires
            old(self).wf(),
        ensures
            final(self).wf(),
            final(self)@ == after_join(old(self)@, id.0, new_room@),
            is_join(posts(r@), old(self)@, id.0, new_room@),
    {
        let ghost h = self@;
        let ghost room = new_room@;
        if let Err(e) = validate_room(new_room.as_str()) {
            return self.send_to(id, ServerMessage::Error { text: e.to_owned() });
        }
        let nothing: Vec<Delivery> = Vec::new();
        assert(posts(nothing@) =~= Seq::<Post>::empty());
        let (old_room, username) = match self.clients.get(&id.0) {
            Some(c) => (c.room.clone(), c.username.clone()),
            None => {
                return nothing;
            },
        };
        if str_eq(old_room.as_str(), new_room.as_str()) {
            return nothing;
        }
        assert(can_move(h, id.0, room));
        let ghost was = *self;
        if let Some(c) = self.clients.remove(&id.0) {
            assert(was.clients@.contains_key(id.0) && c == was.clients@[id.0]);
            let mut c = c;
            c.room = new_room.clone();
            assert(c@ == (Member { room, ..h.clients[id.0] }));
            let none_there = self.clients.insert(id.0, c);
        }
        vacate(&mut self.rooms, old_room.as_str(), id.0);
        enter(&mut self.rooms, new_room.as_str(), id.0);
        proof {
            let g = moved(h, id.0, room);
            assert(self@.clients =~= g.clients);
            assert(self@ =~= g);
            law_move_keeps_order(h, id.0, room);
        }
        let left = self.broadcast_room(
            old_room.as_str(),
            ServerMessage::UserLeft { username: username.clone(), room: old_room.clone() },
            Some(id),
        );
        let joined = self.send_to(id, ServerMessage::Joined { room: new_room.clone() });
        let come = self.broadcast_room(
            new_room.as_str(),
            ServerMessage::UserJoined { username, room: new_room.clone() },
            Some(id),
        );
        let ghost l = posts(left@);
        let ghost j = posts(joined@);
        let ghost k = posts(come@);
        let r = chain(chain(left, joined), come);
        proof {
            let notice = Post { to: id.0, msg: ServerMsg::Joined { room } };
            assert(j == seq![notice]);
            assert(posts(r@) =~= l.push(notice) + k);
            assert(are_move_posts(posts(r@), l, k, h, id.0, room));
        }
        r
    }

    /// Client `id` asks who is in its room.
    pub fn handle_list_users(&self, id: ClientId) -> (r: Vec<Delivery>)
        requires
            self.wf(),
        ensures
            is_user_list(posts(r@), self@, id.0),
    {
        let c = match self.clients.get(&id.0) {
            Some(c) => c,
            None => {
                let nothing: Vec<Delivery> = Vec::new();
                assert(posts(nothing@) =~= Seq::<Post>::empty());
                return nothing;
            },
        };
        let ghost room = c.room@;
        let ids: Vec<u64> = match self.rooms.get(c.room.as_str()) {
            Some(members) => list_ids(members),
            None => Vec::new(),
        };
        proof {
            assert(self@.clients[id.0] == c@);
            assert forall|k: u64| is_in(self@.rooms, room, k) <==> ids@.contains(k) by {
                if self.rooms@.contains_key(room) {
                    assert(ids@.to_set().contains(k) <==> self@.rooms[room].contains(k));
                }
            }
        }
        let mut users: Vec<String> = Vec::new();
        let mut i: usize = 0;
        while i < ids.len()
            invariant
                self.wf(),
                i <= ids.len(),
                ids@.no_duplicates(),
                forall|k: u64| #[trigger] is_in(self@.rooms, room, k) <==> ids@.contains(k),
                texts(users@) == names_of(self@, ids@.take(i as int)),
            decreases ids.len() - i,
        {
            let ghost so_far = texts(users@);
            let mid = ids[i];
            assert(ids@.contains(mid));
            assert(is_in(self@.rooms, room, mid));
            assert(self@.clients.contains_key(mid));
            if let Some(m) = self.clients.get(&mid) {
                assert(self@.clients[mid] == m@);
                users.push(m.username.clone());
                assert(texts(users@) =~= so_far.push(m.username@));
            }
            assert(ids@.take(i + 1) =~= ids@.take(i as int).push(mid));
            assert(texts(users@) =~= names_of(self@, ids@.take(i + 1)));
            i += 1;
        }
        proof {
            assert(ids@.take(i as int) =~= ids@);
            lemma_roster(self@, ids@, room);
        }
        let ghost names = texts(users@);
        let r = self.send_to(id, ServerMessage::UserList { users });
        assert(is_roster(names, self@, self@.clients[id.0].room));
        assert(posts(r@) == seq![Post { to: id.0, msg: ServerMsg::UserList { users: names } }]);
        r
    }

    /// Client `id` asks for the rooms.
    pub fn handle_list_rooms(&self, id: ClientId) -> (r: Vec<Delivery>)
        requires
            self.wf(),
        ensures
            is_room_list(posts(r@), self@, id.0),
    {
        let rooms = self.rooms.keys();
        let ghost names = texts(rooms@);
        proof {
            self.lemma_room_order();
        }
        let r = self.send_to(id, ServerMessage::RoomList { rooms });
        assert(is_sorted(names, self@.rooms.dom()));
        r
    }

    /// The rooms are held in ascending order.
    proof fn lemma_room_order(&self)
        requires
            self.wf(),
        ensures
            is_sorted(self.rooms.order(), self@.rooms.dom()),
    {
        self.rooms.lemma_keys();
        assert forall|k: Seq<char>| self.rooms.order().to_set().contains(k)
            <==> self@.rooms.dom().contains(k) by {
            assert(self.rooms@.contains_key(k) <==> self.rooms.order().contains(k));
        }
        assert(self.rooms.order().to_set() =~= self@.rooms.dom());
    }

    /// Client `id` sends `text` to the user called `to` at `ts`.
    pub fn handle_pm_at(&self, id: ClientId, to: String, text: String, ts: i64) -> (r: Vec<Delivery>)
        requires
            self.wf(),
        ensures
            posts(r@) == pm_posts(self@, id.0, to@, text@, ts),
    {
        let from = match self.clients.get(&id.0) {
            Some(c) => {
                assert(self@.clients[id.0] == c@);
                c.username.clone()
            },
            None => {
                let nothing: Vec<Delivery> = Vec::new();
                assert(posts(nothing@) =~= Seq::<Post>::empty());
                return nothing;
            },
        };
        match self.name_to_id.get(to.as_str()) {
            Some(tid) => {
                assert(self@.names.contains_key(to@) && self@.names[to@] == tid.0);
                assert(self@.clients.contains_key(tid.0));
                let blocked = match self.clients.get(&tid.0) {
                    Some(target) => {
                        assert(self@.clients[tid.0] == target@);
                        target.blocked.contains_key(from.as_str())
                    },
                    None => false,
                };
                if blocked {
                    let text = "you are blocked by ".to_owned().concat(to.as_str());
                    self.send_to(id, ServerMessage::Error { text })
                } else {
                    self.send_to(*tid, ServerMessage::Pm { from, text, ts })
                }
            },
            None => {
                assert(!self@.names.contains_key(to@));
                let text = "user '".to_owned().concat(to.as_str()).concat("' not found");
                self.send_to(id, ServerMessage::Error { text })
            },
        }
    }

    /// Client `id` sends `text` to the user called `to` now.
    pub fn handle_pm(&self, id: ClientId, to: String, text: String) -> (r: Vec<Delivery>)
        requires
            self.wf(),
        ensures
            exists|ts: i64| posts(r@) == #[trigger] pm_posts(self@, id.0, to@, text@, ts),
    {
        let ts = now_ts();
        self.handle_pm_at(id, to, text, ts)
    }

    /// Client `id` blocks or unblocks `target` at `ts`.
    pub fn handle_block_at(&mut self, id: ClientId, target: String, block: bool, ts: i64) -> (r: Vec<
        Delivery,
    >)
        requires
            old(self).wf(),
        ensures
            final(self).wf(),
            final(self)@ == with_block(old(self)@, id.0, target@, block),
            posts(r@) == block_posts(old(self)@, id.0, target@, block, ts),
    {
        let ghost h = self@;
        let ghost name = target@;
        let ghost was = *self;
        match self.clients.remove(&id.0) {
            Some(c) => {
                let mut c = c;
                let verb = if block {
                    "blocked"
                } else {
                    "unblocked"
                };
                let text = verb.to_owned().concat(" ").concat(target.as_str());
                assert(c == was.clients@[id.0]);
                let ghost blocked = c.blocked@.dom();
                if block {
                    c.blocked.insert(target, ());
                    assert(c.blocked@.dom() =~= blocked.insert(name));
                } else {
                    let gone = c.blocked.remove(target.as_str());
                    assert(c.blocked@.dom() =~= blocked.remove(name));
                }
                let none_there = self.clients.insert(id.0, c);
                proof {
                    let g = with_block(h, id.0, name, block);
                    assert(h.clients[id.0] == was.clients@[id.0]@);
                    assert(self@.clients =~= g.clients);
                    assert(self@ =~= g);
                    law_block_keeps_order(h, id.0, name, block);
                }
                self.send_to(id, ServerMessage::System { text, ts })
            },
            None => {
                assert(self@ =~= h);
                let nothing: Vec<Delivery> = Vec::new();
                assert(posts(nothing@) =~= Seq::<Post>::empty());
                nothing
            },
        }
    }

    /// Client `id` blocks or unblocks `target` now.
    pub fn handle_block(&mut self, id: ClientId, target: String, block: bool) -> (r: Vec<Delivery>)
        requires
            old(self).wf(),
        ensures
            final(self).wf(),
            final(self)@ == with_block(old(self)@, id.0, target@, block),
            exists|ts: i64|
                posts(r@) == #[trigger] block_posts(old(self)@, id.0, target@, block, ts),
    {
        let ts = now_ts();
        self.handle_block_at(id, target, block, ts)
    }
}

impl ServerState {
    /// What the dashboard shows of the state. In observe mode users and rooms
    /// are those last seen upstream.
    pub fn snapshot(&self) -> (r: Snapshot)
        requires
            self.wf(),
        ensures
            is_snapshot(r, self@),
    {
        let (rooms, users) = if self.observe_mode {
            (clone_room_pairs(&self.observed_rooms), clone_user_pairs(&self.observed_users))
        } else {
            (self.list_rooms(), self.list_users())
        };
        let mut log: Vec<LogLine> = Vec::new();
        let mut i: usize = 0;
        while i < self.log.len()
            invariant
                i <= self.log.len(),
                entries(log@) == entries(self.log@).take(i as int),
            decreases self.log.len() - i,
        {
            let ghost so_far = entries(log@);
            log.push(self.log[i].clone());
            assert(entries(log@) =~= so_far.push(entries(self.log@)[i as int]));
            i += 1;
            assert(entries(log@) =~= entries(self.log@).take(i as int));
        }
        assert(entries(self.log@).take(i as int) =~= entries(self.log@));
        Snapshot {
            log,
            rooms,
            users,
            total_messages: self.total_messages,
            total_connections: self.total_connections,
            uptime: self.uptime,
        }
    }

    /// Each client with its room.
    fn list_users(&self) -> (r: Vec<(String, String)>)
        requires
            self.wf(),
        ensures
            is_census(user_pairs(r@), self@),
    {
        let ids = list_keys(&self.clients);
        let mut out: Vec<(String, String)> = Vec::new();
        let mut i: usize = 0;
        assert(ids@.to_set() =~= self@.clients.dom());
        while i < ids.len()
            invariant
                self.wf(),
                i <= ids.len(),
                ids@.to_set() == self@.clients.dom(),
                user_pairs(out@) == ids@.take(i as int).map_values(
                    |id: u64| (self@.clients[id].username, self@.clients[id].room),
                ),
            decreases ids.len() - i,
        {
            let ghost so_far = user_pairs(out@);
            let id = ids[i];
            assert(ids@.contains(id));
            assert(ids@.to_set().contains(id));
            assert(self@.clients.contains_key(id));
            if let Some(c) = self.clients.get(&id) {
                assert(self@.clients[id] == c@);
                out.push((c.username.clone(), c.room.clone()));
                assert(user_pairs(out@) =~= so_far.push((c.username@, c.room@)));
            }
            assert(ids@.take(i + 1) =~= ids@.take(i as int).push(id));
            assert(user_pairs(out@) =~= ids@.take(i + 1).map_values(
                |id: u64| (self@.clients[id].username, self@.clients[id].room),
            ));
            i += 1;
        }
        assert(ids@.take(i as int) =~= ids@);
        assert(rising(ids@));
        out
    }

    /// Each room with the number of its members.
    fn list_rooms(&self) -> (r: Vec<(String, usize)>)
        requires
            self.wf(),
        ensures
            is_directory(room_pairs(r@), self@),
    {
        let mut out: Vec<(String, usize)> = Vec::new();
        let n = self.rooms.len();
        let mut i: usize = 0;
        proof {
            self.lemma_room_order();
        }
        while i < n
            invariant
                self.wf(),
                i <= n,
                n == self.rooms.order().len(),
                out@.len() == i,
                forall|k: int|
                    0 <= k < i ==> (#[trigger] room_pairs(out@)[k]).0 == self.rooms.order()[k]
                        && room_pairs(out@)[k].1 == self@.rooms[self.rooms.order()[k]].len(),
            decreases n - i,
        {
            let ghost so_far = room_pairs(out@);
            let name = self.rooms.key_at(i).to_owned();
            let size = self.rooms.value_at(i).len();
            let ghost pair = (name@, size);
            out.push((name, size));
            assert(room_pairs(out@) =~= so_far.push(pair));
            i += 1;
        }
        assert(room_pairs(out@).map_values(|r: (Seq<char>, usize)| r.0) =~= self.rooms.order());
        out
    }
}

/// A notice of the server to everyone in the default room.
pub open spec fn server_notice(text: Seq<char>, ts: i64) -> ServerMsg {
    ServerMsg::System { text: "[SERVER] "@ + text, ts }
}

/// Whether the deliveries are those of a server notice `text` at `ts` to everyone
/// in the default room.
pub open spec fn is_server_notice(list: Seq<Post>, h: Hub, text: Seq<char>, ts: i64) -> bool {
    is_broadcast(list, h, DEFAULT_ROOM@, server_notice(text, ts), None)
}

/// The names of some clients.
pub open spec fn names_of(h: Hub, ids: Seq<u64>) -> Seq<Seq<char>> {
    ids.map_values(|id: u64| h.clients[id].username)
}

/// The names of a room's members are its roster.
proof fn lemma_roster(h: Hub, ids: Seq<u64>, room: Seq<char>)
    requires
        hub_wf(h),
        ids.no_duplicates(),
        forall|k: u64| #[trigger] is_in(h.rooms, room, k) <==> ids.contains(k),
    ensures
        is_roster(names_of(h, ids), h, room),
{
    let names = names_of(h, ids);
    assert forall|i: int, j: int| 0 <= i < names.len() && 0 <= j < names.len() && i != j implies
        names[i] != names[j] by {
        assert(ids.contains(ids[i]) && ids.contains(ids[j]));
        assert(is_in(h.rooms, room, ids[i]) && is_in(h.rooms, room, ids[j]));
        if names[i] == names[j] {
            law_names_are_unique(h, ids[i], ids[j]);
        }
    }
    assert forall|n: Seq<char>| #[trigger] names.contains(n) <==> exists|id: u64|
        #![trigger h.clients[id]]
        is_in(h.rooms, room, id) && h.clients[id].username == n by {
        if names.contains(n) {
            let i = names.index_of(n);
            assert(ids.contains(ids[i]));
            assert(is_in(h.rooms, room, ids[i]));
            assert(h.clients[ids[i]].username == n);
        }
        if exists|id: u64|
            #![trigger h.clients[id]]
            is_in(h.rooms, room, id) && h.clients[id].username == n {
            let id = choose|id: u64|
                #![trigger h.clients[id]]
                is_in(h.rooms, room, id) && h.clients[id].username == n;
            let i = ids.index_of(id);
            assert(names[i] == n);
        }
    }
}

} // verus!
