//! A client's session on the server: the name it comes with, what it is told,
//! its requests, and its end.

use vstd::prelude::*;
use vstd::utf8::{encode_utf8, is_char_boundary};

use crate::admin::Muted;
use crate::format::{decimal, format_decimal};
use crate::hub::{
    after_join, are_move_posts, block_posts, can_move, hub_wf, is_broadcast, is_join, is_room_list,
    is_say, is_user_list, law_block_keeps_order, law_move_keeps_order,
    law_unregister_undoes_register, logged, pm_posts, posted, registered, unregistered, with_block,
    Hub, Post,
};
use crate::input::text_before_byte;
use crate::protocol::{
    now_ts, room_fault, username_fault, validate_username, ClientMessage, ClientMsg, ServerMessage,
    ServerMsg, DEFAULT_ROOM, MAX_MESSAGE_BYTES,
};
use crate::state::{chain, posts, ClientId, Delivery, ServerState};
use crate::text::{
    decode_lossy, pieces, slices, split, stripped_end, text_of, trim, trim_end_matches, trimmed,
};
use crate::wire::{client_request, parse_client};

verus! {

// ---------------------------------------------------------------------------
// The name
// ---------------------------------------------------------------------------

/// The longest name in bytes.
pub const MAX_NAME_BYTES: usize = 63;

/// `s` without the line ends at its end.
pub open spec fn without_line_ends(s: Seq<char>) -> Seq<char>
    decreases s.len(),
{
    if s.len() > 0 && (s.last() == '\n' || s.last() == '\r') {
        without_line_ends(s.drop_last())
    } else {
        s
    }
}

/// The name that a client gives with `text`: line ends at its end are dropped,
/// and a client without a name is anonymous.
pub open spec fn given_name(text: Seq<char>) -> Seq<char> {
    let t = without_line_ends(text);
    if t.len() == 0 {
        "Anonymous"@
    } else {
        t
    }
}

/// Whether a name can be cut to the longest length.
pub open spec fn can_cut(name: Seq<char>) -> bool {
    encode_utf8(name).len() > MAX_NAME_BYTES ==> is_char_boundary(
        encode_utf8(name),
        MAX_NAME_BYTES as int,
    )
}

/// A name cut to the longest length.
pub open spec fn cut_name(name: Seq<char>) -> Seq<char> {
    if encode_utf8(name).len() > MAX_NAME_BYTES {
        text_before_byte(name, MAX_NAME_BYTES as int)
    } else {
        name
    }
}

/// The name that a client goes by who gives `text`, or nothing where the cut
/// would go through a character.
pub fn session_name(text: &str) -> (r: Option<String>)
    ensures
        match r {
            Some(n) => can_cut(given_name(text@)) && n@ == cut_name(given_name(text@)),
            None => !can_cut(given_name(text@)),
        },
{
    let mut t = text.to_owned();
    let mut n = t.as_str().unicode_len();
    while n > 0 && ends_line(t.as_str())
        invariant
            n == t@.len(),
            without_line_ends(t@) == without_line_ends(text@),
        decreases n,
    {
        n = n - 1;
        t = t.as_str().substring_char(0, n).to_owned();
    }
    if n == 0 {
        t = "Anonymous".to_owned();
    }
    if t.as_str().as_bytes().len() > MAX_NAME_BYTES {
        if !t.as_str().is_char_boundary(MAX_NAME_BYTES) {
            return None;
        }
        let (kept, dropped) = t.as_str().split_at(MAX_NAME_BYTES);
        proof {
            vstd::utf8::encode_utf8_decode_utf8(kept@);
        }
        return Some(kept.to_owned());
    }
    Some(t)
}

/// Whether the last character is a line end.
fn ends_line(s: &str) -> (r: bool)
    requires
        0 < s@.len() <= usize::MAX,
    ensures
        r == (s@.last() == '\n' || s@.last() == '\r'),
{
    let c = s.get_char(s.unicode_len() - 1);
    c == '\n' || c == '\r'
}

/// The name that a client goes by whose first frame holds `payload`, or nothing
/// where the cut would go through a character.
pub fn name_from_payload(payload: &[u8]) -> (r: Option<String>)
    ensures
        match r {
            Some(n) => can_cut(given_name(text_of(payload@))) && n@ == cut_name(
                given_name(text_of(payload@)),
            ),
            None => !can_cut(given_name(text_of(payload@))),
        },
{
    let text = decode_lossy(payload);
    session_name(text.as_str())
}

// ---------------------------------------------------------------------------
// Admission
// ---------------------------------------------------------------------------

/// Whether a client was let in: with its number and what is delivered, or not,
/// with the reply and the reason.
#[derive(Debug)]
pub enum Admission {
    Admitted { id: ClientId, deliveries: Vec<Delivery> },
    Refused { reply: ServerMessage, reason: String },
}

/// Why a client called `name` is not let in, if it is not: the fault that it is
/// told, and the reason for the log.
pub open spec fn refusal(h: Hub, name: Seq<char>) -> Option<(Seq<char>, Seq<char>)> {
    match username_fault(name) {
        Some(e) => Some((e, "bad username: "@ + e)),
        None => if h.names.contains_key(name) {
            Some(("username already in use"@, "register failed: "@ + "username already in use"@))
        } else {
            None
        },
    }
}

/// The log line of a client that has come.
pub open spec fn arrival_line(name: Seq<char>, id: u64, peer: Seq<char>) -> Seq<char> {
    "+ "@ + name + " ("@ + decimal(id as nat) + ") joined from "@ + peer
}

/// The state after a client called `name` was let in at `ts`.
pub open spec fn let_in(h: Hub, name: Seq<char>, peer: Seq<char>, ts: i64) -> Hub {
    logged(registered(h, name), arrival_line(name, h.next_id, peer), ts)
}

/// What a client is told first.
pub open spec fn welcome(name: Seq<char>) -> ServerMsg {
    ServerMsg::Welcome {
        username: name,
        room: DEFAULT_ROOM@,
        motd: "Welcome to Vectorcom. Type /help for commands."@,
    }
}

/// Whether the deliveries are the welcome of client `id`, then the notice of its
/// coming to everyone else in the default room.
pub open spec fn is_welcome(list: Seq<Post>, h: Hub, id: u64, name: Seq<char>) -> bool {
    &&& list.len() > 0
    &&& list[0] == (Post { to: id, msg: welcome(name) })
    &&& is_broadcast(
        list.drop_first(),
        h,
        DEFAULT_ROOM@,
        ServerMsg::UserJoined { username: name, room: DEFAULT_ROOM@ },
        Some(id),
    )
}

/// Lets in a client called `username` from `peer` at `ts`, or refuses it.
pub fn welcome_client_at(state: &mut ServerState, username: &str, peer: &str, ts: i64) -> (r: Admission)
    requires
        old(state).wf(),
        refusal(old(state)@, username@) is None ==> old(state)@.total_connections < u64::MAX,
    ensures
        final(state).wf(),
        match r {
            Admission::Admitted { id, deliveries } => {
                &&& refusal(old(state)@, username@) is None
                &&& id.0 == old(state)@.next_id
                &&& final(state)@ == let_in(old(state)@, username@, peer@, ts)
                &&& is_welcome(posts(deliveries@), final(state)@, id.0, username@)
            },
            Admission::Refused { reply, reason } => {
                &&& refusal(old(state)@, username@) matches Some((fault, why))
                    && reply@ == (ServerMsg::Error { text: fault }) && reason@ == why
                &&& final(state)@ == old(state)@
            },
        },
{
    if let Err(e) = validate_username(username) {
        return Admission::Refused {
            reply: ServerMessage::Error { text: e.to_owned() },
            reason: "bad username: ".to_owned().concat(e),
        };
    }
    match state.register(username.to_owned()) {
        Ok(id) => {
            let line = "+ ".to_owned().concat(username).concat(" (").concat(
                format_decimal(id.0).as_str(),
            ).concat(") joined from ").concat(peer);
            state.log_at(line, ts);
            let hello = ServerMessage::Welcome {
                username: username.to_owned(),
                room: DEFAULT_ROOM.to_owned(),
                motd: "Welcome to Vectorcom. Type /help for commands.".to_owned(),
            };
            let first = state.send_to(id, hello);
            let notice = ServerMessage::UserJoined {
                username: username.to_owned(),
                room: DEFAULT_ROOM.to_owned(),
            };
            let others = state.broadcast_room(DEFAULT_ROOM, notice, Some(id));
            let ghost a = posts(first@);
            let ghost b = posts(others@);
            let deliveries = chain(first, others);
            proof {
                assert(state@.clients.contains_key(id.0));
                assert((a + b).drop_first() =~= b);
            }
            Admission::Admitted { id, deliveries }
        },
        Err(e) => Admission::Refused {
            reply: ServerMessage::Error { text: e.to_owned() },
            reason: "register failed: ".to_owned().concat(e),
        },
    }
}

/// Whether a client called `username` can be let in or is refused: the count of
/// connections has room for it where it is not refused.
pub fn can_welcome(state: &ServerState, username: &str) -> (r: bool)
    requires
        state.wf(),
    ensures
        r == (refusal(state@, username@) is None ==> state@.total_connections < u64::MAX),
{
    state.can_connect() || validate_username(username).is_err() || state.has_name(username)
}

/// Lets in a client called `username` from `peer`, or refuses it.
pub fn welcome_client(state: &mut ServerState, username: &str, peer: &str) -> (r: Admission)
    requires
        old(state).wf(),
        refusal(old(state)@, username@) is None ==> old(state)@.total_connections < u64::MAX,
    ensures
        final(state).wf(),
        match r {
            Admission::Admitted { id, deliveries } => {
                &&& refusal(old(state)@, username@) is None
                &&& id.0 == old(state)@.next_id
                &&& exists|ts: i64|
                    final(state)@ == #[trigger] let_in(old(state)@, username@, peer@, ts)
                &&& is_welcome(posts(deliveries@), final(state)@, id.0, username@)
            },
            Admission::Refused { reply, reason } => {
                &&& refusal(old(state)@, username@) matches Some((fault, why))
                    && reply@ == (ServerMsg::Error { text: fault }) && reason@ == why
                &&& final(state)@ == old(state)@
            },
        },
{
    let ts = now_ts();
    welcome_client_at(state, username, peer, ts)
}

// ---------------------------------------------------------------------------
// The end
// ---------------------------------------------------------------------------

/// The log line of a client that has gone.
pub open spec fn departure_line(name: Seq<char>, id: u64) -> Seq<char> {
    "- "@ + name + " ("@ + decimal(id as nat) + ") left"@
}

/// The state after client `id`, called `name`, has gone at `ts`.
pub open spec fn departed(h: Hub, id: u64, name: Seq<char>, ts: i64) -> Hub {
    logged(unregistered(h, id), departure_line(name, id), ts)
}

/// What is delivered when client `id` goes.
pub open spec fn is_farewell(list: Seq<Post>, h: Hub, id: u64) -> bool {
    if h.clients.contains_key(id) {
        let c = h.clients[id];
        is_broadcast(
            list,
            unregistered(h, id),
            c.room,
            ServerMsg::UserLeft { username: c.username, room: c.room },
            Some(id),
        )
    } else {
        list == Seq::<Post>::empty()
    }
}

/// Ends the session of client `id`, called `username`, at `ts`.
pub fn depart_at(state: &mut ServerState, id: ClientId, username: &str, ts: i64) -> (r: Vec<
    Delivery,
>)
    requires
        old(state).wf(),
    ensures
        final(state).wf(),
        final(state)@ == departed(old(state)@, id.0, username@, ts),
        is_farewell(posts(r@), old(state)@, id.0),
{
    let r = state.unregister(id);
    let line = "- ".to_owned().concat(username).concat(" (").concat(
        format_decimal(id.0).as_str(),
    ).concat(") left");
    state.log_at(line, ts);
    r
}

/// Ends the session of client `id`, called `username`.
pub fn depart(state: &mut ServerState, id: ClientId, username: &str) -> (r: Vec<Delivery>)
    requires
        old(state).wf(),
    ensures
        final(state).wf(),
        exists|ts: i64| final(state)@ == #[trigger] departed(old(state)@, id.0, username@, ts),
        is_farewell(posts(r@), old(state)@, id.0),
{
    let ts = now_ts();
    depart_at(state, id, username, ts)
}

/// A session that comes and goes leaves clients, names and rooms as they were.
pub proof fn law_session_leaves_no_trace(h: Hub, name: Seq<char>, peer: Seq<char>, ts: i64, end: i64)
    requires
        hub_wf(h),
        refusal(h, name) is None,
        h.total_connections < u64::MAX,
    ensures
        ({
            let after = departed(let_in(h, name, peer, ts), h.next_id, name, end);
            &&& after.clients == h.clients
            &&& after.names == h.names
            &&& after.rooms == h.rooms
        }),
{
    law_unregister_undoes_register(h, name);
}

// ---------------------------------------------------------------------------
// Requests
// ---------------------------------------------------------------------------

/// The state with one more message counted.
pub open spec fn counted(h: Hub) -> Hub {
    Hub { total_messages: (h.total_messages + 1) as u64, ..h }
}

/// The state after client `id` made the request `m`.
pub open spec fn after_request(h: Hub, id: u64, m: ClientMsg) -> Hub {
    match m {
        ClientMsg::Join { room } => after_join(h, id, room),
        ClientMsg::Block { username } => with_block(h, id, username, true),
        ClientMsg::Unblock { username } => with_block(h, id, username, false),
        _ => h,
    }
}

/// Whether the deliveries answer the request `m` that client `id` made at `ts`.
pub open spec fn is_answer(list: Seq<Post>, h: Hub, id: u64, m: ClientMsg, ts: i64) -> bool {
    match m {
        ClientMsg::Hello { username, version } => list == Seq::<Post>::empty(),
        ClientMsg::Say { text } => is_say(list, h, id, text, ts),
        ClientMsg::Join { room } => is_join(list, h, id, room),
        ClientMsg::ListUsers => is_user_list(list, h, id),
        ClientMsg::ListRooms => is_room_list(list, h, id),
        ClientMsg::Pm { to, text } => list == pm_posts(h, id, to, text, ts),
        ClientMsg::Block { username } => list == block_posts(h, id, username, true, ts),
        ClientMsg::Unblock { username } => list == block_posts(h, id, username, false, ts),
        ClientMsg::Quit => list == Seq::<Post>::empty(),
    }
}

/// Carries out the request `m` that client `id` made at `ts`.
pub fn handle_request_at(state: &mut ServerState, id: ClientId, m: ClientMessage, ts: i64) -> (r:
    Vec<Delivery>)
    requires
        old(state).wf(),
    ensures
        final(state).wf(),
        final(state)@ == after_request(old(state)@, id.0, m@),
        is_answer(posts(r@), old(state)@, id.0, m@, ts),
{
    match m {
        ClientMessage::Say { text } => state.handle_say_at(id, text, ts),
        ClientMessage::Join { room } => state.handle_join(id, room),
        ClientMessage::ListUsers => state.handle_list_users(id),
        ClientMessage::ListRooms => state.handle_list_rooms(id),
        ClientMessage::Pm { to, text } => state.handle_pm_at(id, to, text, ts),
        ClientMessage::Block { username } => state.handle_block_at(id, username, true, ts),
        ClientMessage::Unblock { username } => state.handle_block_at(id, username, false, ts),
        ClientMessage::Hello { username, version } => {
            let nothing: Vec<Delivery> = Vec::new();
            assert(posts(nothing@) =~= Seq::<Post>::empty());
            nothing
        },
        ClientMessage::Quit => {
            let nothing: Vec<Delivery> = Vec::new();
            assert(posts(nothing@) =~= Seq::<Post>::empty());
            nothing
        },
    }
}

/// The line in a raw one: without carriage returns at its end and without space
/// around it.
pub open spec fn request_text(raw: Seq<char>) -> Seq<char> {
    trimmed(stripped_end(raw, '\r'))
}

/// The requests on some raw lines, up to the one that ends the session. Lines
/// that hold nothing are passed over.
pub open spec fn requests(raws: Seq<Seq<char>>) -> Seq<ClientMsg>
    decreases raws.len(),
{
    if raws.len() == 0 {
        Seq::empty()
    } else {
        let line = request_text(raws.first());
        if line.len() == 0 {
            requests(raws.drop_first())
        } else if client_request(line) is Quit {
            seq![ClientMsg::Quit]
        } else {
            seq![client_request(line)] + requests(raws.drop_first())
        }
    }
}

/// The requests in a text, up to the one that ends the session.
pub open spec fn text_requests(text: Seq<char>) -> Seq<ClientMsg> {
    requests(pieces(text, '\n'))
}

/// The state after client `id` made some requests, each of which was counted.
pub open spec fn after_requests(h: Hub, id: u64, ms: Seq<ClientMsg>) -> Hub
    decreases ms.len(),
{
    if ms.len() == 0 {
        h
    } else {
        after_request(counted(after_requests(h, id, ms.drop_last())), id, ms.last())
    }
}

/// Whether the deliveries are the answers to some requests of client `id`, one
/// after the other: `cuts` says where each answer ends.
pub open spec fn are_answers(
    list: Seq<Post>,
    cuts: Seq<int>,
    h: Hub,
    id: u64,
    ms: Seq<ClientMsg>,
    ts: i64,
) -> bool {
    &&& cuts.len() == ms.len() + 1
    &&& cuts[0] == 0
    &&& cuts[ms.len() as int] == list.len()
    &&& forall|k: int|
        #![trigger ms[k]]
        0 <= k < ms.len() ==> 0 <= cuts[k] <= cuts[k + 1] <= list.len() && is_answer(
            list.subrange(cuts[k], cuts[k + 1]),
            counted(after_requests(h, id, ms.take(k))),
            id,
            ms[k],
            ts,
        )
}

/// Whether the deliveries are the answers to some requests of client `id`, one
/// after the other.
pub open spec fn are_all_answers(
    list: Seq<Post>,
    h: Hub,
    id: u64,
    ms: Seq<ClientMsg>,
    ts: i64,
) -> bool {
    exists|cuts: Seq<int>| #[trigger] are_answers(list, cuts, h, id, ms, ts)
}

/// The models of a list of requests.
pub open spec fn client_msgs(list: Seq<ClientMessage>) -> Seq<ClientMsg> {
    list.map_values(|m: ClientMessage| m@)
}

/// The requests in a text, up to the one that ends the session.
pub fn read_requests(text: &str) -> (r: Vec<ClientMessage>)
    ensures
        client_msgs(r@) == text_requests(text@),
{
    let raws = split(text, '\n');
    let ghost lines = slices(raws@);
    let mut out: Vec<ClientMessage> = Vec::new();
    let mut i: usize = 0;
    proof {
        assert(client_msgs(out@) =~= Seq::<ClientMsg>::empty());
        assert(lines.skip(0) =~= lines);
        assert(Seq::<ClientMsg>::empty() + requests(lines) =~= requests(lines));
    }
    while i < raws.len()
        invariant
            i <= raws.len(),
            lines == slices(raws@),
            requests(lines) == client_msgs(out@) + requests(lines.skip(i as int)),
            requests(lines) == text_requests(text@),
        decreases raws.len() - i,
    {
        let line = trim(trim_end_matches(raws[i], '\r'));
        let ghost so_far = client_msgs(out@);
        proof {
            assert(lines.skip(i as int).first() == raws@[i as int]@);
            assert(lines.skip(i as int).drop_first() =~= lines.skip(i + 1));
        }
        if !line.is_empty() {
            let m = parse_client(line);
            let last = match &m {
                ClientMessage::Quit => true,
                _ => false,
            };
            let ghost msg = m@;
            out.push(m);
            proof {
                assert(client_msgs(out@) =~= so_far.push(msg));
                assert(so_far + seq![msg] =~= so_far.push(msg));
                if !last {
                    assert(so_far + (seq![msg] + requests(lines.skip(i + 1))) =~= so_far.push(msg)
                        + requests(lines.skip(i + 1)));
                }
            }
            if last {
                return out;
            }
        }
        i += 1;
    }
    proof {
        assert(client_msgs(out@) + Seq::<ClientMsg>::empty() =~= client_msgs(out@));
    }
    out
}

/// Requests change the count of messages by their number.
pub proof fn lemma_requests_counted(h: Hub, id: u64, ms: Seq<ClientMsg>)
    requires
        h.total_messages + ms.len() <= u64::MAX,
    ensures
        after_requests(h, id, ms).total_messages == h.total_messages + ms.len(),
    decreases ms.len(),
{
    if ms.len() > 0 {
        lemma_requests_counted(h, id, ms.drop_last());
    }
}

/// Whatever a client asks for, the state stays in order.
pub proof fn law_requests_keep_order(h: Hub, id: u64, ms: Seq<ClientMsg>)
    requires
        hub_wf(h),
    ensures
        hub_wf(after_requests(h, id, ms)),
    decreases ms.len(),
{
    if ms.len() > 0 {
        law_requests_keep_order(h, id, ms.drop_last());
        let g = counted(after_requests(h, id, ms.drop_last()));
        assert(hub_wf(g));
        match ms.last() {
            ClientMsg::Join { room } => {
                if can_move(g, id, room) {
                    law_move_keeps_order(g, id, room);
                }
            },
            ClientMsg::Block { username } => {
                law_block_keeps_order(g, id, username, true);
            },
            ClientMsg::Unblock { username } => {
                law_block_keeps_order(g, id, username, false);
            },
            _ => {},
        }
    }
}

/// One more answer.
proof fn lemma_answers_push(
    list: Seq<Post>,
    cuts: Seq<int>,
    h: Hub,
    id: u64,
    ms: Seq<ClientMsg>,
    ts: i64,
    more: Seq<Post>,
    m: ClientMsg,
)
    requires
        are_answers(list, cuts, h, id, ms, ts),
        is_answer(more, counted(after_requests(h, id, ms)), id, m, ts),
    ensures
        are_answers(list + more, cuts.push((list + more).len() as int), h, id, ms.push(m), ts),
{
    let list2 = list + more;
    let cuts2 = cuts.push(list2.len() as int);
    let ms2 = ms.push(m);
    assert forall|k: int|
        #![trigger ms2[k]]
        0 <= k < ms2.len() implies 0 <= cuts2[k] <= cuts2[k + 1] <= list2.len() && is_answer(
        list2.subrange(cuts2[k], cuts2[k + 1]),
        counted(after_requests(h, id, ms2.take(k))),
        id,
        ms2[k],
        ts,
    ) by {
        assert(ms2.take(k) =~= ms.take(k));
        if k < ms.len() {
            assert(ms[k] == ms2[k]);
            assert(list2.subrange(cuts[k], cuts[k + 1]) =~= list.subrange(cuts[k], cuts[k + 1]));
        } else {
            assert(ms.take(k) =~= ms);
            assert(list2.subrange(list.len() as int, list2.len() as int) =~= more);
        }
    }
}

/// What came of some requests: what is delivered, and whether the session ends.
#[derive(Debug)]
pub struct Served {
    pub deliveries: Vec<Delivery>,
    pub quit: bool,
}

/// Whether the last of some requests ends the session.
pub open spec fn ends_session(ms: Seq<ClientMsg>) -> bool {
    ms.len() > 0 && ms.last() is Quit
}

/// Carries out the requests that client `id` made at `ts`, and counts them.
pub fn handle_requests_at(
    state: &mut ServerState,
    id: ClientId,
    ms: &Vec<ClientMessage>,
    ts: i64,
) -> (r: Served)
    requires
        old(state).wf(),
        old(state)@.total_messages + ms@.len() <= u64::MAX,
    ensures
        final(state).wf(),
        final(state)@ == after_requests(old(state)@, id.0, client_msgs(ms@)),
        are_all_answers(posts(r.deliveries@), old(state)@, id.0, client_msgs(ms@), ts),
        r.quit == ends_session(client_msgs(ms@)),
{
    let ghost h = state@;
    let ghost all = client_msgs(ms@);
    let mut out: Vec<Delivery> = Vec::new();
    let mut quit = false;
    let mut i: usize = 0;
    let ghost mut cuts: Seq<int> = seq![0];
    assert(posts(out@) =~= Seq::<Post>::empty());
    while i < ms.len()
        invariant
            state.wf(),
            i <= ms.len(),
            all == client_msgs(ms@),
            h.total_messages + ms.len() <= u64::MAX,
            state@ == after_requests(h, id.0, all.take(i as int)),
            are_answers(posts(out@), cuts, h, id.0, all.take(i as int), ts),
            quit == ends_session(all.take(i as int)),
        decreases ms.len() - i,
    {
        let m = ms[i].clone();
        let ghost done = all.take(i as int);
        let ghost msg = all[i as int];
        proof {
            lemma_requests_counted(h, id.0, done);
        }
        state.bump_msg_count();
        quit = match &m {
            ClientMessage::Quit => true,
            _ => false,
        };
        let more = handle_request_at(state, id, m, ts);
        proof {
            lemma_answers_push(posts(out@), cuts, h, id.0, done, ts, posts(more@), msg);
            cuts = cuts.push((posts(out@) + posts(more@)).len() as int);
            assert(all.take(i + 1) =~= done.push(msg));
            assert(done.push(msg).drop_last() =~= done);
        }
        out = chain(out, more);
        i += 1;
    }
    assert(all.take(i as int) =~= all);
    let r = Served { deliveries: out, quit };
    assert(are_answers(posts(r.deliveries@), cuts, h, id.0, client_msgs(ms@), ts));
    r
}

/// What client `id` is told of a message that is too long.
pub open spec fn too_large() -> ServerMsg {
    ServerMsg::Error { text: "message too large"@ }
}

// ---------------------------------------------------------------------------
// What a client sends
// ---------------------------------------------------------------------------

/// Whether a request sends a message to others.
pub open spec fn is_speech(m: ClientMsg) -> bool {
    m is Say || m is Pm
}

/// The requests that a muted user can make: all that send no message.
pub open spec fn permitted(ms: Seq<ClientMsg>) -> Seq<ClientMsg> {
    ms.filter(|m: ClientMsg| !is_speech(m))
}

/// The requests that a muted user can make.
pub fn permit(ms: &Vec<ClientMessage>) -> (r: Vec<ClientMessage>)
    ensures
        client_msgs(r@) == permitted(client_msgs(ms@)),
{
    let ghost all = client_msgs(ms@);
    let ghost silent = |m: ClientMsg| !is_speech(m);
    let mut out: Vec<ClientMessage> = Vec::new();
    let mut i: usize = 0;
    reveal(Seq::filter);
    assert(client_msgs(out@) =~= all.take(0).filter(silent));
    while i < ms.len()
        invariant
            i <= ms@.len(),
            all == client_msgs(ms@),
            silent == (|m: ClientMsg| !is_speech(m)),
            client_msgs(out@) == all.take(i as int).filter(silent),
        decreases ms.len() - i,
    {
        reveal(Seq::filter);
        let ghost so_far = client_msgs(out@);
        assert(all.take(i + 1).drop_last() =~= all.take(i as int));
        let speech = match &ms[i] {
            ClientMessage::Say { text } => true,
            ClientMessage::Pm { to, text } => true,
            _ => false,
        };
        if !speech {
            out.push(ms[i].clone());
            assert(client_msgs(out@) =~= so_far.push(all[i as int]));
        }
        i += 1;
    }
    assert(all.take(i as int) =~= all);
    out
}

/// The requests of a client that are carried out, muted or not.
pub open spec fn heeded(ms: Seq<ClientMsg>, muted: bool) -> Seq<ClientMsg> {
    if muted {
        permitted(ms)
    } else {
        ms
    }
}

/// The requests in a frame, up to the one that ends the session.
pub open spec fn payload_requests(payload: Seq<u8>) -> Seq<ClientMsg> {
    text_requests(text_of(payload))
}

/// The requests in a frame of the user called `name` that are carried out, where
/// the users in `muted` are muted.
pub open spec fn carried_out(
    payload: Seq<u8>,
    muted: Set<Seq<char>>,
    name: Seq<char>,
) -> Seq<ClientMsg> {
    heeded(payload_requests(payload), muted.contains(name))
}

/// Whether `r` and the state `g` are what comes of the frame `payload` that client
/// `id` sent at `ts` in the state `h`, where the requests in it that are carried
/// out are `ms`. A frame that is too long is refused; where the count of messages
/// would go out of range, nothing is done.
pub open spec fn is_payload_outcome(
    r: Option<Served>,
    h: Hub,
    g: Hub,
    id: u64,
    payload: Seq<u8>,
    ms: Seq<ClientMsg>,
    ts: i64,
) -> bool {
    match r {
        Some(served) => if payload.len() > MAX_MESSAGE_BYTES {
            &&& g == h
            &&& posts(served.deliveries@) == posted(h, id, too_large())
            &&& !served.quit
        } else {
            &&& h.total_messages + ms.len() <= u64::MAX
            &&& g == after_requests(h, id, ms)
            &&& are_all_answers(posts(served.deliveries@), h, id, ms, ts)
            &&& served.quit == ends_session(ms)
        },
        None => {
            &&& payload.len() <= MAX_MESSAGE_BYTES
            &&& h.total_messages + ms.len() > u64::MAX
            &&& g == h
        },
    }
}

/// Takes in what client `id`, muted or not, sent at `ts`.
fn take_in_at(state: &mut ServerState, id: ClientId, payload: &[u8], muted: bool, ts: i64) -> (r:
    Option<Served>)
    requires
        old(state).wf(),
    ensures
        final(state).wf(),
        is_payload_outcome(
            r,
            old(state)@,
            final(state)@,
            id.0,
            payload@,
            heeded(text_requests(text_of(payload@)), muted),
            ts,
        ),
{
    if payload.len() > MAX_MESSAGE_BYTES {
        let text = "message too large".to_owned();
        let deliveries = state.send_to(id, ServerMessage::Error { text });
        return Some(Served { deliveries, quit: false });
    }
    let text = decode_lossy(payload);
    assert(text@ == text_of(payload@));
    let all = read_requests(text.as_str());
    let ms = if muted {
        permit(&all)
    } else {
        all
    };
    assert(client_msgs(ms@) == heeded(text_requests(text_of(payload@)), muted));
    if !state.can_count(ms.len()) {
        return None;
    }
    let ghost h = state@;
    let served = handle_requests_at(state, id, &ms, ts);
    let r = Some(served);
    assert(is_payload_outcome(r, h, state@, id.0, payload@, client_msgs(ms@), ts));
    r
}

/// Takes in what client `id` sent at `ts`: a frame that is too long is refused,
/// and the requests in any other are carried out. Gives nothing, and does
/// nothing, where the count of messages would go out of range.
pub fn handle_payload_at(state: &mut ServerState, id: ClientId, payload: &[u8], ts: i64) -> (r:
    Option<Served>)
    requires
        old(state).wf(),
    ensures
        final(state).wf(),
        is_payload_outcome(
            r,
            old(state)@,
            final(state)@,
            id.0,
            payload@,
            payload_requests(payload@),
            ts,
        ),
{
    take_in_at(state, id, payload, false, ts)
}

/// Takes in what client `id` sent.
pub fn handle_payload(state: &mut ServerState, id: ClientId, payload: &[u8]) -> (r: Option<Served>)
    requires
        old(state).wf(),
    ensures
        final(state).wf(),
        exists|ts: i64| #[trigger]
            is_payload_outcome(
                r,
                old(state)@,
                final(state)@,
                id.0,
                payload@,
                payload_requests(payload@),
                ts,
            ),
{
    let ts = now_ts();
    handle_payload_at(state, id, payload, ts)
}

/// Takes in what client `id`, called `username`, sent at `ts`. Of a muted user the
/// messages in it are passed over.
pub fn handle_payload_from_at(
    state: &mut ServerState,
    muted: &Muted,
    id: ClientId,
    username: &str,
    payload: &[u8],
    ts: i64,
) -> (r: Option<Served>)
    requires
        old(state).wf(),
        muted.wf(),
    ensures
        final(state).wf(),
        is_payload_outcome(
            r,
            old(state)@,
            final(state)@,
            id.0,
            payload@,
            carried_out(payload@, muted@, username@),
            ts,
        ),
{
    take_in_at(state, id, payload, muted.contains(username), ts)
}

/// Takes in what client `id`, called `username`, sent.
pub fn handle_payload_from(
    state: &mut ServerState,
    muted: &Muted,
    id: ClientId,
    username: &str,
    payload: &[u8],
) -> (r: Option<Served>)
    requires
        old(state).wf(),
        muted.wf(),
    ensures
        final(state).wf(),
        exists|ts: i64| #[trigger]
            is_payload_outcome(
                r,
                old(state)@,
                final(state)@,
                id.0,
                payload@,
                carried_out(payload@, muted@, username@),
                ts,
            ),
{
    let ts = now_ts();
    handle_payload_from_at(state, muted, id, username, payload, ts)
}

/// A delivery among some answers is among one of them.
proof fn lemma_which_answer(cuts: Seq<int>, n: int, i: int) -> (k: int)
    requires
        n >= 0,
        cuts.len() == n + 1,
        cuts[0] <= i < cuts[n],
    ensures
        0 <= k < n,
        cuts[k] <= i < cuts[k + 1],
    decreases n,
{
    if i >= cuts[n - 1] {
        n - 1
    } else {
        lemma_which_answer(cuts.drop_last(), n - 1, i)
    }
}

/// No chat line and no private message is among the answers to a request that
/// sends no message.
proof fn lemma_silent_answer(part: Seq<Post>, g: Hub, id: u64, m: ClientMsg, ts: i64, j: int)
    requires
        is_answer(part, g, id, m, ts),
        !is_speech(m),
        0 <= j < part.len(),
    ensures
        !(part[j].msg is Chat),
        !(part[j].msg is Pm),
{
    if let ClientMsg::Join { room } = m {
        if room_fault(room) is None && can_move(g, id, room) {
            let (left, come) = choose|left: Seq<Post>, come: Seq<Post>| #[trigger]
                are_move_posts(part, left, come, g, id, room);
            let notice = Post { to: id, msg: ServerMsg::Joined { room } };
            assert(are_move_posts(part, left, come, g, id, room));
            assert(part.len() == left.len() + 1 + come.len());
            if j < left.len() {
                assert(part[j] == left[j]);
            } else if j == left.len() {
                assert(part[j] == notice);
            } else {
                assert(part[j] == come[j - left.len() - 1]);
            }
        }
    }
}

/// No chat line and no private message is among the answers to the requests that
/// a muted user can make.
proof fn lemma_permitted_answers(
    list: Seq<Post>,
    cuts: Seq<int>,
    h: Hub,
    id: u64,
    ms: Seq<ClientMsg>,
    ts: i64,
    i: int,
)
    requires
        are_answers(list, cuts, h, id, permitted(ms), ts),
        0 <= i < list.len(),
    ensures
        !(list[i].msg is Chat),
        !(list[i].msg is Pm),
{
    let said = permitted(ms);
    let k = lemma_which_answer(cuts, said.len() as int, i);
    ms.lemma_filter_pred(|m: ClientMsg| !is_speech(m), k);
    let m = said[k];
    let g = counted(after_requests(h, id, said.take(k)));
    let part = list.subrange(cuts[k], cuts[k + 1]);
    assert(is_answer(part, g, id, m, ts));
    assert(part[i - cuts[k]] == list[i]);
    lemma_silent_answer(part, g, id, m, ts, i - cuts[k]);
}


/// Nobody hears a user whom the administrator has blocked: whatever such a user
/// sends, no chat line and no private message comes of it.
pub proof fn law_muted_users_are_not_heard(
    served: Served,
    muted: Set<Seq<char>>,
    h: Hub,
    g: Hub,
    id: u64,
    name: Seq<char>,
    payload: Seq<u8>,
    ts: i64,
    i: int,
)
    requires
        muted.contains(name),
        is_payload_outcome(
            Some(served),
            h,
            g,
            id,
            payload,
            carried_out(payload, muted, name),
            ts,
        ),
        0 <= i < served.deliveries@.len(),
    ensures
        !(served.deliveries@[i].msg@ is Chat),
        !(served.deliveries@[i].msg@ is Pm),
{
    let list = posts(served.deliveries@);
    let all = text_requests(text_of(payload));
    assert(list[i].msg == served.deliveries@[i].msg@);
    if payload.len() <= MAX_MESSAGE_BYTES {
        let cuts = choose|cuts: Seq<int>| #[trigger]
            are_answers(list, cuts, h, id, permitted(all), ts);
        lemma_permitted_answers(list, cuts, h, id, all, ts, i);
    } else {
        assert(list == posted(h, id, too_large()));
        assert(list[i].msg == too_large());
    }
}

/// Users who are not muted are served as if there were no list of muted users.
pub proof fn law_others_are_not_muted(ms: Seq<ClientMsg>, muted: Set<Seq<char>>, name: Seq<char>)
    requires
        !muted.contains(name),
    ensures
        heeded(ms, muted.contains(name)) == ms,
{
}

} // verus!
