//! Laws on sessions: who is let in and under which name, what a client's frames
//! come to, and what the administrator can do.

use vstd::prelude::*;
use vstd::utf8::encode_utf8;

use crate::admin::{admin_ask, after_admin, is_admin_outcome, muted_after, AdminAsk};
use crate::commands::{is_blank, law_trimming_finds_the_core};
use crate::format::decimal;
use crate::hub::{
    hears, hub_wf, is_in, is_join, is_room_list, is_say, is_user_list, logged, registered,
    unregistered, Hub, Post,
};
use crate::outcomes::{
    law_a_move_keeps_the_rest, law_blocking_settles_one_name, law_private_message_is_delivered,
    lemma_broadcast,
};
use crate::protocol::{room_fault, username_fault, ClientMsg, ServerMsg};
use crate::roundtrip::{is_tight, lemma_not_prefix, lemma_prefix};
use crate::session::{
    after_request, after_requests, are_all_answers, are_answers, can_cut, carried_out, counted,
    cut_name, departed, given_name, heeded, is_answer, is_farewell, is_payload_outcome, is_speech,
    is_welcome, let_in, payload_requests, permitted, refusal, request_text, requests, text_requests,
    without_line_ends, Served,
};
use crate::state::posts;
use crate::text::{is_space, lemma_pieces_cons, lemma_pieces_single, pieces};
use crate::wire::client_request;

verus! {

// ---------------------------------------------------------------------------
// Names
// ---------------------------------------------------------------------------

/// Whether a text is line ends throughout.
pub open spec fn is_line_end(s: Seq<char>) -> bool {
    forall|i: int| 0 <= i < s.len() ==> (#[trigger] s[i] == '\n' || s[i] == '\r')
}

/// A client has the name that it gave, whatever line ends follow it, and one
/// that gave none is anonymous.
pub proof fn law_names_are_taken_as_given(name: Seq<char>, ends: Seq<char>)
    requires
        is_line_end(ends),
        name.len() > 0 ==> name.last() != '\n' && name.last() != '\r',
    ensures
        name.len() > 0 ==> given_name(name + ends) == name,
        name.len() == 0 ==> given_name(name + ends) == "Anonymous"@,
{
    lemma_ends_go(name, ends);
}

proof fn lemma_ends_go(name: Seq<char>, ends: Seq<char>)
    requires
        is_line_end(ends),
        name.len() > 0 ==> name.last() != '\n' && name.last() != '\r',
    ensures
        without_line_ends(name + ends) == name,
    decreases ends.len(),
{
    if ends.len() == 0 {
        assert(name + ends =~= name);
    } else {
        let c = ends[ends.len() - 1];
        assert(c == '\n' || c == '\r');
        assert((name + ends).last() == c);
        assert((name + ends).drop_last() =~= name + ends.drop_last());
        assert forall|i: int| 0 <= i < ends.drop_last().len() implies (#[trigger] ends.drop_last()[i]
            == '\n' || ends.drop_last()[i] == '\r') by {
            assert(ends[i] == '\n' || ends[i] == '\r');
        }
        lemma_ends_go(name, ends.drop_last());
    }
}

/// A name of at most sixty-three bytes is kept; a longer one is cut to its first
/// sixty-three, where a character ends there.
pub proof fn law_long_names_are_cut(name: Seq<char>)
    requires
        can_cut(name),
    ensures
        encode_utf8(name).len() <= 63 ==> cut_name(name) == name,
        encode_utf8(name).len() > 63 ==> encode_utf8(cut_name(name)) == encode_utf8(name).take(63),
{
    if encode_utf8(name).len() > 63 {
        crate::input::lemma_boundary_parts(name, 63);
        assert(encode_utf8(name).subrange(0, 63) =~= encode_utf8(name).take(63));
    }
}

/// A name of at most sixty-three bytes, or with a character that ends after the
/// sixty-third, has its place; no other name has.
pub proof fn law_names_that_can_be_cut(name: Seq<char>)
    ensures
        can_cut(name) <==> encode_utf8(name).len() <= 63 || vstd::utf8::is_char_boundary(
            encode_utf8(name),
            63,
        ),
{
}

/// Usernames: what can be one. Without the white space around it, it is of one
/// to sixty-three bytes, and has no white space and no control character in it.
pub proof fn law_what_is_a_username(lead: Seq<char>, name: Seq<char>, trail: Seq<char>)
    requires
        is_blank(lead),
        is_blank(trail),
        is_tight(name),
    ensures
        username_fault(lead + name + trail) is None <==> {
            &&& 1 <= encode_utf8(name).len() <= 63
            &&& forall|i: int|
                #![trigger name[i]]
                0 <= i < name.len() ==> !is_space(name[i]) && !crate::text::is_control_code(name[i])
        },
        name.len() == 0 ==> username_fault(lead + name + trail) == Some(
            "username cannot be empty"@,
        ),
        encode_utf8(name).len() > 63 ==> username_fault(lead + name + trail) == Some(
            "username too long (max 63 chars)"@,
        ),
        username_fault(lead + name + trail) is Some && 1 <= encode_utf8(name).len() <= 63
            ==> username_fault(lead + name + trail) == Some(
            "username may not contain whitespace or control characters"@,
        ),
{
    law_trimming_finds_the_core(lead, name, trail);
    lemma_some_bytes(name);
    if 1 <= encode_utf8(name).len() <= 63 {
        if username_fault(lead + name + trail) is None {
            assert forall|i: int|
                #![trigger name[i]]
                0 <= i < name.len() implies !is_space(name[i]) && !crate::text::is_control_code(
                name[i],
            ) by {}
        }
    }
}

proof fn lemma_some_bytes(s: Seq<char>)
    ensures
        encode_utf8(s).len() > 0 <==> s.len() > 0,
{
    if s.len() == 0 {
        assert(s =~= Seq::<char>::empty());
    } else {
        vstd::utf8::encode_utf8_decode_utf8(s);
        if encode_utf8(s).len() == 0 {
            assert(encode_utf8(s) =~= encode_utf8(Seq::<char>::empty()));
            vstd::utf8::encode_utf8_decode_utf8(Seq::<char>::empty());
        }
    }
}

/// Rooms: what can be the name of one. Without the white space around it, it is
/// of one to thirty-two bytes, letters, digits, underscores and hyphens.
pub proof fn law_what_is_a_room(lead: Seq<char>, name: Seq<char>, trail: Seq<char>)
    requires
        is_blank(lead),
        is_blank(trail),
        is_tight(name),
    ensures
        room_fault(lead + name + trail) is None <==> {
            &&& 1 <= encode_utf8(name).len() <= 32
            &&& forall|i: int|
                #![trigger name[i]]
                0 <= i < name.len() ==> crate::text::is_alnum(name[i]) || name[i] == '_' || name[i]
                    == '-'
        },
        name.len() == 0 ==> room_fault(lead + name + trail) == Some("room cannot be empty"@),
        encode_utf8(name).len() > 32 ==> room_fault(lead + name + trail) == Some(
            "room name too long"@,
        ),
        room_fault(lead + name + trail) is Some && 1 <= encode_utf8(name).len() <= 32
            ==> room_fault(lead + name + trail) == Some(
            "room may only contain letters, digits, '_' and '-'"@,
        ),
{
    law_trimming_finds_the_core(lead, name, trail);
    lemma_some_bytes(name);
}

// ---------------------------------------------------------------------------
// Coming and going
// ---------------------------------------------------------------------------

/// A client is let in exactly under a name that can be one and that nobody has.
/// Otherwise it is told the fault, and the log gets the reason.
pub proof fn law_who_is_let_in(h: Hub, name: Seq<char>)
    requires
        hub_wf(h),
    ensures
        refusal(h, name) is None <==> username_fault(name) is None && forall|id: u64| #[trigger]
            h.clients.contains_key(id) ==> h.clients[id].username != name,
        username_fault(name) matches Some(e) ==> refusal(h, name) == Some(
            (e, "bad username: "@ + e),
        ),
        username_fault(name) is None && refusal(h, name) is Some ==> refusal(h, name) == Some(
            ("username already in use"@, "register failed: username already in use"@),
        ),
{
    reveal_strlit("register failed: ");
    reveal_strlit("username already in use");
    reveal_strlit("register failed: username already in use");
    assert("register failed: "@ + "username already in use"@
        =~= "register failed: username already in use"@);
    if h.names.contains_key(name) {
        assert(h.clients.contains_key(h.names[name]));
    }
    if exists|id: u64| #[trigger] h.clients.contains_key(id) && h.clients[id].username == name {
        let id = choose|id: u64| #[trigger]
            h.clients.contains_key(id) && h.clients[id].username == name;
        assert(h.names.contains_key(h.clients[id].username));
    }
}

/// Who is let in is connected, and the log says who came, with which number and
/// from where.
pub proof fn law_arrivals_are_logged(h: Hub, name: Seq<char>, peer: Seq<char>, ts: i64)
    ensures
        let_in(h, name, peer, ts) == logged(
            registered(h, name),
            "+ "@ + name + " ("@ + decimal(h.next_id as nat) + ") joined from "@ + peer,
            ts,
        ),
{
}

/// Who is let in gets the welcome first, with its name and the default room.
/// Everyone else in the default room is told of it once, and nobody else is.
pub proof fn law_arrivals_are_told(list: Seq<Post>, h: Hub, id: u64, name: Seq<char>)
    requires
        hub_wf(h),
        is_welcome(list, h, id, name),
    ensures
        list.len() > 0,
        list[0] == (Post {
            to: id,
            msg: ServerMsg::Welcome {
                username: name,
                room: "general"@,
                motd: "Welcome to Vectorcom. Type /help for commands."@,
            },
        }),
        forall|i: int|
            #![trigger list[i]]
            1 <= i < list.len() ==> list[i].msg == (ServerMsg::UserJoined {
                username: name,
                room: "general"@,
            }) && list[i].to != id && h.clients.contains_key(list[i].to) && h.clients[list[i].to].room
                == "general"@,
        forall|i: int, j: int|
            #![trigger list[i], list[j]]
            0 <= i < j < list.len() ==> list[i].to != list[j].to,
        forall|other: u64|
            #![trigger h.clients[other]]
            h.clients.contains_key(other) && other != id && h.clients[other].room == "general"@
                ==> list.contains(
                Post {
                    to: other,
                    msg: ServerMsg::UserJoined { username: name, room: "general"@ },
                },
            ),
{
    let rest = list.drop_first();
    let room = "general"@;
    let msg = ServerMsg::UserJoined { username: name, room };
    lemma_broadcast(rest, h, room, msg, Some(id));
    assert forall|i: int| #![trigger list[i]] 1 <= i < list.len() implies list[i].msg == msg
        && hears(h, room, msg, Some(id), list[i].to) by {
        assert(rest[i - 1] == list[i]);
    }
    assert forall|i: int, j: int|
        #![trigger list[i], list[j]]
        0 <= i < j < list.len() implies list[i].to != list[j].to by {
        assert(rest[j - 1] == list[j]);
        if i > 0 {
            assert(rest[i - 1] == list[i]);
        }
    }
    assert forall|other: u64|
        #![trigger h.clients[other]]
        h.clients.contains_key(other) && other != id && h.clients[other].room
            == room implies list.contains(Post { to: other, msg }) by {
        assert(is_in(h.rooms, room, other));
        assert(hears(h, room, msg, Some(id), other));
        let k = choose|k: int| 0 <= k < rest.len() && (#[trigger] rest[k]).to == other;
        assert(list[k + 1] == rest[k]);
        assert(list[k + 1] == Post { to: other, msg });
    }
}

/// Who goes is disconnected, and the log says who left.
pub proof fn law_departures_are_logged(h: Hub, id: u64, name: Seq<char>, ts: i64)
    ensures
        departed(h, id, name, ts) == logged(
            unregistered(h, id),
            "- "@ + name + " ("@ + decimal(id as nat) + ") left"@,
            ts,
        ),
{
}

/// When a client goes, everyone else in its room is told once that it left, and
/// nobody else is told anything.
pub proof fn law_departures_are_told(list: Seq<Post>, h: Hub, id: u64)
    requires
        hub_wf(h),
        is_farewell(list, h, id),
    ensures
        !h.clients.contains_key(id) ==> list.len() == 0,
        h.clients.contains_key(id) ==> {
            let room = h.clients[id].room;
            let msg = ServerMsg::UserLeft { username: h.clients[id].username, room };
            &&& forall|i: int|
                #![trigger list[i]]
                0 <= i < list.len() ==> list[i].msg == msg && list[i].to != id
                    && h.clients.contains_key(list[i].to) && h.clients[list[i].to].room == room
            &&& forall|i: int, j: int|
                #![trigger list[i], list[j]]
                0 <= i < j < list.len() ==> list[i].to != list[j].to
            &&& forall|other: u64|
                #![trigger h.clients[other]]
                h.clients.contains_key(other) && other != id && h.clients[other].room == room
                    ==> list.contains(Post { to: other, msg })
        },
{
    if h.clients.contains_key(id) {
        let g = unregistered(h, id);
        let room = h.clients[id].room;
        let msg = ServerMsg::UserLeft { username: h.clients[id].username, room };
        crate::hub::law_unregister_keeps_order(h, id);
        lemma_broadcast(list, g, room, msg, Some(id));
        assert forall|i: int| #![trigger list[i]] 0 <= i < list.len() implies list[i].msg == msg
            && list[i].to != id && h.clients.contains_key(list[i].to) && h.clients[list[i].to].room
            == room by {
            assert(hears(g, room, msg, Some(id), list[i].to));
            assert(g.clients[list[i].to] == h.clients[list[i].to]);
        }
        assert forall|other: u64|
            #![trigger h.clients[other]]
            h.clients.contains_key(other) && other != id && h.clients[other].room
                == room implies list.contains(Post { to: other, msg }) by {
            assert(g.clients.contains_key(other) && g.clients[other].room == room);
            assert(is_in(g.rooms, room, other));
            assert(hears(g, room, msg, Some(id), other));
            let k = choose|k: int| 0 <= k < list.len() && (#[trigger] list[k]).to == other;
            assert(list[k] == Post { to: other, msg });
        }
    }
}

// ---------------------------------------------------------------------------
// Requests
// ---------------------------------------------------------------------------

/// A text is read line by line. A line of white space asks for nothing. A line
/// that ends the session is the last that is read. Any other line makes the
/// request that it makes alone, and the lines after it are read as if they stood
/// alone.
pub proof fn law_texts_are_read_line_by_line(
    lead: Seq<char>,
    line: Seq<char>,
    trail: Seq<char>,
    rest: Seq<char>,
)
    requires
        is_blank(lead),
        is_blank(trail),
        is_tight(line),
        !lead.contains('\n'),
        !line.contains('\n'),
        !trail.contains('\n'),
    ensures
        ({
            let raw = lead + line + trail;
            let text = raw + seq!['\n'] + rest;
            &&& line.len() == 0 ==> text_requests(text) == text_requests(rest)
            &&& line.len() == 0 ==> text_requests(raw) == Seq::<ClientMsg>::empty()
            &&& line.len() > 0 && client_request(line) == ClientMsg::Quit ==> text_requests(text)
                == seq![ClientMsg::Quit] && text_requests(raw) == seq![ClientMsg::Quit]
            &&& line.len() > 0 && client_request(line) != ClientMsg::Quit ==> text_requests(text)
                == seq![client_request(line)] + text_requests(rest) && text_requests(raw) == seq![
                client_request(line),
            ]
        }),
{
    let raw = lead + line + trail;
    crate::roundtrip::lemma_neither_contains(lead, line, '\n');
    crate::roundtrip::lemma_neither_contains(lead + line, trail, '\n');
    lemma_pieces_cons(raw, '\n', rest);
    lemma_pieces_single(raw, '\n');
    lemma_request_text(lead, line, trail);
    let more = seq![raw] + pieces(rest, '\n');
    assert(more.drop_first() =~= pieces(rest, '\n'));
    assert(seq![raw].drop_first() =~= Seq::<Seq<char>>::empty());
    assert(requests(seq![raw].drop_first()) =~= Seq::<ClientMsg>::empty());
    assert(seq![client_request(line)] + Seq::<ClientMsg>::empty() =~= seq![client_request(line)]);
}

/// Carriage returns at the end of a line are white space too.
proof fn lemma_request_text(lead: Seq<char>, line: Seq<char>, trail: Seq<char>)
    requires
        is_blank(lead),
        is_blank(trail),
        is_tight(line),
    ensures
        request_text(lead + line + trail) == line,
    decreases lead.len() + trail.len(),
{
    let raw = lead + line + trail;
    if raw.len() > 0 && raw.last() == '\r' {
        if trail.len() > 0 {
            let less = trail.drop_last();
            assert(raw.drop_last() =~= lead + line + less);
            assert forall|i: int| 0 <= i < less.len() implies is_space(#[trigger] less[i]) by {
                assert(is_space(trail[i]));
            }
            lemma_request_text(lead, line, less);
        } else if line.len() > 0 {
            assert(raw.last() == line.last());
            assert(is_space('\r'));
        } else {
            let less = lead.drop_last();
            assert(raw.drop_last() =~= less + line + trail);
            assert forall|i: int| 0 <= i < less.len() implies is_space(#[trigger] less[i]) by {
                assert(is_space(lead[i]));
            }
            lemma_request_text(less, line, trail);
        }
    } else {
        law_trimming_finds_the_core(lead, line, trail);
    }
}

/// What each request changes: a join takes the client to the room, a block or an
/// unblock settles that name, and no other request changes anything.
pub proof fn law_what_requests_change(h: Hub, id: u64, m: ClientMsg)
    requires
        hub_wf(h),
        h.clients.contains_key(id),
    ensures
        m matches ClientMsg::Join { room } ==> (room_fault(room) is None ==> after_request(
            h,
            id,
            m,
        ).clients[id].room == room) && (room_fault(room) is Some ==> after_request(h, id, m) == h),
        m matches ClientMsg::Block { username } ==> after_request(
            h,
            id,
            m,
        ).clients[id].blocked == h.clients[id].blocked.insert(username),
        m matches ClientMsg::Unblock { username } ==> after_request(
            h,
            id,
            m,
        ).clients[id].blocked == h.clients[id].blocked.remove(username),
        m is Say || m is Pm || m is ListUsers || m is ListRooms || m is Quit || m is Hello
            ==> after_request(h, id, m) == h,
        forall|other: u64|
            #![trigger h.clients[other]]
            other != id && h.clients.contains_key(other) ==> after_request(h, id, m).clients[other]
                == h.clients[other],
        after_request(h, id, m).clients[id].username == h.clients[id].username,
        after_request(h, id, m).names == h.names,
        after_request(h, id, m).log == h.log,
        after_request(h, id, m).total_messages == h.total_messages,
{
    match m {
        ClientMsg::Join { room } => {
            if room_fault(room) is None {
                law_a_move_keeps_the_rest(h, id, room);
            }
        },
        ClientMsg::Block { username } => {
            law_blocking_settles_one_name(h, id, username, true, username, 0);
        },
        ClientMsg::Unblock { username } => {
            law_blocking_settles_one_name(h, id, username, false, username, 0);
        },
        _ => {},
    }
}

/// How each request is answered. A quit and a hello are answered with nothing,
/// a block and an unblock with a notice to the client, and a private message
/// with its delivery.
pub proof fn law_how_requests_are_answered(
    list: Seq<Post>,
    h: Hub,
    id: u64,
    t: u64,
    name: Seq<char>,
    text: Seq<char>,
    version: u32,
    ts: i64,
)
    requires
        hub_wf(h),
        h.clients.contains_key(id),
    ensures
        is_answer(list, h, id, ClientMsg::Quit, ts) ==> list.len() == 0,
        is_answer(list, h, id, ClientMsg::Hello { username: name, version }, ts) ==> list.len()
            == 0,
        is_answer(list, h, id, ClientMsg::Say { text }, ts) ==> is_say(list, h, id, text, ts),
        is_answer(list, h, id, ClientMsg::Join { room: name }, ts) ==> is_join(list, h, id, name),
        is_answer(list, h, id, ClientMsg::ListUsers, ts) ==> is_user_list(list, h, id),
        is_answer(list, h, id, ClientMsg::ListRooms, ts) ==> is_room_list(list, h, id),
        is_answer(list, h, id, ClientMsg::Block { username: name }, ts) ==> list == seq![
            Post { to: id, msg: ServerMsg::System { text: "blocked "@ + name, ts } },
        ],
        is_answer(list, h, id, ClientMsg::Unblock { username: name }, ts) ==> list == seq![
            Post { to: id, msg: ServerMsg::System { text: "unblocked "@ + name, ts } },
        ],
        h.clients.contains_key(t) && h.clients[t].username == name
            && !h.clients[t].blocked.contains(h.clients[id].username) && is_answer(
            list,
            h,
            id,
            ClientMsg::Pm { to: name, text },
            ts,
        ) ==> list == seq![
            Post { to: t, msg: ServerMsg::Pm { from: h.clients[id].username, text, ts } },
        ],
{
    law_blocking_settles_one_name(h, id, name, true, name, ts);
    if h.clients.contains_key(t) && h.clients[t].username == name
        && !h.clients[t].blocked.contains(h.clients[id].username) {
        law_private_message_is_delivered(h, id, t, text, ts);
    }
}

/// Requests are carried out one after the other, and each is counted once.
pub proof fn law_requests_are_carried_out_in_order(
    h: Hub,
    id: u64,
    ms: Seq<ClientMsg>,
    m: ClientMsg,
)
    requires
        h.total_messages + ms.len() < u64::MAX,
    ensures
        after_requests(h, id, Seq::empty()) == h,
        after_requests(h, id, ms).total_messages == h.total_messages + ms.len(),
        ({
            let before = after_requests(h, id, ms);
            after_requests(h, id, ms.push(m)) == after_request(
                Hub { total_messages: (h.total_messages + ms.len() + 1) as u64, ..before },
                id,
                m,
            )
        }),
{
    crate::session::lemma_requests_counted(h, id, ms);
    assert(ms.push(m).drop_last() =~= ms);
}

/// The answers to some requests stand one after the other: first those to all
/// but the last, then the answer to the last, given in the state after the
/// others with the last one counted. To no requests there is no answer.
#[verifier::rlimit(40)]
pub proof fn law_answers_follow_one_another(
    list: Seq<Post>,
    h: Hub,
    id: u64,
    ms: Seq<ClientMsg>,
    m: ClientMsg,
    ts: i64,
) -> (k: int)
    requires
        are_all_answers(list, h, id, ms.push(m), ts),
    ensures
        0 <= k <= list.len(),
        are_all_answers(list.take(k), h, id, ms, ts),
        is_answer(list.skip(k), counted(after_requests(h, id, ms)), id, m, ts),
        ms.len() == 0 ==> k == 0,
{
    let all = ms.push(m);
    let cuts = choose|cuts: Seq<int>| #[trigger] are_answers(list, cuts, h, id, all, ts);
    assert(are_answers(list, cuts, h, id, all, ts));
    let n = ms.len() as int;
    assert(all[n] == m);
    let k = cuts[n];
    assert(all.take(n) =~= ms);
    assert(list.subrange(cuts[n], cuts[n + 1]) =~= list.skip(k));
    let fewer = cuts.take(n + 1);
    lemma_cuts_rise(list, cuts, h, id, all, ts, n);
    assert forall|j: int| #![trigger ms[j]] 0 <= j < ms.len() implies 0 <= fewer[j] <= fewer[j
        + 1] <= list.take(k).len() && is_answer(
        list.take(k).subrange(fewer[j], fewer[j + 1]),
        counted(after_requests(h, id, ms.take(j))),
        id,
        ms[j],
        ts,
    ) by {
        lemma_earlier_answer(list, cuts, h, id, ms, m, ts, j);
        assert(fewer[j] == cuts[j] && fewer[j + 1] == cuts[j + 1]);
        assert(cuts[j + 1] <= k);
    }
    assert(are_answers(list.take(k), fewer, h, id, ms, ts));
    k
}

proof fn lemma_earlier_answer(
    list: Seq<Post>,
    cuts: Seq<int>,
    h: Hub,
    id: u64,
    ms: Seq<ClientMsg>,
    m: ClientMsg,
    ts: i64,
    j: int,
)
    requires
        are_answers(list, cuts, h, id, ms.push(m), ts),
        0 <= j < ms.len(),
    ensures
        0 <= cuts[j] <= cuts[j + 1] <= cuts[ms.len() as int] <= list.len(),
        is_answer(
            list.take(cuts[ms.len() as int]).subrange(cuts[j], cuts[j + 1]),
            counted(after_requests(h, id, ms.take(j))),
            id,
            ms[j],
            ts,
        ),
{
    let all = ms.push(m);
    let k = cuts[ms.len() as int];
    lemma_cuts_rise(list, cuts, h, id, all, ts, ms.len() as int);
    assert(all[j] == ms[j]);
    assert(cuts[j + 1] <= k);
    assert(all.take(j) =~= ms.take(j));
    assert(list.take(k).subrange(cuts[j], cuts[j + 1]) =~= list.subrange(cuts[j], cuts[j + 1]));
}

proof fn lemma_cuts_rise(
    list: Seq<Post>,
    cuts: Seq<int>,
    h: Hub,
    id: u64,
    ms: Seq<ClientMsg>,
    ts: i64,
    n: int,
)
    requires
        are_answers(list, cuts, h, id, ms, ts),
        0 <= n <= ms.len(),
    ensures
        forall|j: int| 0 <= j <= n ==> #[trigger] cuts[j] <= cuts[n],
        0 <= cuts[n] <= list.len(),
    decreases n,
{
    if n > 0 {
        lemma_cuts_rise(list, cuts, h, id, ms, ts, n - 1);
        let m = ms[n - 1];
        assert(0 <= cuts[n - 1] <= cuts[n - 1 + 1] <= list.len());
    }
}

/// No requests have no answer; one request has its own, in the state with it
/// counted.
pub proof fn law_one_request_one_answer(
    list: Seq<Post>,
    h: Hub,
    id: u64,
    m: ClientMsg,
    ts: i64,
)
    ensures
        are_all_answers(list, h, id, Seq::empty(), ts) ==> list.len() == 0,
        are_all_answers(list, h, id, seq![m], ts) ==> is_answer(list, counted(h), id, m, ts),
        counted(h) == (Hub { total_messages: counted(h).total_messages, ..h }),
        h.total_messages < u64::MAX ==> counted(h).total_messages == h.total_messages + 1,
{
    if are_all_answers(list, h, id, seq![m], ts) {
        let none = Seq::<ClientMsg>::empty();
        assert(none.push(m) =~= seq![m]);
        let k = law_answers_follow_one_another(list, h, id, none, m, ts);
        assert(list.skip(0) =~= list);
    }
}

/// A frame of more than eight kilobytes is refused: the sender is told so,
/// nothing changes and the session goes on. The session ends with a frame whose
/// last request is to quit, and with no other.
pub proof fn law_frames_are_bounded(
    served: Served,
    h: Hub,
    g: Hub,
    id: u64,
    payload: Seq<u8>,
    ms: Seq<ClientMsg>,
    ts: i64,
)
    requires
        is_payload_outcome(Some(served), h, g, id, payload, ms, ts),
    ensures
        payload.len() > 8192 ==> g == h && !served.quit,
        payload.len() > 8192 && h.clients.contains_key(id) ==> posts(served.deliveries@) == seq![
            Post { to: id, msg: ServerMsg::Error { text: "message too large"@ } },
        ],
        payload.len() > 8192 && !h.clients.contains_key(id) ==> served.deliveries@.len() == 0,
        payload.len() <= 8192 ==> g == after_requests(h, id, ms),
        payload.len() <= 8192 ==> are_all_answers(posts(served.deliveries@), h, id, ms, ts),
        payload.len() <= 8192 ==> served.quit == (ms.len() > 0 && ms.last() == ClientMsg::Quit),
{
    if payload.len() > 8192 && !h.clients.contains_key(id) {
        assert(posts(served.deliveries@).len() == served.deliveries@.len());
    }
}

/// A frame that is not too long, and whose requests can be counted, is always
/// served.
pub proof fn law_frames_are_served(
    r: Option<Served>,
    h: Hub,
    g: Hub,
    id: u64,
    payload: Seq<u8>,
    ms: Seq<ClientMsg>,
    ts: i64,
)
    requires
        is_payload_outcome(r, h, g, id, payload, ms, ts),
    ensures
        r is Some <==> payload.len() > 8192 || h.total_messages + ms.len() <= u64::MAX,
        r is None ==> g == h,
{
}

/// Of what a muted user asks for, chat and private messages alone are left out,
/// and the rest is kept in its order; nothing of what another user asks for is
/// left out.
pub proof fn law_muting_leaves_out_speech_alone(ms: Seq<ClientMsg>, m: ClientMsg)
    ensures
        heeded(ms, false) == ms,
        heeded(Seq::empty(), true) == Seq::<ClientMsg>::empty(),
        m is Say || m is Pm ==> heeded(ms.push(m), true) == heeded(ms, true),
        !(m is Say || m is Pm) ==> heeded(ms.push(m), true) == heeded(ms, true).push(m),
{
    reveal(Seq::filter);
    assert(ms.push(m).drop_last() =~= ms);
    assert(permitted(Seq::empty()) =~= Seq::<ClientMsg>::empty());
}

/// Of a frame that holds a text, the requests in the text are carried out: all of
/// them for a user who is not muted, and all but chat and private messages for
/// one who is.
pub proof fn law_what_is_carried_out(
    text: Seq<char>,
    muted: Set<Seq<char>>,
    name: Seq<char>,
    i: int,
)
    ensures
        payload_requests(encode_utf8(text)) == text_requests(text),
        !muted.contains(name) ==> carried_out(encode_utf8(text), muted, name) == text_requests(
            text,
        ),
        muted.contains(name) && 0 <= i < carried_out(encode_utf8(text), muted, name).len() ==> {
            let m = carried_out(encode_utf8(text), muted, name)[i];
            text_requests(text).contains(m) && !(m is Say) && !(m is Pm)
        },
        muted.contains(name) && 0 <= i < text_requests(text).len() && !(text_requests(text)[i] is Say)
            && !(text_requests(text)[i] is Pm) ==> carried_out(
            encode_utf8(text),
            muted,
            name,
        ).contains(text_requests(text)[i]),
{
    crate::lettering::law_texts_are_decoded(text);
    let all = text_requests(text);
    let f = |m: ClientMsg| !is_speech(m);
    let kept = permitted(all);
    if muted.contains(name) && 0 <= i < kept.len() {
        all.lemma_filter_pred(f, i);
        all.lemma_filter_contains_rev(f, kept[i]);
    }
    if muted.contains(name) && 0 <= i < all.len() && !is_speech(all[i]) {
        all.lemma_filter_contains(f, i);
    }
}

// ---------------------------------------------------------------------------
// The administrator
// ---------------------------------------------------------------------------

/// What the administrator types: a word before a user's name blocks or unblocks
/// that user; anything else, with or without the word for speaking before it, is
/// to be told as it stands. White space around it does not matter, and a line of
/// white space asks for nothing.
#[verifier::rlimit(40)]
pub proof fn law_what_the_administrator_asks(
    lead: Seq<char>,
    pad: Seq<char>,
    x: Seq<char>,
    trail: Seq<char>,
)
    requires
        is_blank(lead),
        is_blank(pad),
        is_blank(trail),
        x.len() > 0,
        is_tight(x),
    ensures
        admin_ask(lead + ("say "@ + x) + trail) == (AdminAsk::Say { text: x }),
        admin_ask(lead + ("block "@ + pad + x) + trail) == (AdminAsk::Block { user: x, on: true }),
        admin_ask(lead + ("unblock "@ + pad + x) + trail) == (AdminAsk::Block {
            user: x,
            on: false,
        }),
        admin_ask(lead + trail) == AdminAsk::Nothing,
{
    reveal_strlit("say ");
    reveal_strlit("block ");
    reveal_strlit("unblock ");
    let none = Seq::<char>::empty();
    let s = "say "@ + x;
    let b = "block "@ + pad + x;
    let u = "unblock "@ + pad + x;
    assert(s[0] == 's' && s.last() == x.last());
    assert(b[0] == 'b' && b.last() == x.last());
    assert(u[0] == 'u' && u.last() == x.last());
    law_trimming_finds_the_core(lead, s, trail);
    law_trimming_finds_the_core(lead, b, trail);
    law_trimming_finds_the_core(lead, u, trail);
    law_trimming_finds_the_core(lead, none, trail);
    assert(lead + none + trail =~= lead + trail);
    assert(pad + x + none =~= pad + x);
    law_trimming_finds_the_core(pad, x, none);
    assert(b =~= "block "@ + (pad + x));
    assert(u =~= "unblock "@ + (pad + x));
    lemma_prefix("say "@, x);
    lemma_prefix("block "@, pad + x);
    lemma_prefix("unblock "@, pad + x);
    lemma_not_prefix(b, "say "@, 0);
    lemma_not_prefix(u, "say "@, 0);
    lemma_not_prefix(u, "block "@, 0);
    if none.len() == 0 {
        lemma_not_prefix(none, "say "@, 0);
        lemma_not_prefix(none, "block "@, 0);
        lemma_not_prefix(none, "unblock "@, 0);
    }
}

/// What is to be told is told with the white space that it begins with.
pub proof fn law_told_texts_keep_their_indent(lead: Seq<char>, x: Seq<char>, trail: Seq<char>)
    requires
        is_blank(lead),
        is_blank(trail),
        x.len() > 0,
        !is_space(x.last()),
    ensures
        admin_ask(lead + ("say "@ + x) + trail) == (AdminAsk::Say { text: x }),
{
    reveal_strlit("say ");
    let s = "say "@ + x;
    assert(s[0] == 's' && s.last() == x.last());
    law_trimming_finds_the_core(lead, s, trail);
    lemma_prefix("say "@, x);
}

/// Any line without one of those words in front is told as it stands.
pub proof fn law_plain_lines_are_told(lead: Seq<char>, x: Seq<char>, trail: Seq<char>)
    requires
        is_blank(lead),
        is_blank(trail),
        x.len() > 0,
        is_tight(x),
        !crate::text::begins_with(x, "say "@),
        !crate::text::begins_with(x, "block "@),
        !crate::text::begins_with(x, "unblock "@),
    ensures
        admin_ask(lead + x + trail) == (AdminAsk::Say { text: x }),
{
    law_trimming_finds_the_core(lead, x, trail);
}

/// What the administrator's commands do: a text goes to every client as a
/// notice and to the log; a block or an unblock mutes or frees that user and no
/// other, and goes to the log alone.
pub proof fn law_what_the_administrator_does(
    list: Seq<Post>,
    h: Hub,
    muted: Set<Seq<char>>,
    x: Seq<char>,
    other: Seq<char>,
    on: bool,
    ts: i64,
)
    ensures
        after_admin(h, AdminAsk::Say { text: x }, ts) == logged(h, "[admin] say: "@ + x, ts),
        after_admin(h, AdminAsk::Block { user: x, on: true }, ts) == logged(
            h,
            "[admin] blocked: "@ + x,
            ts,
        ),
        after_admin(h, AdminAsk::Block { user: x, on: false }, ts) == logged(
            h,
            "[admin] unblocked: "@ + x,
            ts,
        ),
        after_admin(h, AdminAsk::Nothing, ts) == h,
        muted_after(muted, AdminAsk::Say { text: x }) == muted,
        muted_after(muted, AdminAsk::Nothing) == muted,
        muted_after(muted, AdminAsk::Block { user: x, on }).contains(x) == on,
        other != x ==> muted_after(muted, AdminAsk::Block { user: x, on }).contains(other)
            == muted.contains(other),
        is_admin_outcome(list, h, AdminAsk::Block { user: x, on }, ts) ==> list.len() == 0,
        is_admin_outcome(list, h, AdminAsk::Nothing, ts) ==> list.len() == 0,
        is_admin_outcome(list, h, AdminAsk::Say { text: x }, ts) ==> forall|id: u64| #[trigger]
            h.clients.contains_key(id) <==> list.contains(
                Post { to: id, msg: ServerMsg::System { text: x, ts } },
            ),
        is_admin_outcome(list, h, AdminAsk::Say { text: x }, ts) ==> forall|i: int|
            0 <= i < list.len() ==> (#[trigger] list[i]).msg == (ServerMsg::System { text: x, ts }),
{
    if is_admin_outcome(list, h, AdminAsk::Say { text: x }, ts) {
        let msg = ServerMsg::System { text: x, ts };
        assert forall|id: u64| #[trigger] h.clients.contains_key(id) <==> list.contains(
            Post { to: id, msg },
        ) by {
            crate::outcomes::law_an_announcement_reaches_all(list, h, msg, id);
        }
    }
}

} // verus!
