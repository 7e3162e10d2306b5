//! Laws on what an observer takes from the server that it watches, and on what
//! it does.

use vstd::prelude::*;

use crate::format::decimal;
use crate::hub::{logged, Hub};
use crate::journey::lemma_no_space_no_match;
use crate::net::line_of;
use crate::observe::{
    activity, frame_fits, is_other, listed_room, listed_user, new_outlook, observe_frame,
    observe_step, observed_line, observed_lines, observed_text, Gathering, ObserveAct, ObserveEv,
    ObserveMode, Outlook,
};
use crate::protocol::{list_entry, ROOM_LIST_HEADER, USER_LIST_HEADER};
use crate::roundtrip::{
    entry_lines, is_tight, law_room_entries_read_back, law_user_entries_read_back, lemma_entry_line,
    lemma_listing_pieces, lemma_neither_contains, lemma_tight,
};
use crate::text::{is_space, pieces, stripped_end, text_of, trimmed};
use crate::wire::listing;

verus! {

// ---------------------------------------------------------------------------
// Lists
// ---------------------------------------------------------------------------

/// The lines of a user list that gives rooms.
pub open spec fn user_lines(users: Seq<(Seq<char>, Seq<char>)>) -> Seq<char>
    decreases users.len(),
{
    if users.len() == 0 {
        Seq::empty()
    } else {
        user_lines(users.drop_last()) + " - "@ + users.last().0 + " (room: "@ + users.last().1
            + ")\n"@
    }
}

/// The lines of a room list that gives numbers of users.
pub open spec fn room_lines(rooms: Seq<(Seq<char>, usize)>) -> Seq<char>
    decreases rooms.len(),
{
    if rooms.len() == 0 {
        Seq::empty()
    } else {
        room_lines(rooms.drop_last()) + " - "@ + rooms.last().0 + " ("@ + decimal(
            rooms.last().1 as nat,
        ) + " users)\n"@
    }
}

/// Whether a text is a word: it is not empty, and no white space is in it.
pub open spec fn is_solid(s: Seq<char>) -> bool {
    s.len() > 0 && forall|i: int| 0 <= i < s.len() ==> !is_space(#[trigger] s[i])
}

/// A user's entry in a list that gives rooms.
pub open spec fn user_item(u: (Seq<char>, Seq<char>)) -> Seq<char> {
    u.0 + " (room: "@ + u.1 + ")"@
}

/// A room's entry in a list that gives numbers of users.
pub open spec fn room_item(r: (Seq<char>, usize)) -> Seq<char> {
    r.0 + " ("@ + decimal(r.1 as nat) + " users)"@
}

/// The users' entries in a list that gives rooms.
pub open spec fn user_items(users: Seq<(Seq<char>, Seq<char>)>) -> Seq<Seq<char>> {
    Seq::new(users.len(), |i: int| user_item(users[i]))
}

/// The rooms' entries in a list that gives numbers of users.
pub open spec fn room_items(rooms: Seq<(Seq<char>, usize)>) -> Seq<Seq<char>> {
    Seq::new(rooms.len(), |i: int| room_item(rooms[i]))
}

pub proof fn lemma_solid(s: Seq<char>)
    requires
        is_solid(s),
    ensures
        is_tight(s),
        !s.contains(' '),
        !s.contains('\n'),
{
    assert(!is_space(s[0]));
    assert(!is_space(s[s.len() - 1]));
    if s.contains(' ') {
        let i = s.index_of(' ');
        assert(!is_space(s[i]));
    }
    if s.contains('\n') {
        let i = s.index_of('\n');
        assert(!is_space(s[i]));
    }
}

pub proof fn lemma_user_item(u: (Seq<char>, Seq<char>))
    requires
        is_solid(u.0),
        is_solid(u.1),
        u.1.last() != ')',
    ensures
        is_tight(user_item(u)),
        !user_item(u).contains('\n'),
        listed_user(user_item(u)) == u,
{
    lemma_solid(u.0);
    lemma_solid(u.1);
    law_user_entries_read_back(u.0, u.1);
    lemma_user_item_ends(u);
    lemma_user_item_line(u);
}

proof fn lemma_user_item_ends(u: (Seq<char>, Seq<char>))
    requires
        is_solid(u.0),
    ensures
        is_tight(user_item(u)),
{
    reveal_strlit(")");
    let item = user_item(u);
    assert(!is_space(u.0[0]));
    assert(item.first() == u.0[0]);
    assert(item.last() == ')');
}

proof fn lemma_user_item_line(u: (Seq<char>, Seq<char>))
    requires
        !u.0.contains('\n'),
        !u.1.contains('\n'),
    ensures
        !user_item(u).contains('\n'),
{
    reveal_strlit(" (room: ");
    reveal_strlit(")");
    lemma_neither_contains(u.0, " (room: "@, '\n');
    lemma_neither_contains(u.0 + " (room: "@, u.1, '\n');
    lemma_neither_contains(u.0 + " (room: "@ + u.1, ")"@, '\n');
}

pub proof fn lemma_room_item(r: (Seq<char>, usize))
    requires
        is_solid(r.0),
    ensures
        is_tight(room_item(r)),
        !room_item(r).contains('\n'),
        listed_room(room_item(r)) == r,
{
    reveal_strlit(" (");
    reveal_strlit(" users)");
    lemma_solid(r.0);
    law_room_entries_read_back(r.0, r.1 as nat);
    crate::format::lemma_decimal(r.1 as nat);
    let d = decimal(r.1 as nat);
    let item = room_item(r);
    assert(item.first() == r.0[0]);
    assert(!is_space(r.0[0]));
    assert(item.last() == ')');
    let n = r.0.len() as int;
    let m = d.len() as int;
    assert forall|i: int| 0 <= i < item.len() implies item[i] != '\n' by {
        if i < n {
            assert(item[i] == r.0[i]);
        } else if i < n + 2 {
            assert(item[i] == " ("@[i - n]);
        } else if i < n + 2 + m {
            assert(item[i] == d[i - n - 2]);
        } else {
            assert(item[i] == " users)"@[i - n - 2 - m]);
        }
    }
}

pub proof fn lemma_user_lines(users: Seq<(Seq<char>, Seq<char>)>)
    ensures
        user_lines(users) == listing(user_items(users)),
    decreases users.len(),
{
    reveal_strlit(")");
    reveal_strlit("\n");
    reveal_strlit(")\n");
    if users.len() > 0 {
        let u = users.last();
        lemma_user_lines(users.drop_last());
        assert(user_items(users).drop_last() =~= user_items(users.drop_last()));
        assert(user_items(users).last() == user_item(u));
        assert(")\n"@ =~= ")"@ + "\n"@);
        let a = user_lines(users.drop_last());
        assert(a + " - "@ + u.0 + " (room: "@ + u.1 + ")\n"@ =~= a + " - "@ + user_item(u) + "\n"@);
    }
}

pub proof fn lemma_room_lines(rooms: Seq<(Seq<char>, usize)>)
    ensures
        room_lines(rooms) == listing(room_items(rooms)),
    decreases rooms.len(),
{
    reveal_strlit(" users)");
    reveal_strlit("\n");
    reveal_strlit(" users)\n");
    if rooms.len() > 0 {
        let r = rooms.last();
        lemma_room_lines(rooms.drop_last());
        assert(room_items(rooms).drop_last() =~= room_items(rooms.drop_last()));
        assert(room_items(rooms).last() == room_item(r));
        assert(" users)\n"@ =~= " users)"@ + "\n"@);
        let a = room_lines(rooms.drop_last());
        let d = decimal(r.1 as nat);
        assert(a + " - "@ + r.0 + " ("@ + d + " users)\n"@ =~= a + " - "@ + room_item(r) + "\n"@);
    }
}

/// An entry of a user list is gathered with the name and the room that it gives,
/// and nothing is shown yet. Likewise an entry of a room list with its number.
pub proof fn law_entries_are_gathered(
    g: Gathering,
    h: Hub,
    name: Seq<char>,
    room: Seq<char>,
    n: usize,
    ts: i64,
)
    requires
        is_solid(name),
        is_solid(room),
        room.last() != ')',
    ensures
        g.mode == ObserveMode::Users ==> observed_line(
            g,
            h,
            " - "@ + (name + " (room: "@ + room + ")"@),
            ts,
        ) == (Gathering { users: g.users.push((name, room)), ..g }, h),
        g.mode == ObserveMode::Users ==> observed_line(g, h, " - "@ + name, ts) == (
            Gathering { users: g.users.push((name, Seq::<char>::empty())), ..g },
            h,
        ),
        g.mode == ObserveMode::Rooms ==> observed_line(
            g,
            h,
            " - "@ + (name + " ("@ + decimal(n as nat) + " users)"@),
            ts,
        ) == (Gathering { rooms: g.rooms.push((name, n)), ..g }, h),
        g.mode == ObserveMode::Rooms ==> observed_line(g, h, " - "@ + name, ts) == (
            Gathering { rooms: g.rooms.push((name, 0usize)), ..g },
            h,
        ),
{
    lemma_user_item((name, room));
    lemma_room_item((name, n));
    lemma_entry_line(user_item((name, room)));
    lemma_entry_line(room_item((name, n)));
    lemma_solid(name);
    lemma_tight(name);
    lemma_entry_line(name);
    reveal_strlit(" (room: ");
    reveal_strlit(" (");
    lemma_no_space_no_match(name, " (room: "@);
    lemma_no_space_no_match(name, " ("@);
}

proof fn lemma_users_gathered(g: Gathering, h: Hub, users: Seq<(Seq<char>, Seq<char>)>, ts: i64)
    requires
        g.mode == ObserveMode::Outside,
        forall|i: int|
            #![trigger users[i]]
            0 <= i < users.len() ==> is_solid(users[i].0) && is_solid(users[i].1)
                && users[i].1.last() != ')',
    ensures
        observed_lines(g, h, seq![USER_LIST_HEADER@] + entry_lines(user_items(users)), ts) == (
            Gathering { mode: ObserveMode::Users, users, ..g },
            h,
        ),
    decreases users.len(),
{
    let raws = seq![USER_LIST_HEADER@] + entry_lines(user_items(users));
    if users.len() == 0 {
        reveal_strlit("Online users:");
        lemma_tight(USER_LIST_HEADER@);
        assert(raws =~= seq![USER_LIST_HEADER@]);
        assert(raws.drop_last() =~= Seq::<Seq<char>>::empty());
        assert(USER_LIST_HEADER@.last() == ':');
        assert(line_of(USER_LIST_HEADER@) == USER_LIST_HEADER@);
        reveal_with_fuel(observed_lines, 2);
        assert(users =~= Seq::<(Seq<char>, Seq<char>)>::empty());
    } else {
        let fewer = users.drop_last();
        let u = users.last();
        assert forall|i: int| #![trigger fewer[i]] 0 <= i < fewer.len() implies is_solid(
            fewer[i].0,
        ) && is_solid(fewer[i].1) && fewer[i].1.last() != ')' by {
            assert(fewer[i] == users[i]);
        }
        lemma_users_gathered(g, h, fewer, ts);
        assert(u == users[users.len() - 1]);
        lemma_user_item(u);
        lemma_entry_line(user_item(u));
        assert(entry_lines(user_items(users)).drop_last() =~= entry_lines(user_items(fewer)));
        assert(raws.drop_last() =~= seq![USER_LIST_HEADER@] + entry_lines(user_items(fewer)));
        assert(raws.last() == " - "@ + user_item(u));
        assert(fewer.push(u) =~= users);
    }
}

proof fn lemma_rooms_gathered(g: Gathering, h: Hub, rooms: Seq<(Seq<char>, usize)>, ts: i64)
    requires
        g.mode == ObserveMode::Outside,
        forall|i: int| #![trigger rooms[i]] 0 <= i < rooms.len() ==> is_solid(rooms[i].0),
    ensures
        observed_lines(g, h, seq![ROOM_LIST_HEADER@] + entry_lines(room_items(rooms)), ts) == (
            Gathering { mode: ObserveMode::Rooms, rooms, ..g },
            h,
        ),
    decreases rooms.len(),
{
    let raws = seq![ROOM_LIST_HEADER@] + entry_lines(room_items(rooms));
    if rooms.len() == 0 {
        reveal_strlit("Active Rooms:");
        reveal_strlit("Online users:");
        lemma_tight(ROOM_LIST_HEADER@);
        assert(raws =~= seq![ROOM_LIST_HEADER@]);
        assert(raws.drop_last() =~= Seq::<Seq<char>>::empty());
        assert(ROOM_LIST_HEADER@.last() == ':');
        assert(ROOM_LIST_HEADER@[0] == 'A');
        assert(USER_LIST_HEADER@[0] == 'O');
        assert(line_of(ROOM_LIST_HEADER@) == ROOM_LIST_HEADER@);
        reveal_with_fuel(observed_lines, 2);
        assert(rooms =~= Seq::<(Seq<char>, usize)>::empty());
    } else {
        let fewer = rooms.drop_last();
        let r = rooms.last();
        assert forall|i: int| #![trigger fewer[i]] 0 <= i < fewer.len() implies is_solid(
            fewer[i].0,
        ) by {
            assert(fewer[i] == rooms[i]);
        }
        lemma_rooms_gathered(g, h, fewer, ts);
        assert(r == rooms[rooms.len() - 1]);
        lemma_room_item(r);
        lemma_entry_line(room_item(r));
        assert(entry_lines(room_items(rooms)).drop_last() =~= entry_lines(room_items(fewer)));
        assert(raws.drop_last() =~= seq![ROOM_LIST_HEADER@] + entry_lines(room_items(fewer)));
        assert(raws.last() == " - "@ + room_item(r));
        assert(fewer.push(r) =~= rooms);
    }
}

/// A text that lists users with their rooms leaves the observer with exactly
/// those users and rooms in their order, its own name left out. Nothing else of
/// the state changes.
pub proof fn law_observed_users_have_their_rooms(
    g: Gathering,
    h: Hub,
    users: Seq<(Seq<char>, Seq<char>)>,
    ts: i64,
)
    requires
        g.mode == ObserveMode::Outside,
        forall|i: int|
            #![trigger users[i]]
            0 <= i < users.len() ==> is_solid(users[i].0) && is_solid(users[i].1)
                && users[i].1.last() != ')',
    ensures
        observed_text(g, h, "Online users:\n"@ + user_lines(users), ts).1 == (Hub {
            observed_users: users.filter(
                |u: (Seq<char>, Seq<char>)| u.0 != g.self_name,
            ),
            ..h
        }),
        observed_text(g, h, "Online users:\n"@ + user_lines(users), ts).0.mode
            == ObserveMode::Outside,
        observed_text(g, h, "Online users:\n"@ + user_lines(users), ts).0.self_name == g.self_name,
{
    reveal_strlit("Online users:");
    reveal_strlit("Online users:\n");
    reveal_strlit("\n");
    let header = USER_LIST_HEADER@;
    let none = Seq::<char>::empty();
    let items = user_items(users);
    assert("Online users:\n"@ =~= header + "\n"@);
    assert forall|i: int| 0 <= i < header.len() implies header[i] != '\n' by {}
    assert forall|i: int| 0 <= i < items.len() implies !(#[trigger] items[i]).contains('\n') by {
        lemma_user_item(users[i]);
    }
    lemma_user_lines(users);
    lemma_listing_pieces(header, items);
    lemma_users_gathered(g, h, users, ts);
    let raws = (seq![header] + entry_lines(items)).push(none);
    assert(raws.drop_last() =~= seq![header] + entry_lines(items));
    assert(line_of(none) == none);
    assert(raws == pieces("Online users:\n"@ + user_lines(users), '\n'));
    assert(is_other(g.self_name) =~= |u: (Seq<char>, Seq<char>)| u.0 != g.self_name);
}

/// A text that lists rooms with their numbers of users leaves the observer with
/// exactly those rooms and numbers in their order. Nothing else of the state
/// changes.
pub proof fn law_observed_rooms_have_their_numbers(
    g: Gathering,
    h: Hub,
    rooms: Seq<(Seq<char>, usize)>,
    ts: i64,
)
    requires
        g.mode == ObserveMode::Outside,
        forall|i: int| #![trigger rooms[i]] 0 <= i < rooms.len() ==> is_solid(rooms[i].0),
    ensures
        observed_text(g, h, "Active Rooms:\n"@ + room_lines(rooms), ts).1 == (Hub {
            observed_rooms: rooms,
            ..h
        }),
        observed_text(g, h, "Active Rooms:\n"@ + room_lines(rooms), ts).0.mode
            == ObserveMode::Outside,
        observed_text(g, h, "Active Rooms:\n"@ + room_lines(rooms), ts).0.self_name == g.self_name,
{
    reveal_strlit("Active Rooms:");
    reveal_strlit("Active Rooms:\n");
    reveal_strlit("\n");
    let header = ROOM_LIST_HEADER@;
    let none = Seq::<char>::empty();
    let items = room_items(rooms);
    assert("Active Rooms:\n"@ =~= header + "\n"@);
    assert forall|i: int| 0 <= i < header.len() implies header[i] != '\n' by {}
    assert forall|i: int| 0 <= i < items.len() implies !(#[trigger] items[i]).contains('\n') by {
        lemma_room_item(rooms[i]);
    }
    lemma_room_lines(rooms);
    lemma_listing_pieces(header, items);
    lemma_rooms_gathered(g, h, rooms, ts);
    let raws = (seq![header] + entry_lines(items)).push(none);
    assert(raws.drop_last() =~= seq![header] + entry_lines(items));
    assert(line_of(none) == none);
    assert(raws == pieces("Active Rooms:\n"@ + room_lines(rooms), '\n'));
}

/// A line that is neither a header nor an entry of an open list is activity: it
/// is logged whole, at its time, and counted as one message.
pub proof fn law_activity_is_logged(g: Gathering, h: Hub, line: Seq<char>, ts: i64)
    requires
        g.mode == ObserveMode::Outside,
        trimmed(line) != "Online users:"@,
        trimmed(line) != "Active Rooms:"@,
        h.total_messages < u64::MAX,
    ensures
        observed_line(g, h, line, ts) == (
            g,
            logged(Hub { total_messages: (h.total_messages + 1) as u64, ..h }, line, ts),
        ),
{
}

/// A line that ends a list shows the list, without the observer's own name, and
/// is then activity as any other.
pub proof fn law_activity_ends_a_list(g: Gathering, h: Hub, line: Seq<char>, ts: i64)
    requires
        g.mode != ObserveMode::Outside,
        list_entry(line) is None,
        trimmed(line) != "Online users:"@,
        trimmed(line) != "Active Rooms:"@,
        h.total_messages < u64::MAX,
    ensures
        ({
            let shown = if g.mode == ObserveMode::Users {
                Hub {
                    observed_users: g.users.filter(
                        |u: (Seq<char>, Seq<char>)| u.0 != g.self_name,
                    ),
                    ..h
                }
            } else {
                Hub { observed_rooms: g.rooms, ..h }
            };
            let (g1, h1) = observed_line(g, h, line, ts);
            &&& h1 == logged(
                Hub { total_messages: (h.total_messages + 1) as u64, ..shown },
                line,
                ts,
            )
            &&& g1.mode == ObserveMode::Outside
            &&& g1.self_name == g.self_name
        }),
{
    assert(is_other(g.self_name) =~= |u: (Seq<char>, Seq<char>)| u.0 != g.self_name);
}

/// A header opens its list, with no entries yet, and shows the list that was
/// open before it.
pub proof fn law_headers_open_lists(g: Gathering, h: Hub, line: Seq<char>, ts: i64)
    requires
        trimmed(line) == "Online users:"@ || trimmed(line) == "Active Rooms:"@,
    ensures
        trimmed(line) == "Online users:"@ ==> observed_line(g, h, line, ts).0.mode
            == ObserveMode::Users && observed_line(g, h, line, ts).0.users.len() == 0,
        trimmed(line) == "Active Rooms:"@ ==> observed_line(g, h, line, ts).0.mode
            == ObserveMode::Rooms && observed_line(g, h, line, ts).0.rooms.len() == 0,
        g.mode == ObserveMode::Outside ==> observed_line(g, h, line, ts).1 == h,
        g.mode == ObserveMode::Users ==> observed_line(g, h, line, ts).1 == (Hub {
            observed_users: g.users.filter(|u: (Seq<char>, Seq<char>)| u.0 != g.self_name),
            ..h
        }),
        g.mode == ObserveMode::Rooms ==> observed_line(g, h, line, ts).1 == (Hub {
            observed_rooms: g.rooms,
            ..h
        }),
        observed_line(g, h, line, ts).0.self_name == g.self_name,
{
    reveal_strlit("Online users:");
    reveal_strlit("Active Rooms:");
    assert("Online users:"@[0] == 'O');
    assert("Active Rooms:"@[0] == 'A');
    assert(is_other(g.self_name) =~= |u: (Seq<char>, Seq<char>)| u.0 != g.self_name);
}

/// A text is taken line by line, from the first to the last; a line that is
/// empty but for carriage returns is passed over.
pub proof fn law_lines_are_taken_in_order(
    g: Gathering,
    h: Hub,
    raws: Seq<Seq<char>>,
    raw: Seq<char>,
    ts: i64,
)
    ensures
        observed_lines(g, h, Seq::empty(), ts) == (g, h),
        ({
            let (g1, h1) = observed_lines(g, h, raws, ts);
            let line = stripped_end(raw, '\r');
            observed_lines(g, h, raws.push(raw), ts) == if line.len() == 0 {
                (g1, h1)
            } else {
                observed_line(g1, h1, line, ts)
            }
        }),
{
    assert(raws.push(raw).drop_last() =~= raws);
}

/// A list that is open at the end of a text is shown, and the observer waits
/// for the next text outside of any list.
pub proof fn law_texts_end_their_lists(g: Gathering, h: Hub, text: Seq<char>, ts: i64)
    ensures
        ({
            let (g1, h1) = observed_lines(g, h, pieces(text, '\n'), ts);
            let (g2, h2) = observed_text(g, h, text, ts);
            &&& g2.mode == ObserveMode::Outside
            &&& g2.self_name == g1.self_name
            &&& g1.mode == ObserveMode::Outside ==> h2 == h1
            &&& g1.mode == ObserveMode::Users ==> h2 == Hub {
                observed_users: g1.users.filter(
                    |u: (Seq<char>, Seq<char>)| u.0 != g1.self_name,
                ),
                ..h1
            }
            &&& g1.mode == ObserveMode::Rooms ==> h2 == Hub { observed_rooms: g1.rooms, ..h1 }
        }),
{
    let g1 = observed_lines(g, h, pieces(text, '\n'), ts).0;
    assert(is_other(g1.self_name) =~= |u: (Seq<char>, Seq<char>)| u.0 != g1.self_name);
}

/// A frame is taken in where the count of messages has room for its lines.
pub proof fn law_frames_fit(o: Outlook, h: Hub, payload: Seq<u8>)
    requires
        h.total_messages + pieces(text_of(payload), '\n').len() <= u64::MAX,
    ensures
        frame_fits(o, h, payload),
{
    lemma_few_activities(o.gathering.mode, pieces(text_of(payload), '\n'));
}

proof fn lemma_few_activities(mode: ObserveMode, raws: Seq<Seq<char>>)
    ensures
        activity(mode, raws).1 <= raws.len(),
    decreases raws.len(),
{
    if raws.len() > 0 {
        lemma_few_activities(mode, raws.drop_last());
    }
}

/// A frame is its text, decoded; the observer itself keeps its address, its
/// name, its token and its pauses.
pub proof fn law_frames_are_texts(o: Outlook, h: Hub, payload: Seq<u8>, ts: i64)
    requires
        frame_fits(o, h, payload),
    ensures
        ({
            let (o1, h1) = observe_frame(o, h, payload, ts);
            &&& (o1.gathering, h1) == observed_text(o.gathering, h, text_of(payload), ts)
            &&& o1 == Outlook { gathering: o1.gathering, ..o }
        }),
{
}

// ---------------------------------------------------------------------------
// What the observer does
// ---------------------------------------------------------------------------

/// A new observer has the address, the name and the token that were given, and
/// has seen nothing.
pub proof fn law_an_observer_starts(addr: Seq<char>, username: Seq<char>, token: Seq<char>)
    ensures
        new_outlook(addr, username, token) == (Outlook {
            addr,
            username,
            admin_token: token,
            backoff_ms: 500,
            ask_rooms: false,
            gathering: Gathering {
                self_name: username,
                mode: ObserveMode::Outside,
                users: Seq::empty(),
                rooms: Seq::empty(),
            },
        }),
{
}

/// The observer says in the log where it connects and under which name, sends
/// that name once the stream is open, and then says that it is connected and
/// starts with no list and the users to ask for first.
pub proof fn law_the_observer_connects(o: Outlook, h: Hub, ts: i64)
    ensures
        observe_step(o, h, ObserveEv::Start, ts) == (
            o,
            logged(h, "observe: connecting to "@ + o.addr + " as "@ + o.username, ts),
            seq![ObserveAct::Connect],
        ),
        observe_step(o, h, ObserveEv::Connected, ts) == (
            Outlook { backoff_ms: 500, ..o },
            h,
            seq![ObserveAct::SendName { text: o.username }],
        ),
        observe_step(o, h, ObserveEv::NameSent, ts) == (
            Outlook {
                ask_rooms: false,
                gathering: Gathering {
                    self_name: o.username,
                    mode: ObserveMode::Outside,
                    users: Seq::empty(),
                    rooms: Seq::empty(),
                },
                ..o
            },
            logged(h, "observe: connected to "@ + o.addr, ts),
            seq![ObserveAct::Listen],
        ),
{
}

/// A tick asks for the users or the rooms in turn, and changes nothing else. A
/// written request is followed by listening.
pub proof fn law_the_observer_polls(o: Outlook, h: Hub, ts: i64)
    ensures
        observe_step(o, h, ObserveEv::Tick, ts) == (
            Outlook { ask_rooms: !o.ask_rooms, ..o },
            h,
            seq![
                ObserveAct::Send {
                    text: if o.ask_rooms {
                        "/rooms"@
                    } else {
                        "/list"@
                    },
                },
            ],
        ),
        observe_step(o, h, ObserveEv::Written, ts) == (o, h, seq![ObserveAct::Listen]),
{
}

/// After a failure the observer starts anew: after the pause that was due where
/// it could not connect, the next one twice as long, ten seconds at most; at
/// once where its name could not be sent; after a short pause where the
/// connection was lost. What failed is in the log, but for a failed write.
pub proof fn law_the_observer_starts_anew(o: Outlook, h: Hub, error: Seq<char>, ts: i64)
    ensures
        observe_step(o, h, ObserveEv::ConnectFailed { error }, ts) == (
            Outlook {
                backoff_ms: if o.backoff_ms <= 5000 {
                    (2 * o.backoff_ms) as u64
                } else {
                    10000
                },
                ..o
            },
            logged(h, "observe: connect failed: "@ + error, ts),
            seq![ObserveAct::Sleep { ms: o.backoff_ms }, ObserveAct::Restart],
        ),
        observe_step(o, h, ObserveEv::NameFailed, ts) == (
            o,
            logged(h, "observe: handshake failed"@, ts),
            seq![ObserveAct::Restart],
        ),
        observe_step(o, h, ObserveEv::WriteFailed, ts) == (
            o,
            h,
            seq![ObserveAct::Sleep { ms: 800 }, ObserveAct::Restart],
        ),
        observe_step(o, h, ObserveEv::Closed, ts) == (
            o,
            logged(h, "observe: upstream closed"@, ts),
            seq![ObserveAct::Sleep { ms: 800 }, ObserveAct::Restart],
        ),
{
}

/// A command of the administrator goes upstream behind the token, without the
/// white space around it, and is logged once it was written; without a token it
/// is refused, and the log says how to set one. When the dashboard is gone the
/// observer stops.
pub proof fn law_admin_commands_go_upstream(
    o: Outlook,
    h: Hub,
    lead: Seq<char>,
    cmd: Seq<char>,
    trail: Seq<char>,
    ts: i64,
)
    requires
        crate::commands::is_blank(lead),
        crate::commands::is_blank(trail),
        is_tight(cmd),
    ensures
        o.admin_token.len() > 0 ==> observe_step(
            o,
            h,
            ObserveEv::Admin { cmd: Some(lead + cmd + trail) },
            ts,
        ) == (
            o,
            h,
            seq![
                ObserveAct::SendAdmin { text: "/admin "@ + o.admin_token + " "@ + cmd, cmd },
            ],
        ),
        o.admin_token.len() == 0 ==> observe_step(
            o,
            h,
            ObserveEv::Admin { cmd: Some(lead + cmd + trail) },
            ts,
        ) == (
            o,
            logged(h, "[admin] refused (set VECTORCOM_ADMIN_TOKEN to enable): "@ + cmd, ts),
            seq![ObserveAct::Listen],
        ),
        observe_step(o, h, ObserveEv::AdminWritten { sent: cmd }, ts) == (
            o,
            logged(h, "[admin] sent: "@ + cmd, ts),
            seq![ObserveAct::Listen],
        ),
        observe_step(o, h, ObserveEv::Admin { cmd: None }, ts) == (o, h, seq![ObserveAct::Stop]),
{
    crate::commands::law_trimming_finds_the_core(lead, cmd, trail);
}

} // verus!
