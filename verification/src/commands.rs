//! Laws on what lines ask for, and on what the client writes for a request.

use vstd::prelude::*;
use vstd::utf8::encode_utf8;

use crate::connection::{net_step, new_link, ConnStatus, Link, NetAct, NetEv};
use crate::journey::{
    is_whole_line, law_cipher_carries_text, law_requests_reach_the_server, lemma_trimmed_is_tight,
    off_the_wire, on_the_wire,
};
use crate::net::request_line;
use crate::protocol::{ClientMsg, ServerMsg};
use crate::roundtrip::{is_tight, lemma_first_char, lemma_not_prefix, lemma_prefix, lemma_tight};
use crate::session::text_requests;
use crate::text::{
    begins_with, first_at, first_match, is_space, lemma_match_in_range, occurs_at, trimmed,
    trimmed_end, trimmed_start, without_prefix,
};
use crate::wire::{client_request, command_of};

verus! {

// ---------------------------------------------------------------------------
// White space around a line
// ---------------------------------------------------------------------------

/// Whether a text is white space throughout.
pub open spec fn is_blank(s: Seq<char>) -> bool {
    forall|i: int| 0 <= i < s.len() ==> is_space(#[trigger] s[i])
}

/// White space in front of a text goes with its own.
pub proof fn lemma_lead_goes(a: Seq<char>, s: Seq<char>)
    requires
        is_blank(a),
    ensures
        trimmed_start(a + s) == trimmed_start(s),
    decreases a.len(),
{
    if a.len() == 0 {
        assert(a + s =~= s);
    } else {
        assert(is_space(a[0]));
        assert((a + s).first() == a[0]);
        assert((a + s).drop_first() =~= a.drop_first() + s);
        assert forall|i: int| 0 <= i < a.drop_first().len() implies is_space(
            #[trigger] a.drop_first()[i],
        ) by {
            assert(is_space(a[i + 1]));
        }
        lemma_lead_goes(a.drop_first(), s);
    }
}

proof fn lemma_trail_goes(s: Seq<char>, b: Seq<char>)
    requires
        is_blank(b),
    ensures
        trimmed_end(s + b) == trimmed_end(s),
    decreases b.len(),
{
    if b.len() == 0 {
        assert(s + b =~= s);
    } else {
        assert(is_space(b[b.len() - 1]));
        assert((s + b).last() == b[b.len() - 1]);
        assert((s + b).drop_last() =~= s + b.drop_last());
        assert forall|i: int| 0 <= i < b.drop_last().len() implies is_space(
            #[trigger] b.drop_last()[i],
        ) by {
            assert(is_space(b[i]));
        }
        lemma_trail_goes(s, b.drop_last());
    }
}

/// Trimming takes the white space around a text and nothing else.
pub proof fn law_trimming_finds_the_core(lead: Seq<char>, core: Seq<char>, trail: Seq<char>)
    requires
        is_blank(lead),
        is_blank(trail),
        is_tight(core),
    ensures
        trimmed(lead + core + trail) == core,
{
    assert(lead + core + trail =~= lead + (core + trail));
    lemma_lead_goes(lead, core + trail);
    if core.len() == 0 {
        assert(core + trail =~= trail + core);
        lemma_lead_goes(trail, core);
        assert(trimmed_start(core) == core);
        assert(trimmed_end(core) == core);
    } else {
        assert((core + trail).first() == core.first());
        assert(trimmed_start(core + trail) == core + trail);
        lemma_trail_goes(core, trail);
        lemma_tight(core);
        assert(trimmed_start(core) == core);
    }
}

proof fn lemma_lead(s: Seq<char>) -> (a: Seq<char>)
    ensures
        is_blank(a),
        s == a + trimmed_start(s),
    decreases s.len(),
{
    if s.len() > 0 && is_space(s.first()) {
        let a = lemma_lead(s.drop_first());
        let b = seq![s.first()] + a;
        assert forall|i: int| 0 <= i < b.len() implies is_space(#[trigger] b[i]) by {
            if i > 0 {
                assert(is_space(a[i - 1]));
            }
        }
        assert(s =~= b + trimmed_start(s)) by {
            assert(s =~= seq![s.first()] + s.drop_first());
        }
        b
    } else {
        assert(s =~= Seq::<char>::empty() + trimmed_start(s));
        Seq::empty()
    }
}

proof fn lemma_trail(s: Seq<char>) -> (b: Seq<char>)
    ensures
        is_blank(b),
        s == trimmed_end(s) + b,
    decreases s.len(),
{
    if s.len() > 0 && is_space(s.last()) {
        let a = lemma_trail(s.drop_last());
        let b = a.push(s.last());
        assert forall|i: int| 0 <= i < b.len() implies is_space(#[trigger] b[i]) by {
            if i < a.len() {
                assert(is_space(a[i]));
            }
        }
        assert(s =~= trimmed_end(s) + b) by {
            assert(s =~= s.drop_last().push(s.last()));
        }
        b
    } else {
        assert(s =~= trimmed_end(s) + Seq::<char>::empty());
        Seq::empty()
    }
}

/// Every text is its trimmed text with white space around it.
pub proof fn law_trimming_loses_white_space_only(s: Seq<char>) -> (r: (Seq<char>, Seq<char>))
    ensures
        is_blank(r.0),
        is_blank(r.1),
        s == r.0 + trimmed(s) + r.1,
        is_tight(trimmed(s)),
{
    let a = lemma_lead(s);
    let b = lemma_trail(trimmed_start(s));
    assert(s =~= a + trimmed(s) + b);
    lemma_trimmed_is_tight(s);
    (a, b)
}

// ---------------------------------------------------------------------------
// Lines in
// ---------------------------------------------------------------------------

/// A private message reads the same under both of its command words: the name
/// is the word after the command, and the text is all that follows the space
/// after the name. White space around the line does not matter.
pub proof fn law_private_messages_are_read(
    lead: Seq<char>,
    to: Seq<char>,
    text: Seq<char>,
    trail: Seq<char>,
)
    requires
        is_blank(lead),
        is_blank(trail),
        to.len() > 0,
        !to.contains(' '),
        text.len() > 0,
        !is_space(text.last()),
    ensures
        client_request(lead + ("/msg "@ + to + " "@ + text) + trail) == (ClientMsg::Pm {
            to,
            text,
        }),
        client_request(lead + ("/pm "@ + to + " "@ + text) + trail) == (ClientMsg::Pm { to, text }),
{
    let m = "/msg "@ + to + " "@ + text;
    let p = "/pm "@ + to + " "@ + text;
    lemma_message_line("/msg "@, to, text);
    lemma_message_line("/pm "@, to, text);
    law_trimming_finds_the_core(lead, m, trail);
    law_trimming_finds_the_core(lead, p, trail);
    lemma_message_command(to, text);
    lemma_pm_command(to, text);
}

/// The line of a private message, behind either command word.
proof fn lemma_message_line(w: Seq<char>, to: Seq<char>, text: Seq<char>)
    requires
        w == "/msg "@ || w == "/pm "@,
        text.len() > 0,
        !is_space(text.last()),
    ensures
        ({
            let line = w + to + " "@ + text;
            &&& is_tight(line)
            &&& line == w + (to + " "@ + text)
            &&& line.len() > 2
            &&& line[0] == '/'
            &&& line[1] == w[1]
        }),
{
    reveal_strlit("/msg ");
    reveal_strlit("/pm ");
    let line = w + to + " "@ + text;
    assert(line =~= w + (to + " "@ + text));
    assert(line[0] == '/');
    assert(line.last() == text.last());
}

/// What follows the name in a private message is its text.
proof fn lemma_message_parts(to: Seq<char>, text: Seq<char>)
    requires
        !to.contains(' '),
    ensures
        first_match(to + " "@ + text, " "@) == Some(to.len() as int),
        (to + " "@ + text).take(to.len() as int) == to,
        (to + " "@ + text).skip(to.len() as int + " "@.len()) == text,
{
    reveal_strlit(" ");
    assert(" "@ =~= seq![' ']);
    lemma_first_char(to, ' ', " "@, text);
}

/// A line that begins with a slash and `c` is no other command than one that
/// begins so.
proof fn lemma_second_letter(line: Seq<char>, c: char)
    requires
        line.len() > 2,
        line[1] == c,
        c == 'm' || c == 'p',
    ensures
        line != "/list"@ && line != "/users"@ && line != "/rooms"@ && line != "/quit"@ && line
            != "/exit"@,
        without_prefix(line, "/join "@) is None,
        without_prefix(line, "/block "@) is None,
        without_prefix(line, "/unblock "@) is None,
        c == 'm' ==> without_prefix(line, "/pm "@) is None,
{
    reveal_strlit("/list");
    reveal_strlit("/users");
    reveal_strlit("/rooms");
    reveal_strlit("/quit");
    reveal_strlit("/exit");
    reveal_strlit("/join ");
    reveal_strlit("/block ");
    reveal_strlit("/unblock ");
    reveal_strlit("/pm ");
    lemma_not_prefix(line, "/join "@, 1);
    lemma_not_prefix(line, "/block "@, 1);
    lemma_not_prefix(line, "/unblock "@, 1);
    if c == 'm' {
        lemma_not_prefix(line, "/pm "@, 1);
    }
}

proof fn lemma_message_command(to: Seq<char>, text: Seq<char>)
    requires
        to.len() > 0,
        !to.contains(' '),
        text.len() > 0,
        !is_space(text.last()),
    ensures
        command_of("/msg "@ + to + " "@ + text) == Some(ClientMsg::Pm { to, text }),
{
    let line = "/msg "@ + to + " "@ + text;
    let rest = to + " "@ + text;
    lemma_message_line("/msg "@, to, text);
    assert("/msg "@[1] == 'm') by {
        reveal_strlit("/msg ");
    }
    lemma_second_letter(line, 'm');
    lemma_prefix("/msg "@, rest);
    lemma_message_parts(to, text);
}

proof fn lemma_pm_command(to: Seq<char>, text: Seq<char>)
    requires
        to.len() > 0,
        !to.contains(' '),
        text.len() > 0,
        !is_space(text.last()),
    ensures
        command_of("/pm "@ + to + " "@ + text) == Some(ClientMsg::Pm { to, text }),
{
    let line = "/pm "@ + to + " "@ + text;
    let rest = to + " "@ + text;
    lemma_message_line("/pm "@, to, text);
    assert("/pm "@[1] == 'p') by {
        reveal_strlit("/pm ");
    }
    lemma_second_letter(line, 'p');
    lemma_prefix("/pm "@, rest);
    lemma_message_parts(to, text);
}

/// The words for the lists and for the end, with white space around them or
/// without, read as what they say.
pub proof fn law_short_commands_are_read(lead: Seq<char>, trail: Seq<char>)
    requires
        is_blank(lead),
        is_blank(trail),
    ensures
        client_request(lead + "/list"@ + trail) == ClientMsg::ListUsers,
        client_request(lead + "/users"@ + trail) == ClientMsg::ListUsers,
        client_request(lead + "/rooms"@ + trail) == ClientMsg::ListRooms,
        client_request(lead + "/quit"@ + trail) == ClientMsg::Quit,
        client_request(lead + "/exit"@ + trail) == ClientMsg::Quit,
{
    reveal_strlit("/list");
    reveal_strlit("/users");
    reveal_strlit("/rooms");
    reveal_strlit("/quit");
    reveal_strlit("/exit");
    law_trimming_finds_the_core(lead, "/list"@, trail);
    law_trimming_finds_the_core(lead, "/users"@, trail);
    law_trimming_finds_the_core(lead, "/rooms"@, trail);
    law_trimming_finds_the_core(lead, "/quit"@, trail);
    law_trimming_finds_the_core(lead, "/exit"@, trail);
    assert("/list"@[1] == 'l' && "/users"@[1] == 'u' && "/rooms"@[1] == 'r' && "/quit"@[1] == 'q'
        && "/exit"@[1] == 'e');
}

/// A join, a block or an unblock reads as that of the name after the command
/// word, without the white space around the name.
#[verifier::rlimit(40)]
pub proof fn law_named_commands_are_read(
    lead: Seq<char>,
    pad: Seq<char>,
    name: Seq<char>,
    trail: Seq<char>,
)
    requires
        is_blank(lead),
        is_blank(pad),
        is_blank(trail),
        name.len() > 0,
        is_tight(name),
    ensures
        client_request(lead + ("/join "@ + pad + name) + trail) == (ClientMsg::Join { room: name }),
        client_request(lead + ("/block "@ + pad + name) + trail) == (ClientMsg::Block {
            username: name,
        }),
        client_request(lead + ("/unblock "@ + pad + name) + trail) == (ClientMsg::Unblock {
            username: name,
        }),
{
    let none = Seq::<char>::empty();
    let rest = pad + name;
    assert(pad + name + none =~= rest);
    law_trimming_finds_the_core(pad, name, none);
    lemma_named_line("/join "@, pad, name);
    lemma_named_line("/block "@, pad, name);
    lemma_named_line("/unblock "@, pad, name);
    law_trimming_finds_the_core(lead, "/join "@ + pad + name, trail);
    law_trimming_finds_the_core(lead, "/block "@ + pad + name, trail);
    law_trimming_finds_the_core(lead, "/unblock "@ + pad + name, trail);
    lemma_named_prefixes(rest);
}

/// The line of a command with a name.
proof fn lemma_named_line(w: Seq<char>, pad: Seq<char>, name: Seq<char>)
    requires
        w == "/join "@ || w == "/block "@ || w == "/unblock "@,
        name.len() > 0,
        is_tight(name),
    ensures
        is_tight(w + pad + name),
        w + pad + name == w + (pad + name),
{
    reveal_strlit("/join ");
    reveal_strlit("/block ");
    reveal_strlit("/unblock ");
    let line = w + pad + name;
    assert(line =~= w + (pad + name));
    assert(line.first() == '/');
    assert(line.last() == name.last());
}

/// The commands with a name, told apart.
proof fn lemma_named_prefixes(rest: Seq<char>)
    ensures
        without_prefix("/join "@ + rest, "/join "@) == Some(rest),
        without_prefix("/block "@ + rest, "/join "@) is None,
        without_prefix("/block "@ + rest, "/block "@) == Some(rest),
        without_prefix("/unblock "@ + rest, "/join "@) is None,
        without_prefix("/unblock "@ + rest, "/block "@) is None,
        without_prefix("/unblock "@ + rest, "/unblock "@) == Some(rest),
        forall|w: Seq<char>|
            #![trigger (w + rest)]
            w == "/join "@ || w == "/block "@ || w == "/unblock "@ ==> w + rest != "/list"@ && w
                + rest != "/users"@ && w + rest != "/rooms"@ && w + rest != "/quit"@ && w + rest
                != "/exit"@,
{
    reveal_strlit("/list");
    reveal_strlit("/users");
    reveal_strlit("/rooms");
    reveal_strlit("/quit");
    reveal_strlit("/exit");
    reveal_strlit("/join ");
    reveal_strlit("/block ");
    reveal_strlit("/unblock ");
    lemma_prefix("/join "@, rest);
    lemma_prefix("/block "@, rest);
    lemma_prefix("/unblock "@, rest);
    assert(("/block "@ + rest)[1] == 'b');
    assert(("/unblock "@ + rest)[1] == 'u');
    lemma_not_prefix("/block "@ + rest, "/join "@, 1);
    lemma_not_prefix("/unblock "@ + rest, "/join "@, 1);
    lemma_not_prefix("/unblock "@ + rest, "/block "@, 1);
    assert forall|w: Seq<char>|
        #![trigger (w + rest)]
        w == "/join "@ || w == "/block "@ || w == "/unblock "@ implies w + rest != "/list"@ && w
        + rest != "/users"@ && w + rest != "/rooms"@ && w + rest != "/quit"@ && w + rest
        != "/exit"@ by {
        let s = w + rest;
        assert(s[1] == w[1] && s[2] == w[2]);
        assert("/list"@[1] == 'l' && "/users"@[2] == 's' && "/rooms"@[1] == 'r' && "/quit"@[1]
            == 'q' && "/exit"@[1] == 'e');
    }
}

/// No line reads as a command but by what it says, and what is no command is
/// chat, with the line as it is.
#[verifier::rlimit(40)]
pub proof fn law_no_other_line_is_a_command(line: Seq<char>)
    ensures
        ({
            let t = trimmed(line);
            match client_request(line) {
                ClientMsg::Hello { username, version } => false,
                ClientMsg::Say { text } => text == line,
                ClientMsg::Join { room } => exists|r: Seq<char>|
                    t == "/join "@ + r && room == #[trigger] trimmed(r),
                ClientMsg::ListUsers => t == "/list"@ || t == "/users"@,
                ClientMsg::ListRooms => t == "/rooms"@,
                ClientMsg::Pm { to, text } => to.len() > 0 && !to.contains(' ') && text.len() > 0
                    && (t == "/pm "@ + to + " "@ + text || t == "/msg "@ + to + " "@ + text),
                ClientMsg::Block { username } => exists|r: Seq<char>|
                    t == "/block "@ + r && username == #[trigger] trimmed(r),
                ClientMsg::Unblock { username } => exists|r: Seq<char>|
                    t == "/unblock "@ + r && username == #[trigger] trimmed(r),
                ClientMsg::Quit => t == "/quit"@ || t == "/exit"@,
            }
        }),
{
    let t = trimmed(line);
    reveal_strlit("/list");
    reveal_strlit("/users");
    reveal_strlit("/rooms");
    reveal_strlit("/quit");
    reveal_strlit("/exit");
    assert("/list"@[1] == 'l' && "/users"@[1] == 'u' && "/rooms"@[1] == 'r' && "/quit"@[1] == 'q'
        && "/exit"@[1] == 'e');
    lemma_splits(t, "/join "@);
    lemma_splits(t, "/block "@);
    lemma_splits(t, "/unblock "@);
    lemma_splits(t, "/pm "@);
    lemma_splits(t, "/msg "@);
    if let Some(r) = without_prefix(t, "/pm "@) {
        lemma_at_space(r);
    }
    if let Some(r) = without_prefix(t, "/msg "@) {
        lemma_at_space(r);
    }
    if let ClientMsg::Pm { to, text } = client_request(line) {
        let rest = to + " "@ + text;
        assert("/pm "@ + to + " "@ + text =~= "/pm "@ + rest);
        assert("/msg "@ + to + " "@ + text =~= "/msg "@ + rest);
    }
}

proof fn lemma_splits(t: Seq<char>, p: Seq<char>)
    ensures
        without_prefix(t, p) matches Some(r) ==> t == p + r,
{
    if begins_with(t, p) {
        assert(t =~= t.take(p.len() as int) + t.skip(p.len() as int));
    }
}

proof fn lemma_at_space(r: Seq<char>)
    ensures
        first_match(r, " "@) matches Some(i) ==> 0 <= i < r.len() && r == r.take(i) + " "@ + r.skip(
            i + " "@.len(),
        ) && !r.take(i).contains(' '),
{
    reveal_strlit(" ");
    let p = " "@;
    assert(p =~= seq![' ']);
    if let Some(i) = first_match(r, p) {
        lemma_match_in_range(r, p);
        assert(first_at(r, p, i));
        assert(r.subrange(i, i + 1) == p);
        assert(r[i] == r.subrange(i, i + 1)[0]);
        lemma_rejoined(r, i);
        lemma_no_earlier(r, i);
    }
}

proof fn lemma_rejoined(r: Seq<char>, i: int)
    requires
        0 <= i < r.len(),
    ensures
        r == r.take(i) + seq![r[i]] + r.skip(i + 1),
{
}

proof fn lemma_no_earlier(r: Seq<char>, i: int)
    requires
        0 <= i < r.len(),
        first_at(r, seq![' '], i),
    ensures
        !r.take(i).contains(' '),
{
    let to = r.take(i);
    if to.contains(' ') {
        let k = to.index_of(' ');
        assert(r.subrange(k, k + 1) =~= seq![' ']);
        assert(occurs_at(r, seq![' '], k));
    }
}

// ---------------------------------------------------------------------------
// Requests out
// ---------------------------------------------------------------------------

/// For a request that has a line, the client writes that line once, under the
/// cipher: the bytes of the action, deciphered and decoded, are the line. It
/// stops after a quit and after nothing else. For a request without a line it
/// writes nothing. Its own state stays as it is.
pub proof fn law_the_request_is_written(l: Link, msg: ClientMsg, ts: i64)
    ensures
        net_step(l, NetEv::Outbound { msg: Some(msg) }, ts).0 == l,
        request_line(msg) matches Some(line) ==> {
            let acts = net_step(l, NetEv::Outbound { msg: Some(msg) }, ts).1;
            &&& acts.len() == 1
            &&& (acts[0] matches NetAct::Write { bytes, quit } && off_the_wire(bytes) == line
                && quit == (msg == ClientMsg::Quit))
        },
        request_line(msg) is None ==> net_step(l, NetEv::Outbound { msg: Some(msg) }, ts).1
            == seq![NetAct::Listen],
{
    if let Some(line) = request_line(msg) {
        law_cipher_carries_text(line);
        assert(on_the_wire(line) == crate::protocol::xored(encode_utf8(line)));
    }
}

/// From the bytes that the client writes for a request, the server reads that
/// request and nothing else.
pub proof fn law_what_is_written_is_read(l: Link, msg: ClientMsg, ts: i64)
    requires
        is_whole_line(msg),
    ensures
        ({
            let acts = net_step(l, NetEv::Outbound { msg: Some(msg) }, ts).1;
            &&& acts.len() == 1
            &&& (acts[0] matches NetAct::Write { bytes, quit } && text_requests(off_the_wire(bytes))
                == seq![msg])
        }),
{
    law_requests_reach_the_server(msg);
    law_the_request_is_written(l, msg, ts);
    law_cipher_carries_text(request_line(msg).unwrap());
}

/// The line of each request, as it stands on the wire.
pub proof fn law_lines_of_requests(name: Seq<char>, text: Seq<char>, version: u32)
    ensures
        request_line(ClientMsg::Say { text }) == Some(text),
        request_line(ClientMsg::Join { room: name }) == Some("/join "@ + name),
        request_line(ClientMsg::ListUsers) == Some("/list"@),
        request_line(ClientMsg::ListRooms) == Some("/rooms"@),
        request_line(ClientMsg::Pm { to: name, text }) == Some("/pm "@ + name + " "@ + text),
        request_line(ClientMsg::Block { username: name }) == Some("/block "@ + name),
        request_line(ClientMsg::Unblock { username: name }) == Some("/unblock "@ + name),
        request_line(ClientMsg::Quit) == Some("/quit"@),
        request_line(ClientMsg::Hello { username: name, version }) is None,
{
}

// ---------------------------------------------------------------------------
// The connection
// ---------------------------------------------------------------------------

/// A new connection is to the address and under the name that were given; it was
/// never open, and waits half a second after a first failure.
pub proof fn law_a_connection_starts(addr: Seq<char>, username: Seq<char>)
    ensures
        new_link(addr, username) == (Link { addr, username, backoff_ms: 500, first_connect: true }),
{
}

/// Once the stream is open the name is sent, plain, and the pause for the next
/// failure is half a second again.
pub proof fn law_the_name_is_sent(l: Link, ts: i64)
    ensures
        net_step(l, NetEv::Connected, ts).1 == seq![
            NetAct::SendName { bytes: encode_utf8(l.username) },
        ],
        net_step(l, NetEv::Connected, ts).0 == (Link { backoff_ms: 500, ..l }),
{
}

/// Once the name is sent the client is online, reads and listens. The first time
/// the user is welcomed to the default room, with the address; later the user is
/// told that the connection is back.
pub proof fn law_the_user_is_greeted(l: Link, ts: i64)
    ensures
        net_step(l, NetEv::NameSent, ts).0 == (Link { first_connect: false, ..l }),
        ({
            let acts = net_step(l, NetEv::NameSent, ts).1;
            &&& acts.len() == 4
            &&& acts[0] == NetAct::Status { status: ConnStatus::Online }
            &&& acts[2] == NetAct::StartReader
            &&& acts[3] == NetAct::Listen
            &&& l.first_connect ==> acts[1] == NetAct::Deliver {
                msg: ServerMsg::Welcome {
                    username: l.username,
                    room: "general"@,
                    motd: "connected to "@ + l.addr + " (xor-encrypted)"@,
                },
            }
            &&& !l.first_connect ==> acts[1] == NetAct::Deliver {
                msg: ServerMsg::System { text: "reconnected"@, ts },
            }
        }),
{
}

/// After a failure the user sees that the client reconnects and why, and the
/// last things done are to show that it connects and to connect. A failed
/// attempt is followed by the pause that was due, and the next pause is twice as
/// long, ten seconds at most. A lost connection stops the reader first and is
/// followed by a pause of less than a second.
pub proof fn law_failures_are_retried(l: Link, error: Seq<char>, ts: i64)
    ensures
        ({
            let reconnecting = NetAct::Status { status: ConnStatus::Reconnecting };
            let connecting = NetAct::Status { status: ConnStatus::Connecting };
            let lost = seq![
                NetAct::AbortReader,
                reconnecting,
                NetAct::Deliver {
                    msg: ServerMsg::Error { text: "lost connection, retrying..."@ },
                },
                NetAct::Sleep { ms: 800 },
                connecting,
                NetAct::Connect,
            ];
            &&& net_step(l, NetEv::Start, ts) == (l, seq![connecting, NetAct::Connect])
            &&& net_step(l, NetEv::ConnectFailed { error }, ts).1 == seq![
                reconnecting,
                NetAct::Deliver { msg: ServerMsg::Error { text: "connect: "@ + error } },
                NetAct::Sleep { ms: l.backoff_ms },
                connecting,
                NetAct::Connect,
            ]
            &&& net_step(l, NetEv::ConnectFailed { error }, ts).0 == Link {
                backoff_ms: if l.backoff_ms <= 5000 {
                    (2 * l.backoff_ms) as u64
                } else {
                    10000
                },
                ..l
            }
            &&& net_step(l, NetEv::NameFailed, ts) == (
                l,
                seq![
                    reconnecting,
                    NetAct::Deliver {
                        msg: ServerMsg::Error { text: "username send failed, retrying..."@ },
                    },
                    connecting,
                    NetAct::Connect,
                ],
            )
            &&& net_step(l, NetEv::WriteFailed, ts) == (l, lost)
            &&& net_step(l, NetEv::ReaderEnded, ts) == (l, lost)
        }),
{
    let connecting = NetAct::Status { status: ConnStatus::Connecting };
    assert(net_step(l, NetEv::Start, ts).1 =~= seq![connecting, NetAct::Connect]);
    assert(net_step(l, NetEv::WriteFailed, ts).1.len() == 6);
    assert(net_step(l, NetEv::NameFailed, ts).1.len() == 4);
    assert(net_step(l, NetEv::WriteFailed, ts).1 =~= seq![
        NetAct::AbortReader,
        NetAct::Status { status: ConnStatus::Reconnecting },
        NetAct::Deliver { msg: ServerMsg::Error { text: "lost connection, retrying..."@ } },
        NetAct::Sleep { ms: 800 },
        connecting,
        NetAct::Connect,
    ]);
    assert(net_step(l, NetEv::NameFailed, ts).1 =~= seq![
        NetAct::Status { status: ConnStatus::Reconnecting },
        NetAct::Deliver { msg: ServerMsg::Error { text: "username send failed, retrying..."@ } },
        connecting,
        NetAct::Connect,
    ]);
}

/// After a written request the client listens again. After a written quit, and
/// when the user interface is gone, it stops for good; a quit shows the
/// connection as closed and stops the reader first.
pub proof fn law_the_connection_ends(l: Link, ts: i64)
    ensures
        net_step(l, NetEv::Written { quit: false }, ts) == (l, seq![NetAct::Listen]),
        net_step(l, NetEv::Written { quit: true }, ts) == (
            l,
            seq![
                NetAct::Status { status: ConnStatus::Closed },
                NetAct::AbortReader,
                NetAct::Stop,
            ],
        ),
        net_step(l, NetEv::Outbound { msg: None }, ts) == (l, seq![NetAct::Stop]),
{
}

} // verus!
