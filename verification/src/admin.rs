//! Commands that the administrator types on the dashboard.

use vstd::prelude::*;

use crate::hub::{is_announcement, logged, Hub, Post};
use crate::protocol::{now_ts, ServerMsg};
use crate::state::{posts, Delivery, ServerState};
use crate::text::{strip_prefix, trim, trimmed, without_prefix};
use crate::text_map::TextMap;

verus! {

/// What a command asks for.
pub enum AdminAsk {
    Say { text: Seq<char> },
    Block { user: Seq<char>, on: bool },
    Nothing,
}

/// What the command `cmd` asks for. `block` and `unblock` are special; anything
/// else, with or without `say ` before it, is told to every client as it stands.
pub open spec fn admin_ask(cmd: Seq<char>) -> AdminAsk {
    let t = trimmed(cmd);
    if let Some(rest) = without_prefix(t, "say "@) {
        AdminAsk::Say { text: rest }
    } else if let Some(user) = without_prefix(t, "block "@) {
        AdminAsk::Block { user: trimmed(user), on: true }
    } else if let Some(user) = without_prefix(t, "unblock "@) {
        AdminAsk::Block { user: trimmed(user), on: false }
    } else if t.len() > 0 {
        AdminAsk::Say { text: t }
    } else {
        AdminAsk::Nothing
    }
}

/// The state after a command was carried out at `ts`.
pub open spec fn after_admin(h: Hub, ask: AdminAsk, ts: i64) -> Hub {
    match ask {
        AdminAsk::Say { text } => logged(h, "[admin] say: "@ + text, ts),
        AdminAsk::Block { user, on } => logged(
            h,
            (if on {
                "[admin] blocked: "@
            } else {
                "[admin] unblocked: "@
            }) + user,
            ts,
        ),
        AdminAsk::Nothing => h,
    }
}

// ---------------------------------------------------------------------------
// Muted users
// ---------------------------------------------------------------------------

/// The users whom the administrator has blocked from sending messages.
pub struct Muted {
    names: TextMap<()>,
}

impl View for Muted {
    type V = Set<Seq<char>>;

    closed spec fn view(&self) -> Set<Seq<char>> {
        self.names@.dom()
    }
}

/// The muted users after `user` was blocked or unblocked.
pub open spec fn after_mute(muted: Set<Seq<char>>, user: Seq<char>, on: bool) -> Set<Seq<char>> {
    if on {
        muted.insert(user)
    } else {
        muted.remove(user)
    }
}

impl Muted {
    /// Whether the list is in order.
    pub closed spec fn wf(&self) -> bool {
        self.names.wf()
    }

    pub fn new() -> (r: Self)
        ensures
            r.wf(),
            r@ == Set::<Seq<char>>::empty(),
    {
        let r = Muted { names: TextMap::new() };
        assert(r@ =~= Set::<Seq<char>>::empty());
        r
    }

    /// Blocks or unblocks `user`.
    pub fn set(&mut self, user: String, on: bool)
        requires
            old(self).wf(),
        ensures
            final(self).wf(),
            final(self)@ == after_mute(old(self)@, user@, on),
    {
        let ghost name = user@;
        if on {
            self.names.insert(user, ());
        } else {
            let gone = self.names.remove(user.as_str());
        }
        assert(self@ =~= after_mute(old(self)@, name, on));
    }

    /// Whether the user called `name` is blocked.
    pub fn contains(&self, name: &str) -> (r: bool)
        requires
            self.wf(),
        ensures
            r == self@.contains(name@),
    {
        self.names.contains_key(name)
    }
}

// ---------------------------------------------------------------------------
// Carrying out a command
// ---------------------------------------------------------------------------

/// The muted users after a command was carried out.
pub open spec fn muted_after(muted: Set<Seq<char>>, ask: AdminAsk) -> Set<Seq<char>> {
    match ask {
        AdminAsk::Block { user, on } => after_mute(muted, user, on),
        _ => muted,
    }
}

/// Whether the deliveries are what comes of a command at `ts`.
pub open spec fn is_admin_outcome(list: Seq<Post>, h: Hub, ask: AdminAsk, ts: i64) -> bool {
    match ask {
        AdminAsk::Say { text } => is_announcement(list, h, ServerMsg::System { text, ts }),
        _ => list == Seq::<Post>::empty(),
    }
}

/// Carries out a command of the administrator of a standalone server at `ts`.
pub fn apply_admin_local_at(
    state: &mut ServerState,
    muted: &mut Muted,
    cmd: &str,
    ts: i64,
) -> (r: Vec<Delivery>)
    requires
        old(state).wf(),
        old(muted).wf(),
    ensures
        final(state).wf(),
        final(muted).wf(),
        final(state)@ == after_admin(old(state)@, admin_ask(cmd@), ts),
        final(muted)@ == muted_after(old(muted)@, admin_ask(cmd@)),
        is_admin_outcome(posts(r@), old(state)@, admin_ask(cmd@), ts),
{
    let nothing: Vec<Delivery> = Vec::new();
    assert(posts(nothing@) =~= Seq::<Post>::empty());
    let cmd = trim(cmd);
    if let Some(rest) = strip_prefix(cmd, "say ") {
        let deliveries = state.announce_at(rest.to_owned(), ts);
        state.log_at("[admin] say: ".to_owned().concat(rest), ts);
        deliveries
    } else if let Some(user) = strip_prefix(cmd, "block ") {
        let user = trim(user);
        muted.set(user.to_owned(), true);
        state.log_at("[admin] blocked: ".to_owned().concat(user), ts);
        nothing
    } else if let Some(user) = strip_prefix(cmd, "unblock ") {
        let user = trim(user);
        muted.set(user.to_owned(), false);
        state.log_at("[admin] unblocked: ".to_owned().concat(user), ts);
        nothing
    } else if !cmd.is_empty() {
        let deliveries = state.announce_at(cmd.to_owned(), ts);
        state.log_at("[admin] say: ".to_owned().concat(cmd), ts);
        deliveries
    } else {
        nothing
    }
}

/// Carries out a command of the administrator of a standalone server.
pub fn apply_admin_local(state: &mut ServerState, muted: &mut Muted, cmd: &str) -> (r: Vec<Delivery>)
    requires
        old(state).wf(),
        old(muted).wf(),
    ensures
        final(state).wf(),
        final(muted).wf(),
        final(muted)@ == muted_after(old(muted)@, admin_ask(cmd@)),
        exists|ts: i64|
            final(state)@ == #[trigger] after_admin(old(state)@, admin_ask(cmd@), ts)
                && is_admin_outcome(posts(r@), old(state)@, admin_ask(cmd@), ts),
{
    let ts = now_ts();
    apply_admin_local_at(state, muted, cmd, ts)
}

/// Unblocking a user undoes blocking them.
pub proof fn law_unblocking_undoes_blocking(muted: Set<Seq<char>>, user: Seq<char>)
    requires
        !muted.contains(user),
    ensures
        muted_after(
            muted_after(muted, AdminAsk::Block { user, on: true }),
            AdminAsk::Block { user, on: false },
        ) == muted,
{
    assert(muted.insert(user).remove(user) =~= muted);
}

} // verus!
