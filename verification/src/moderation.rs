//! Moderation: deputies are named, users are muted, unmuted and banned, and
//! display names are set, each by those whom the policy permits.

use crate::accounts::{rename, renamed};
use crate::api::{
    refused, BanUserRequest, Denial, Drawn, MuteUserRequest, Reply, ReplyView, SaveSet,
    SetDeputyAdminRequest, UnmuteUserRequest, UpdateUserDisplayNameRequest,
};
use crate::clock::{clamp_i64, later_by_minutes, MINUTE_MS};
use crate::models::{UserRole, UserView};
use crate::policy::{is_permitted, permitted, Action};
use crate::state::{cleaned, opt_str, AppState, AppStateView, Step};
use crate::text::{opt_chars, str_eq};
use crate::trusted::now_millis;
use crate::websocket::{Event, EventView};
use vstd::prelude::*;

verus! {

/// A change of role, as it is announced to the room.
#[derive(Debug)]
pub struct RoleChange {
    pub user_id: String,
    pub old_role: UserRole,
    pub new_role: UserRole,
}

/// A change of role, as the contracts see it.
pub struct RoleChangeView {
    pub user_id: Seq<char>,
    pub old_role: UserRole,
    pub new_role: UserRole,
}

impl View for RoleChange {
    type V = RoleChangeView;

    open spec fn view(&self) -> RoleChangeView {
        RoleChangeView { user_id: self.user_id@, old_role: self.old_role, new_role: self.new_role }
    }
}

impl AppStateView {
    /// Whether the user at `a` may take `action` on the user with id
    /// `target`.
    pub open spec fn allows(self, action: Action, a: int, target: Seq<char>) -> bool {
        permitted(action, self.users[a].role, self.role_of(target), self.users[a].id == target)
    }
}

impl AppState {
    /// Whether the user at `a` may take `action` on the user with id
    /// `target`. Returns the target's position where that is so.
    pub(crate) fn allows(&self, action: Action, a: usize, target: &str) -> (at: Option<usize>)
        requires
            a < self@.users.len(),
        ensures
            match at {
                Some(i) => self@.allows(action, a as int, target@) && self@.user_index(target@)
                    == Some(i as int) && i < self@.users.len() && self@.users[i as int].id
                    == target@,
                None => !self@.allows(action, a as int, target@) || self@.user_index(target@)
                    is None,
            },
    {
        let own = str_eq(self.users[a].id.as_str(), target);
        match self.find_user(target) {
            Some(i) => if is_permitted(action, self.users[a].role, Some(self.users[i].role), own) {
                Some(i)
            } else {
                None
            },
            None => None,
        }
    }
}

/// What the naming or unnaming of a deputy makes of the registry. Only the
/// administrator does this, and never to the administrator.
pub open spec fn set_deputy_admin_step(
    before: AppStateView,
    now: i64,
    token: Option<Seq<char>>,
    target: Seq<char>,
    is_deputy: bool,
) -> Step<EventView> {
    let s = cleaned(before, now);
    match (s.actor(token), s.user_index(target)) {
        (Some(a), Some(i)) => if s.allows(Action::SetDeputyAdmin, a, target) {
            let role = if is_deputy {
                UserRole::DeputyAdmin
            } else {
                UserRole::Member
            };
            Step {
                state: AppStateView {
                    users: s.users.update(i, UserView { role, ..s.users[i] }),
                    ..s
                },
                reply: ReplyView {
                    outcome: Ok(
                        EventView::RoleChanged(
                            RoleChangeView {
                                user_id: s.users[i].id,
                                old_role: s.users[i].role,
                                new_role: role,
                            },
                        ),
                    ),
                    save: SaveSet { users: true, ..SaveSet::spec_nothing() },
                },
            }
        } else {
            Step { state: s, reply: refused(Denial::Unauthorized) }
        },
        _ => Step { state: s, reply: refused(Denial::Unauthorized) },
    }
}

/// Names or unnames a deputy at the time `now`.
pub fn set_deputy_admin_at(
    state: &mut AppState,
    token: Option<&str>,
    body: &SetDeputyAdminRequest,
    now: i64,
) -> (reply: Reply<Event>)
    requires
        old(state)@.wf(),
    ensures
        final(state)@ == set_deputy_admin_step(
            old(state)@,
            now,
            opt_str(token),
            body.user_id@,
            body.is_deputy,
        ).state,
        reply@ == set_deputy_admin_step(
            old(state)@,
            now,
            opt_str(token),
            body.user_id@,
            body.is_deputy,
        ).reply,
        final(state)@.wf(),
{
    state.expire(now);
    let a = match state.actor(token) {
        None => {
            return Reply::refuse(Denial::Unauthorized);
        },
        Some(a) => a,
    };
    match state.allows(Action::SetDeputyAdmin, a, body.user_id.as_str()) {
        None => Reply::refuse(Denial::Unauthorized),
        Some(i) => {
            let mut user = state.users[i].clone();
            let role = if body.is_deputy {
                UserRole::DeputyAdmin
            } else {
                UserRole::Member
            };
            let change = RoleChange { user_id: user.id.clone(), old_role: user.role, new_role: role };
            user.role = role;
            state.change_user(i, user);
            Reply::done(Event::RoleChanged(change), SaveSet { users: true, ..SaveSet::nothing() })
        },
    }
}

/// Names or unnames a deputy. Reads the clock; the rest is
/// `set_deputy_admin_at`.
pub fn set_deputy_admin(state: &mut AppState, token: Option<&str>, body: &SetDeputyAdminRequest) -> (r:
    (Reply<Event>, Drawn))
    requires
        old(state)@.wf(),
    ensures
        final(state)@ == set_deputy_admin_step(
            old(state)@,
            r.1.now,
            opt_str(token),
            body.user_id@,
            body.is_deputy,
        ).state,
        r.0@ == set_deputy_admin_step(
            old(state)@,
            r.1.now,
            opt_str(token),
            body.user_id@,
            body.is_deputy,
        ).reply,
        final(state)@.wf(),
{
    let drawn = Drawn::at(now_millis());
    let reply = set_deputy_admin_at(state, token, body, drawn.now);
    (reply, drawn)
}

/// What a change of a user's mute makes of the registry: `until` is when the
/// mute ends, `None` where it is lifted.
pub open spec fn mute_step(
    before: AppStateView,
    now: i64,
    token: Option<Seq<char>>,
    target: Seq<char>,
    action: Action,
    until: Option<i64>,
) -> Step<()> {
    let s = cleaned(before, now);
    match (s.actor(token), s.user_index(target)) {
        (Some(a), Some(i)) => if s.allows(action, a, target) {
            Step {
                state: AppStateView {
                    users: s.users.update(i, UserView { muted_until: until, ..s.users[i] }),
                    ..s
                },
                reply: ReplyView {
                    outcome: Ok(()),
                    save: SaveSet { users: true, ..SaveSet::spec_nothing() },
                },
            }
        } else {
            Step { state: s, reply: refused(Denial::Unauthorized) }
        },
        _ => Step { state: s, reply: refused(Denial::Unauthorized) },
    }
}

/// What muting a user for `minutes` minutes makes of the registry. The mute
/// ends `minutes` minutes after `now`, held to the range of timestamps.
pub open spec fn mute_user_step(
    before: AppStateView,
    now: i64,
    token: Option<Seq<char>>,
    target: Seq<char>,
    minutes: i64,
) -> Step<()> {
    mute_step(
        before,
        now,
        token,
        target,
        Action::Mute,
        Some(clamp_i64(now + minutes * MINUTE_MS)),
    )
}

/// What unmuting a user makes of the registry.
pub open spec fn unmute_user_step(
    before: AppStateView,
    now: i64,
    token: Option<Seq<char>>,
    target: Seq<char>,
) -> Step<()> {
    mute_step(before, now, token, target, Action::Unmute, None)
}

fn set_mute(
    state: &mut AppState,
    token: Option<&str>,
    target: &str,
    now: i64,
    action: Action,
    until: Option<i64>,
) -> (reply: Reply<()>)
    requires
        old(state)@.wf(),
    ensures
        final(state)@ == mute_step(old(state)@, now, opt_str(token), target@, action, until).state,
        reply@ == mute_step(old(state)@, now, opt_str(token), target@, action, until).reply,
        final(state)@.wf(),
{
    state.expire(now);
    let a = match state.actor(token) {
        None => {
            return Reply::refuse(Denial::Unauthorized);
        },
        Some(a) => a,
    };
    match state.allows(action, a, target) {
        None => Reply::refuse(Denial::Unauthorized),
        Some(i) => {
            let mut user = state.users[i].clone();
            user.muted_until = until;
            state.change_user(i, user);
            Reply::done((), SaveSet { users: true, ..SaveSet::nothing() })
        },
    }
}

/// Mutes a user at the time `now`.
pub fn mute_user_at(state: &mut AppState, token: Option<&str>, body: &MuteUserRequest, now: i64) -> (reply:
    Reply<()>)
    requires
        old(state)@.wf(),
    ensures
        final(state)@ == mute_user_step(
            old(state)@,
            now,
            opt_str(token),
            body.user_id@,
            body.duration_minutes,
        ).state,
        reply@ == mute_user_step(
            old(state)@,
            now,
            opt_str(token),
            body.user_id@,
            body.duration_minutes,
        ).reply,
        final(state)@.wf(),
{
    let until = later_by_minutes(now, body.duration_minutes);
    set_mute(state, token, body.user_id.as_str(), now, Action::Mute, Some(until))
}

/// Mutes a user. Reads the clock; the rest is `mute_user_at`.
pub fn mute_user(state: &mut AppState, token: Option<&str>, body: &MuteUserRequest) -> (r: (
    Reply<()>,
    Drawn,
))
    requires
        old(state)@.wf(),
    ensures
        final(state)@ == mute_user_step(
            old(state)@,
            r.1.now,
            opt_str(token),
            body.user_id@,
            body.duration_minutes,
        ).state,
        r.0@ == mute_user_step(
            old(state)@,
            r.1.now,
            opt_str(token),
            body.user_id@,
            body.duration_minutes,
        ).reply,
        final(state)@.wf(),
{
    let drawn = Drawn::at(now_millis());
    let reply = mute_user_at(state, token, body, drawn.now);
    (reply, drawn)
}

/// Unmutes a user at the time `now`.
pub fn unmute_user_at(
    state: &mut AppState,
    token: Option<&str>,
    body: &UnmuteUserRequest,
    now: i64,
) -> (reply: Reply<()>)
    requires
        old(state)@.wf(),
    ensures
        final(state)@ == unmute_user_step(old(state)@, now, opt_str(token), body.user_id@).state,
        reply@ == unmute_user_step(old(state)@, now, opt_str(token), body.user_id@).reply,
        final(state)@.wf(),
{
    set_mute(state, token, body.user_id.as_str(), now, Action::Unmute, None)
}

/// Unmutes a user. Reads the clock; the rest is `unmute_user_at`.
pub fn unmute_user(state: &mut AppState, token: Option<&str>, body: &UnmuteUserRequest) -> (r: (
    Reply<()>,
    Drawn,
))
    requires
        old(state)@.wf(),
    ensures
        final(state)@ == unmute_user_step(old(state)@, r.1.now, opt_str(token), body.user_id@).state,
        r.0@ == unmute_user_step(old(state)@, r.1.now, opt_str(token), body.user_id@).reply,
        final(state)@.wf(),
{
    let drawn = Drawn::at(now_millis());
    let reply = unmute_user_at(state, token, body, drawn.now);
    (reply, drawn)
}

/// What a ban makes of the registry. Nobody bans themself. Where the policy
/// permits the ban, the user is removed with all sessions and the email is
/// blacklisted for good. The reply is the announcement of the ban.
pub open spec fn ban_user_step(
    before: AppStateView,
    now: i64,
    token: Option<Seq<char>>,
    target: Seq<char>,
) -> Step<EventView> {
    let s = cleaned(before, now);
    match s.actor(token) {
        None => Step { state: s, reply: refused(Denial::Unauthorized) },
        Some(a) => if s.users[a].id == target {
            Step { state: s, reply: refused(Denial::CannotBanSelf) }
        } else {
            match s.user_index(target) {
                Some(i) => if s.allows(Action::Ban, a, target) {
                    Step {
                        state: AppStateView {
                            email_blacklist: s.email_blacklist.push(s.users[i].email),
                            ..s.without_user_at(i)
                        },
                        reply: ReplyView {
                            outcome: Ok(EventView::UserBanned { user_id: s.users[i].id }),
                            save: SaveSet {
                                users: true,
                                sessions: true,
                                blacklist: true,
                                ..SaveSet::spec_nothing()
                            },
                        },
                    }
                } else {
                    Step { state: s, reply: refused(Denial::Unauthorized) }
                },
                None => Step { state: s, reply: refused(Denial::Unauthorized) },
            }
        },
    }
}

/// Bans a user at the time `now`.
pub fn ban_user_at(state: &mut AppState, token: Option<&str>, body: &BanUserRequest, now: i64) -> (reply:
    Reply<Event>)
    requires
        old(state)@.wf(),
    ensures
        final(state)@ == ban_user_step(old(state)@, now, opt_str(token), body.user_id@).state,
        reply@ == ban_user_step(old(state)@, now, opt_str(token), body.user_id@).reply,
        final(state)@.wf(),
{
    state.expire(now);
    let a = match state.actor(token) {
        None => {
            return Reply::refuse(Denial::Unauthorized);
        },
        Some(a) => a,
    };
    if str_eq(state.users[a].id.as_str(), body.user_id.as_str()) {
        return Reply::refuse(Denial::CannotBanSelf);
    }
    match state.allows(Action::Ban, a, body.user_id.as_str()) {
        None => Reply::refuse(Denial::Unauthorized),
        Some(i) => {
            proof {
                if state@.users[a as int].role == UserRole::Admin {
                    crate::users::lemma_nobody_else_is_admin(state@.users, a as int, i as int);
                }
            }
            let gone = state.drop_user(i);
            let ghost listed = state@.email_blacklist;
            state.email_blacklist.push(gone.email.clone());
            assert(state@.email_blacklist =~= listed.push(gone@.email));
            Reply::done(
                Event::UserBanned { user_id: gone.id },
                SaveSet { users: true, sessions: true, blacklist: true, ..SaveSet::nothing() },
            )
        },
    }
}

/// Bans a user. Reads the clock; the rest is `ban_user_at`.
pub fn ban_user(state: &mut AppState, token: Option<&str>, body: &BanUserRequest) -> (r: (
    Reply<Event>,
    Drawn,
))
    requires
        old(state)@.wf(),
    ensures
        final(state)@ == ban_user_step(old(state)@, r.1.now, opt_str(token), body.user_id@).state,
        r.0@ == ban_user_step(old(state)@, r.1.now, opt_str(token), body.user_id@).reply,
        final(state)@.wf(),
{
    let drawn = Drawn::at(now_millis());
    let reply = ban_user_at(state, token, body, drawn.now);
    (reply, drawn)
}

/// What setting the display name of a user makes of the registry. Everyone
/// may set their own; the name of someone else is set by those whom the
/// policy permits.
pub open spec fn update_user_display_name_step(
    before: AppStateView,
    now: i64,
    token: Option<Seq<char>>,
    target: Seq<char>,
    name: Option<Seq<char>>,
) -> Step<EventView> {
    let s = cleaned(before, now);
    match s.actor(token) {
        None => Step { state: s, reply: refused(Denial::Unauthorized) },
        Some(a) => match s.user_index(target) {
            Some(i) => if s.allows(Action::EditDisplayName, a, target) {
                renamed(s, i, name)
            } else {
                Step { state: s, reply: refused(Denial::DisplayNameForbidden) }
            },
            None => Step { state: s, reply: refused(Denial::Unauthorized) },
        },
    }
}

/// Sets the display name of a user at the time `now`.
pub fn update_user_display_name_at(
    state: &mut AppState,
    token: Option<&str>,
    body: &UpdateUserDisplayNameRequest,
    now: i64,
) -> (reply: Reply<Event>)
    requires
        old(state)@.wf(),
    ensures
        final(state)@ == update_user_display_name_step(
            old(state)@,
            now,
            opt_str(token),
            body.user_id@,
            opt_chars(body.display_name),
        ).state,
        reply@ == update_user_display_name_step(
            old(state)@,
            now,
            opt_str(token),
            body.user_id@,
            opt_chars(body.display_name),
        ).reply,
        final(state)@.wf(),
{
    state.expire(now);
    let a = match state.actor(token) {
        None => {
            return Reply::refuse(Denial::Unauthorized);
        },
        Some(a) => a,
    };
    match state.allows(Action::EditDisplayName, a, body.user_id.as_str()) {
        Some(i) => rename(state, i, &body.display_name),
        None => match state.find_user(body.user_id.as_str()) {
            Some(_) => Reply::refuse(Denial::DisplayNameForbidden),
            None => Reply::refuse(Denial::Unauthorized),
        },
    }
}

/// Sets the display name of a user. Reads the clock; the rest is
/// `update_user_display_name_at`.
pub fn update_user_display_name(
    state: &mut AppState,
    token: Option<&str>,
    body: &UpdateUserDisplayNameRequest,
) -> (r: (Reply<Event>, Drawn))
    requires
        old(state)@.wf(),
    ensures
        final(state)@ == update_user_display_name_step(
            old(state)@,
            r.1.now,
            opt_str(token),
            body.user_id@,
            opt_chars(body.display_name),
        ).state,
        r.0@ == update_user_display_name_step(
            old(state)@,
            r.1.now,
            opt_str(token),
            body.user_id@,
            opt_chars(body.display_name),
        ).reply,
        final(state)@.wf(),
{
    let drawn = Drawn::at(now_millis());
    let reply = update_user_display_name_at(state, token, body, drawn.now);
    (reply, drawn)
}

} // verus!
