//! What only the administrator may do: read and change the settings, list
//! users, decide on pending registrations, add and delete accounts.

use crate::api::{
    ok_views, refused, AddUserRequest, ApproveRejectRequest, DeleteUserRequest, Denial, Drawn,
    Reply, ReplyView, SaveSet, UpdateSettingsRequest,
};
use crate::accounts::{hash_password, password_digest};
use crate::models::{PublicSettings, Settings, User, UserRole, UserStatus, UserView};
use crate::policy::{is_permitted, permitted, Action};
use crate::seqs::any_meets;

use crate::state::{cleaned, lemma_actor_is_active, opt_str, AppState, AppStateView, Step};
use crate::text::{clone_opt, opt_chars, str_eq};
use crate::trusted::{now_millis, random_id};
use crate::users::{
    find_by_email, lemma_nobody_else_is_admin, name_taken, select_by_status, with_email,
    with_name, with_status,
};
use crate::websocket::{Event, EventView};
use vstd::prelude::*;

verus! {

impl AppStateView {
    /// Whether `token` speaks for the administrator.
    pub open spec fn is_admin(self, token: Option<Seq<char>>) -> bool {
        match self.actor(token) {
            Some(i) => self.users[i].role == UserRole::Admin,
            None => false,
        }
    }
}

impl AppState {
    /// Whether `token` speaks for the administrator.
    pub fn is_admin(&self, token: Option<&str>) -> (yes: bool)
        ensures
            yes == self@.is_admin(opt_str(token)),
    {
        match self.actor(token) {
            Some(i) => match self.users[i].role {
                UserRole::Admin => true,
                _ => false,
            },
            None => false,
        }
    }
}

/// The settings that anyone may see.
pub fn get_public_settings(state: &AppState) -> (r: PublicSettings)
    ensures
        r.registration_open == state@.settings.registration_open,
        r.require_approval == state@.settings.require_approval,
{
    PublicSettings {
        registration_open: state.settings.registration_open,
        require_approval: state.settings.require_approval,
    }
}

/// The settings, for the administrator.
pub fn get_settings(state: &AppState, token: Option<&str>) -> (r: Result<Settings, Denial>)
    ensures
        r == if state@.is_admin(opt_str(token)) {
            Ok::<Settings, Denial>(state@.settings)
        } else {
            Err::<Settings, Denial>(Denial::Unauthorized)
        },
{
    if state.is_admin(token) {
        Ok(state.settings)
    } else {
        Err(Denial::Unauthorized)
    }
}

/// The users of one status, for the administrator.
pub open spec fn users_listed(s: AppStateView, token: Option<Seq<char>>, status: UserStatus) -> Result<
    Seq<UserView>,
    Denial,
> {
    if s.is_admin(token) {
        Ok(s.users.filter(with_status(status)))
    } else {
        Err(Denial::Unauthorized)
    }
}

/// The users who wait for approval, in order of arrival.
pub fn get_pending_users(state: &AppState, token: Option<&str>) -> (r: Result<Vec<User>, Denial>)
    ensures
        ok_views(r) == users_listed(state@, opt_str(token), UserStatus::Pending),
{
    if state.is_admin(token) {
        Ok(select_by_status(&state.users, UserStatus::Pending))
    } else {
        Err(Denial::Unauthorized)
    }
}

/// The active users, in order of arrival.
pub fn get_users(state: &AppState, token: Option<&str>) -> (r: Result<Vec<User>, Denial>)
    ensures
        ok_views(r) == users_listed(state@, opt_str(token), UserStatus::Active),
{
    if state.is_admin(token) {
        Ok(select_by_status(&state.users, UserStatus::Active))
    } else {
        Err(Denial::Unauthorized)
    }
}

/// What a change of settings makes of the registry.
pub open spec fn update_settings_step(
    before: AppStateView,
    now: i64,
    token: Option<Seq<char>>,
    body: UpdateSettingsRequest,
) -> Step<()> {
    let s = cleaned(before, now);
    if s.is_admin(token) {
        Step {
            state: AppStateView {
                settings: Settings {
                    registration_open: body.registration_open,
                    require_approval: body.require_approval,
                },
                ..s
            },
            reply: ReplyView {
                outcome: Ok(()),
                save: SaveSet { settings: true, ..SaveSet::spec_nothing() },
            },
        }
    } else {
        Step { state: s, reply: refused(Denial::Unauthorized) }
    }
}

/// Changes the settings at the time `now`.
pub fn update_settings_at(
    state: &mut AppState,
    token: Option<&str>,
    body: &UpdateSettingsRequest,
    now: i64,
) -> (reply: Reply<()>)
    requires
        old(state)@.wf(),
    ensures
        final(state)@ == update_settings_step(old(state)@, now, opt_str(token), *body).state,
        reply@ == update_settings_step(old(state)@, now, opt_str(token), *body).reply,
        final(state)@.wf(),
{
    state.expire(now);
    if state.is_admin(token) {
        state.settings = Settings {
            registration_open: body.registration_open,
            require_approval: body.require_approval,
        };
        Reply::done((), SaveSet { settings: true, ..SaveSet::nothing() })
    } else {
        Reply::refuse(Denial::Unauthorized)
    }
}

/// Changes the settings. Reads the clock; the rest is `update_settings_at`.
pub fn update_settings(state: &mut AppState, token: Option<&str>, body: &UpdateSettingsRequest) -> (r:
    (Reply<()>, Drawn))
    requires
        old(state)@.wf(),
    ensures
        final(state)@ == update_settings_step(old(state)@, r.1.now, opt_str(token), *body).state,
        r.0@ == update_settings_step(old(state)@, r.1.now, opt_str(token), *body).reply,
        final(state)@.wf(),
{
    let drawn = Drawn::at(now_millis());
    let reply = update_settings_at(state, token, body, drawn.now);
    (reply, drawn)
}

/// What an approval makes of the registry: a pending user becomes active.
/// The reply carries the approved record, for the notice that is mailed.
pub open spec fn approve_user_step(
    before: AppStateView,
    now: i64,
    token: Option<Seq<char>>,
    target: Seq<char>,
) -> Step<UserView> {
    let s = cleaned(before, now);
    if !s.is_admin(token) {
        Step { state: s, reply: refused(Denial::Unauthorized) }
    } else {
        match s.user_index(target) {
            None => Step { state: s, reply: refused(Denial::UserNotFound) },
            Some(i) => if s.users[i].status != UserStatus::Pending {
                Step { state: s, reply: refused(Denial::UserNotPending) }
            } else {
                let approved = UserView { status: UserStatus::Active, ..s.users[i] };
                Step {
                    state: AppStateView { users: s.users.update(i, approved), ..s },
                    reply: ReplyView {
                        outcome: Ok(approved),
                        save: SaveSet { users: true, ..SaveSet::spec_nothing() },
                    },
                }
            },
        }
    }
}

/// Approves a pending registration at the time `now`.
pub fn approve_user_at(
    state: &mut AppState,
    token: Option<&str>,
    body: &ApproveRejectRequest,
    now: i64,
) -> (reply: Reply<User>)
    requires
        old(state)@.wf(),
    ensures
        final(state)@ == approve_user_step(old(state)@, now, opt_str(token), body.user_id@).state,
        reply@ == approve_user_step(old(state)@, now, opt_str(token), body.user_id@).reply,
        final(state)@.wf(),
{
    state.expire(now);
    if !state.is_admin(token) {
        return Reply::refuse(Denial::Unauthorized);
    }
    match state.find_user(body.user_id.as_str()) {
        None => Reply::refuse(Denial::UserNotFound),
        Some(i) => {
            match state.users[i].status {
                UserStatus::Pending => {},
                _ => {
                    return Reply::refuse(Denial::UserNotPending);
                },
            }
            let mut user = state.users[i].clone();
            user.status = UserStatus::Active;
            let approved = user.clone();
            state.change_user(i, user);
            Reply::done(approved, SaveSet { users: true, ..SaveSet::nothing() })
        },
    }
}

/// Approves a pending registration. Reads the clock; the rest is
/// `approve_user_at`.
pub fn approve_user(state: &mut AppState, token: Option<&str>, body: &ApproveRejectRequest) -> (r:
    (Reply<User>, Drawn))
    requires
        old(state)@.wf(),
    ensures
        final(state)@ == approve_user_step(
            old(state)@,
            r.1.now,
            opt_str(token),
            body.user_id@,
        ).state,
        r.0@ == approve_user_step(old(state)@, r.1.now, opt_str(token), body.user_id@).reply,
        final(state)@.wf(),
{
    let drawn = Drawn::at(now_millis());
    let reply = approve_user_at(state, token, body, drawn.now);
    (reply, drawn)
}

/// What a rejection makes of the registry: a pending user is removed and
/// the email is blacklisted for good. Anything else is refused, and nothing
/// changes. The reply carries the rejected record, for the notice that is
/// mailed.
pub open spec fn reject_user_step(
    before: AppStateView,
    now: i64,
    token: Option<Seq<char>>,
    target: Seq<char>,
) -> Step<UserView> {
    let s = cleaned(before, now);
    match s.user_index(target) {
        Some(i) => if s.is_admin(token) && s.users[i].status == UserStatus::Pending {
            let gone = s.without_user_at(i);
            Step {
                state: AppStateView {
                    email_blacklist: s.email_blacklist.push(s.users[i].email),
                    ..gone
                },
                reply: ReplyView {
                    outcome: Ok(s.users[i]),
                    save: SaveSet { users: true, blacklist: true, ..SaveSet::spec_nothing() },
                },
            }
        } else {
            Step { state: s, reply: refused(Denial::Unauthorized) }
        },
        None => Step { state: s, reply: refused(Denial::Unauthorized) },
    }
}

/// Rejects a pending registration at the time `now`.
pub fn reject_user_at(
    state: &mut AppState,
    token: Option<&str>,
    body: &ApproveRejectRequest,
    now: i64,
) -> (reply: Reply<User>)
    requires
        old(state)@.wf(),
    ensures
        final(state)@ == reject_user_step(old(state)@, now, opt_str(token), body.user_id@).state,
        reply@ == reject_user_step(old(state)@, now, opt_str(token), body.user_id@).reply,
        final(state)@.wf(),
{
    state.expire(now);
    if !state.is_admin(token) {
        return Reply::refuse(Denial::Unauthorized);
    }
    match state.find_user(body.user_id.as_str()) {
        None => Reply::refuse(Denial::Unauthorized),
        Some(i) => {
            match state.users[i].status {
                UserStatus::Pending => {},
                _ => {
                    return Reply::refuse(Denial::Unauthorized);
                },
            }
            proof {
                lemma_actor_is_active(state@, opt_str(token));
                lemma_nobody_else_is_admin(
                    state@.users,
                    state@.actor(opt_str(token))->0,
                    i as int,
                );
            }
            let gone = state.drop_user(i);
            let ghost listed = state@.email_blacklist;
            state.email_blacklist.push(gone.email.clone());
            assert(state@.email_blacklist =~= listed.push(gone@.email));
            Reply::done(gone, SaveSet { users: true, blacklist: true, ..SaveSet::nothing() })
        },
    }
}

/// Rejects a pending registration. Reads the clock; the rest is
/// `reject_user_at`.
pub fn reject_user(state: &mut AppState, token: Option<&str>, body: &ApproveRejectRequest) -> (r: (
    Reply<User>,
    Drawn,
))
    requires
        old(state)@.wf(),
    ensures
        final(state)@ == reject_user_step(old(state)@, r.1.now, opt_str(token), body.user_id@).state,
        r.0@ == reject_user_step(old(state)@, r.1.now, opt_str(token), body.user_id@).reply,
        final(state)@.wf(),
{
    let drawn = Drawn::at(now_millis());
    let reply = reject_user_at(state, token, body, drawn.now);
    (reply, drawn)
}

/// The record of a user whom the administrator adds: an active member.
pub open spec fn added_user(
    body: AddUserRequest,
    now: i64,
    password_hash: Seq<char>,
    user_id: Seq<char>,
) -> UserView {
    UserView {
        id: user_id,
        username: body.username@,
        email: body.email@,
        password_hash,
        avatar: opt_chars(body.avatar),
        display_name: None,
        role: UserRole::Member,
        status: UserStatus::Active,
        created_at: now,
        last_ips: Seq::empty(),
        muted_until: None,
    }
}

/// What the addition of a user makes of the registry.
pub open spec fn add_user_step(
    before: AppStateView,
    now: i64,
    token: Option<Seq<char>>,
    body: AddUserRequest,
    password_hash: Seq<char>,
    user_id: Seq<char>,
) -> Step<()> {
    let s = cleaned(before, now);
    if !s.is_admin(token) {
        Step { state: s, reply: refused(Denial::Unauthorized) }
    } else if any_meets(s.users, with_email(body.email@)) {
        Step { state: s, reply: refused(Denial::EmailTaken) }
    } else if any_meets(s.users, with_name(body.username@)) {
        Step { state: s, reply: refused(Denial::UsernameTaken) }
    } else if s.user_index(user_id) is Some {
        Step { state: s, reply: refused(Denial::IdentifierInUse) }
    } else {
        Step {
            state: AppStateView {
                users: s.users.push(added_user(body, now, password_hash, user_id)),
                ..s
            },
            reply: ReplyView {
                outcome: Ok(()),
                save: SaveSet { users: true, ..SaveSet::spec_nothing() },
            },
        }
    }
}

/// Adds a user at the time `now`, with the password digest and the user id
/// given.
pub fn add_user_at(
    state: &mut AppState,
    token: Option<&str>,
    body: &AddUserRequest,
    now: i64,
    password_hash: String,
    user_id: String,
) -> (reply: Reply<()>)
    requires
        old(state)@.wf(),
    ensures
        final(state)@ == add_user_step(
            old(state)@,
            now,
            opt_str(token),
            *body,
            password_hash@,
            user_id@,
        ).state,
        reply@ == add_user_step(
            old(state)@,
            now,
            opt_str(token),
            *body,
            password_hash@,
            user_id@,
        ).reply,
        final(state)@.wf(),
{
    state.expire(now);
    if !state.is_admin(token) {
        return Reply::refuse(Denial::Unauthorized);
    }
    if find_by_email(&state.users, body.email.as_str()).is_some() {
        return Reply::refuse(Denial::EmailTaken);
    }
    if name_taken(&state.users, body.username.as_str()) {
        return Reply::refuse(Denial::UsernameTaken);
    }
    if state.find_user(user_id.as_str()).is_some() {
        return Reply::refuse(Denial::IdentifierInUse);
    }
    let ips: Vec<String> = Vec::new();
    assert(crate::text::each_chars(ips@) =~= Seq::<Seq<char>>::empty());
    let user = User {
        id: user_id,
        username: body.username.clone(),
        email: body.email.clone(),
        password_hash,
        avatar: clone_opt(&body.avatar),
        display_name: None,
        role: UserRole::Member,
        status: UserStatus::Active,
        created_at: now,
        last_ips: ips,
        muted_until: None,
    };
    state.put_user(user);
    Reply::done((), SaveSet { users: true, ..SaveSet::nothing() })
}

/// Adds a user. Reads the clock, hashes the password and draws the user id;
/// the rest is `add_user_at`.
pub fn add_user(state: &mut AppState, token: Option<&str>, body: &AddUserRequest) -> (r: (
    Reply<()>,
    Drawn,
))
    requires
        old(state)@.wf(),
    ensures
        final(state)@ == add_user_step(
            old(state)@,
            r.1.now,
            opt_str(token),
            *body,
            password_digest(body.password@),
            r.1.id@,
        ).state,
        r.0@ == add_user_step(
            old(state)@,
            r.1.now,
            opt_str(token),
            *body,
            password_digest(body.password@),
            r.1.id@,
        ).reply,
        final(state)@.wf(),
{
    let drawn = Drawn { now: now_millis(), id: random_id(), token: String::new() };
    let digest = hash_password(body.password.as_str());
    let reply = add_user_at(state, token, body, drawn.now, digest, drawn.id.clone());
    (reply, drawn)
}

/// What the deletion of a user makes of the registry. Nobody deletes
/// themself; the administrator deletes anyone else, with all sessions. The
/// reply is the announcement that the user was deleted.
pub open spec fn delete_user_step(
    before: AppStateView,
    now: i64,
    token: Option<Seq<char>>,
    target: Seq<char>,
) -> Step<EventView> {
    let s = cleaned(before, now);
    match s.actor(token) {
        None => Step { state: s, reply: refused(Denial::Unauthorized) },
        Some(a) => if s.users[a].id == target {
            Step { state: s, reply: refused(Denial::CannotDeleteSelf) }
        } else {
            match s.user_index(target) {
                Some(i) => if permitted(
                    Action::DeleteUser,
                    s.users[a].role,
                    Some(s.users[i].role),
                    false,
                ) {
                    Step {
                        state: s.without_user_at(i),
                        reply: ReplyView {
                            outcome: Ok(EventView::UserDeleted { user_id: s.users[i].id }),
                            save: SaveSet {
                                users: true,
                                sessions: true,
                                ..SaveSet::spec_nothing()
                            },
                        },
                    }
                } else {
                    Step { state: s, reply: refused(Denial::Unauthorized) }
                },
                None => Step { state: s, reply: refused(Denial::Unauthorized) },
            }
        },
    }
}

/// Deletes a user at the time `now`.
pub fn delete_user_at(
    state: &mut AppState,
    token: Option<&str>,
    body: &DeleteUserRequest,
    now: i64,
) -> (reply: Reply<Event>)
    requires
        old(state)@.wf(),
    ensures
        final(state)@ == delete_user_step(old(state)@, now, opt_str(token), body.user_id@).state,
        reply@ == delete_user_step(old(state)@, now, opt_str(token), body.user_id@).reply,
        final(state)@.wf(),
{
    state.expire(now);
    let a = match state.actor(token) {
        None => {
            return Reply::refuse(Denial::Unauthorized);
        },
        Some(a) => a,
    };
    if str_eq(state.users[a].id.as_str(), body.user_id.as_str()) {
        return Reply::refuse(Denial::CannotDeleteSelf);
    }
    match state.find_user(body.user_id.as_str()) {
        Some(i) => {
            if is_permitted(
                Action::DeleteUser,
                state.users[a].role,
                Some(state.users[i].role),
                false,
            ) {
                proof {
                    lemma_nobody_else_is_admin(state@.users, a as int, i as int);
                }
                let gone = state.drop_user(i);
                Reply::done(
                    Event::UserDeleted { user_id: gone.id },
                    SaveSet { users: true, sessions: true, ..SaveSet::nothing() },
                )
            } else {
                Reply::refuse(Denial::Unauthorized)
            }
        },
        None => Reply::refuse(Denial::Unauthorized),
    }
}

/// Deletes a user. Reads the clock; the rest is `delete_user_at`.
pub fn delete_user(state: &mut AppState, token: Option<&str>, body: &DeleteUserRequest) -> (r: (
    Reply<Event>,
    Drawn,
))
    requires
        old(state)@.wf(),
    ensures
        final(state)@ == delete_user_step(old(state)@, r.1.now, opt_str(token), body.user_id@).state,
        r.0@ == delete_user_step(old(state)@, r.1.now, opt_str(token), body.user_id@).reply,
        final(state)@.wf(),
{
    let drawn = Drawn::at(now_millis());
    let reply = delete_user_at(state, token, body, drawn.now);
    (reply, drawn)
}

} // verus!
