//! What follows from the step functions of this crate, stated once and proved:
//! the bound on sessions and the order of eviction, the escalation of the
//! registration limiter, the wait between two verification codes, who may
//! recall what, what a recall leaves of a message, and what a ban or a
//! deletion takes away.

use crate::accounts::{delete_account_step, register_step, Registered};
use crate::admin::delete_user_step;
use crate::api::{Denial, RegisterRequest};
use crate::chat::{recall_message_step, recallable, recalled};
use crate::clock::{DAY_MS, HOUR_MS, MINUTE_MS};
use crate::guard::{
    bars, in_force, is_blacklisted, is_latest, lemma_latest_is, rate_ban, recent, recent_from,
    registration_verdict, send_verdict, seconds_to_wait, REGISTRATIONS_PER_HOUR,
};
use crate::models::{AttemptView, IpBlacklistView, SessionView, UserRole};
use crate::moderation::ban_user_step;
use crate::policy::{permitted, Action};
use crate::seqs::{
    any_meets, count, distinct_by, first_index, is_first, lemma_filter_concat,
    lemma_filter_members, lemma_filter_none, lemma_filter_push, lemma_first_index_is_first,
    lemma_first_index_none, lemma_first_index_some,
};
use crate::sessions::{
    after_eviction, has_token, lemma_with_session_wf, live_count, not_owned_by, owned_by,
    resolve, sessions_of, sessions_wf, token_of, with_session, without_user,
    MAX_SESSIONS_PER_USER,
};
use crate::state::{cleaned, AppStateView};
use crate::users::{admins, is_admin};
use crate::websocket::{closes, fan_out, ConnectionView, EventView};
use vstd::prelude::*;

verus! {

/// The latest five of a user's sessions: all of them while there are no
/// more than five.
pub open spec fn latest_five(own: Seq<SessionView>) -> Seq<SessionView> {
    if own.len() > MAX_SESSIONS_PER_USER {
        own.skip(own.len() - MAX_SESSIONS_PER_USER)
    } else {
        own
    }
}

/// The sessions after several were created one after the other.
pub open spec fn with_sessions(sessions: Seq<SessionView>, created: Seq<SessionView>) -> Seq<
    SessionView,
>
    decreases created.len(),
{
    if created.len() == 0 {
        sessions
    } else {
        with_sessions(with_session(sessions, created[0]), created.drop_first())
    }
}

/// However many sessions are created, under tokens not in use, nobody ever
/// holds more than five.
pub proof fn law_sessions_capped(sessions: Seq<SessionView>, session: SessionView, user_id: Seq<char>)
    requires
        sessions_wf(sessions),
        resolve(sessions, session.token) is None,
    ensures
        sessions_wf(with_session(sessions, session)),
        live_count(with_session(sessions, session), user_id) <= MAX_SESSIONS_PER_USER,
{
    lemma_with_session_wf(sessions, session);
    assert(live_count(with_session(sessions, session), user_id) <= MAX_SESSIONS_PER_USER);
}

proof fn lemma_filter_without_first<A>(s: Seq<A>, p: spec_fn(A) -> bool, i: int)
    requires
        is_first(s, p, i),
    ensures
        s.filter(p).len() > 0,
        s.remove(i).filter(p) == s.filter(p).drop_first(),
{
    let a = s.subrange(0, i);
    let b = s.subrange(i + 1, s.len() as int);
    let one = Seq::<A>::empty().push(s[i]);
    assert(s =~= (a + one) + b);
    assert(s.remove(i) =~= a + b);
    assert forall|j: int| 0 <= j < a.len() implies !p(#[trigger] a[j]) by {
        assert(a[j] == s[j]);
    }
    lemma_filter_none(a, p);
    lemma_filter_concat(a + one, b, p);
    lemma_filter_concat(a, one, p);
    lemma_filter_concat(a, b, p);
    lemma_filter_push(Seq::<A>::empty(), p, s[i]);
    lemma_filter_none(Seq::<A>::empty(), p);
    assert(one.filter(p) =~= one);
    assert(s.filter(p) =~= one + b.filter(p));
    assert(s.remove(i).filter(p) =~= b.filter(p));
    assert((one + b.filter(p)).drop_first() =~= b.filter(p));
}

/// Eviction is first in, first out: after a creation the owner holds the
/// latest five of what they held before and the new session, in order of
/// creation. So the sixth creation revokes exactly the oldest session, and
/// nothing else.
pub proof fn law_oldest_session_evicted(sessions: Seq<SessionView>, session: SessionView)
    requires
        live_count(sessions, session.user_id) <= MAX_SESSIONS_PER_USER,
    ensures
        sessions_of(with_session(sessions, session), session.user_id) == latest_five(
            sessions_of(sessions, session.user_id).push(session),
        ),
{
    let p = owned_by(session.user_id);
    let own = sessions.filter(p);
    let room = after_eviction(sessions, session.user_id);
    lemma_first_index_is_first(sessions, p);
    lemma_filter_push(room, p, session);
    if live_count(sessions, session.user_id) >= MAX_SESSIONS_PER_USER {
        if first_index(sessions, p) is None {
            lemma_filter_none(sessions, p);
        }
        let i = first_index(sessions, p)->0;
        lemma_filter_without_first(sessions, p, i);
        assert(own.drop_first().push(session) =~= own.push(session).skip(1));
    }
}

/// Creating a session for one user leaves everyone else's sessions alone.
pub proof fn law_other_sessions_stay(
    sessions: Seq<SessionView>,
    session: SessionView,
    other: Seq<char>,
)
    requires
        other != session.user_id,
    ensures
        sessions_of(with_session(sessions, session), other) == sessions_of(sessions, other),
{
    crate::sessions::lemma_with_session_others(sessions, session, other);
}

proof fn lemma_latest_five_absorbs(own: Seq<SessionView>, next: SessionView, rest: Seq<SessionView>)
    requires
        own.len() <= MAX_SESSIONS_PER_USER,
    ensures
        latest_five(latest_five(own.push(next)) + rest) == latest_five(own + (seq![next] + rest)),
{
    let grown = own.push(next);
    assert(grown + rest =~= own + (seq![next] + rest));
    if grown.len() > MAX_SESSIONS_PER_USER {
        let kept = grown.skip(1);
        let all = grown + rest;
        assert((kept + rest).len() == all.len() - 1);
        assert((kept + rest).skip((kept + rest).len() - MAX_SESSIONS_PER_USER) =~= all.skip(
            all.len() - MAX_SESSIONS_PER_USER,
        ));
    }
}

/// For every sequence of creations for one user: the user never holds more
/// than five sessions, and holds at the end the latest five of those held
/// at the start and those created, in order of creation.
pub proof fn law_sessions_first_in_first_out(
    sessions: Seq<SessionView>,
    user_id: Seq<char>,
    created: Seq<SessionView>,
)
    requires
        live_count(sessions, user_id) <= MAX_SESSIONS_PER_USER,
        forall|k: int| 0 <= k < created.len() ==> (#[trigger] created[k]).user_id == user_id,
    ensures
        sessions_of(with_sessions(sessions, created), user_id) == latest_five(
            sessions_of(sessions, user_id) + created,
        ),
        live_count(with_sessions(sessions, created), user_id) <= MAX_SESSIONS_PER_USER,
    decreases created.len(),
{
    let own = sessions_of(sessions, user_id);
    if created.len() == 0 {
        assert(own + created =~= own);
    } else {
        let next = created[0];
        let rest = created.drop_first();
        let then = with_session(sessions, next);
        law_oldest_session_evicted(sessions, next);
        assert forall|k: int| 0 <= k < rest.len() implies (#[trigger] rest[k]).user_id
            == user_id by {
            assert(rest[k] == created[k + 1]);
        }
        law_sessions_first_in_first_out(then, user_id, rest);
        lemma_latest_five_absorbs(own, next, rest);
        assert(seq![next] + rest =~= created);
    }
}

/// Pruning is invisible to the registration limiter: it says the same of
/// the pruned records as of all of them.
pub proof fn law_pruning_keeps_registration_verdict(
    list: Seq<IpBlacklistView>,
    attempts: Seq<AttemptView>,
    ip: Seq<char>,
    now: i64,
)
    ensures
        registration_verdict(
            list.filter(in_force(now)),
            attempts.filter(recent(now, HOUR_MS)),
            ip,
            now,
        ) == registration_verdict(list, attempts, ip, now),
{
    crate::seqs::lemma_any_meets_narrowed(list, in_force(now), bars(ip, now));
    crate::seqs::lemma_filter_narrowed(
        attempts,
        recent(now, HOUR_MS),
        recent_from(ip, now, HOUR_MS),
    );
}

/// After three registrations from one address within an hour, the next
/// registration from there is refused, whatever it asks for: nothing is
/// registered or counted, and the address enters the blacklist for a day,
/// during which it stays barred.
pub proof fn law_fourth_registration_denied(
    before: AppStateView,
    ip: Seq<char>,
    body: RegisterRequest,
    now: i64,
    password_hash: Seq<char>,
    user_id: Seq<char>,
    token: Seq<char>,
)
    requires
        !is_blacklisted(before.ip_blacklist, ip, now),
        count(before.registration_attempts, recent_from(ip, now, HOUR_MS))
            >= REGISTRATIONS_PER_HOUR,
    ensures
        ({
            let step = register_step(before, ip, body, now, password_hash, user_id, token);
            let s = cleaned(before, now);
            &&& step.reply.outcome == Err::<Registered, Denial>(Denial::RegistrationRateExceeded)
            &&& step.reply.save.blacklist
            &&& step.state == (AppStateView {
                ip_blacklist: s.ip_blacklist.push(rate_ban(ip, now)),
                ..s
            })
            &&& now + DAY_MS <= i64::MAX ==> rate_ban(ip, now).until == now + DAY_MS
            &&& forall|t: i64|
                now <= t < rate_ban(ip, now).until ==> #[trigger] is_blacklisted(
                    step.state.ip_blacklist,
                    ip,
                    t,
                )
        }),
{
    let s = cleaned(before, now);
    law_pruning_keeps_registration_verdict(
        before.ip_blacklist,
        before.registration_attempts,
        ip,
        now,
    );
    let step = register_step(before, ip, body, now, password_hash, user_id, token);
    let list = s.ip_blacklist.push(rate_ban(ip, now));
    assert(step.state.ip_blacklist == list);
    assert forall|t: i64| now <= t < rate_ban(ip, now).until implies #[trigger] is_blacklisted(
        step.state.ip_blacklist,
        ip,
        t,
    ) by {
        assert(bars(ip, t)(list[list.len() - 1]));
    }
}

/// Once every blacklist entry for an address has run out and fewer than
/// three of its registrations lie within the last hour, the limiter lets
/// the address register again.
pub proof fn law_registration_allowed_again(
    list: Seq<IpBlacklistView>,
    attempts: Seq<AttemptView>,
    ip: Seq<char>,
    now: i64,
)
    requires
        forall|k: int| 0 <= k < list.len() && (#[trigger] list[k]).ip == ip ==> list[k].until <= now,
        count(attempts, recent_from(ip, now, HOUR_MS)) < REGISTRATIONS_PER_HOUR,
    ensures
        registration_verdict(list, attempts, ip, now) == Ok::<(), Denial>(()),
        registration_verdict(
            list.filter(in_force(now)),
            attempts.filter(recent(now, HOUR_MS)),
            ip,
            now,
        ) == Ok::<(), Denial>(()),
{
    law_pruning_keeps_registration_verdict(list, attempts, ip, now);
    assert forall|k: int| 0 <= k < list.len() implies !bars(ip, now)(#[trigger] list[k]) by {}
}

/// A second verification code within a minute of the last one is refused,
/// and the caller is told to wait a minute less the whole seconds gone.
pub proof fn law_second_send_waits(attempts: Seq<AttemptView>, ip: Seq<char>, now: i64, last: i64)
    requires
        is_latest(attempts, recent_from(ip, now, MINUTE_MS), last),
    ensures
        send_verdict(attempts, ip, now) == Err::<(), Denial>(
            Denial::SendTooFrequent { retry_after_seconds: seconds_to_wait(now, last) as i64 },
        ),
        now >= last ==> seconds_to_wait(now, last) == 60 - (now - last) / 1000,
        1 <= seconds_to_wait(now, last),
{
    let p = recent_from(ip, now, MINUTE_MS);
    lemma_latest_is(attempts, p, last);
    let w = choose|w: int|
        0 <= w < attempts.len() && p(#[trigger] attempts[w]) && attempts[w].timestamp == last;
    lemma_filter_members(attempts, p);
    assert(attempts.contains(attempts[w]));
    assert(attempts.filter(p).contains(attempts[w]));
    crate::guard::lemma_wait_fits(now, last);
}

/// Who may recall a message: a member only their own, a deputy any
/// member's but not the administrator's, the administrator any.
pub proof fn law_recall_policy(author: Option<UserRole>, own: bool)
    ensures
        permitted(Action::RecallMessage, UserRole::Member, author, own) == own,
        permitted(Action::RecallMessage, UserRole::DeputyAdmin, Some(UserRole::Member), own),
        !permitted(Action::RecallMessage, UserRole::DeputyAdmin, Some(UserRole::Admin), false),
        permitted(Action::RecallMessage, UserRole::Admin, author, own),
{
}

/// A recall goes through exactly when the policy permits it. Where it does
/// not, the caller is told so and the log stays as it is.
pub proof fn law_recall_decided_by_policy(
    before: AppStateView,
    now: i64,
    token: Option<Seq<char>>,
    message_id: Seq<char>,
)
    requires
        cleaned(before, now).actor(token) is Some,
        first_index(before.messages, recallable(message_id)) is Some,
    ensures
        ({
            let s = cleaned(before, now);
            let step = recall_message_step(before, now, token, message_id);
            let actor = s.users[s.actor(token)->0];
            let author = s.messages[first_index(s.messages, recallable(message_id))->0].user_id;
            let may = permitted(
                Action::RecallMessage,
                actor.role,
                s.role_of(author),
                actor.id == author,
            );
            &&& step.reply.outcome is Ok == may
            &&& !may ==> step.state == s && step.reply == crate::api::refused::<EventView>(
                Denial::RecallForbidden,
            )
        }),
{
}

/// A recall keeps the message in its place with its id, author, content and
/// time; it sets the flag and keeps the content aside. Every other message
/// stays as it is.
pub proof fn law_recall_keeps_message(
    before: AppStateView,
    now: i64,
    token: Option<Seq<char>>,
    message_id: Seq<char>,
)
    requires
        recall_message_step(before, now, token, message_id).reply.outcome is Ok,
    ensures
        ({
            let after = recall_message_step(before, now, token, message_id).state;
            let k = first_index(before.messages, recallable(message_id))->0;
            &&& 0 <= k < before.messages.len()
            &&& !before.messages[k].recalled
            &&& after.messages == before.messages.update(k, recalled(before.messages[k]))
            &&& after.messages[k].id == message_id
            &&& after.messages[k].user_id == before.messages[k].user_id
            &&& after.messages[k].content == before.messages[k].content
            &&& after.messages[k].timestamp == before.messages[k].timestamp
            &&& after.messages[k].recalled
            &&& after.messages[k].original_content == Some(before.messages[k].content)
        }),
{
    lemma_first_index_is_first(before.messages, recallable(message_id));
}

/// A message is recalled once: where no other message with the same id is
/// left to recall, a second recall finds nothing and changes nothing.
pub proof fn law_recall_only_once(
    before: AppStateView,
    now: i64,
    token: Option<Seq<char>>,
    message_id: Seq<char>,
    again: i64,
    again_token: Option<Seq<char>>,
)
    requires
        recall_message_step(before, now, token, message_id).reply.outcome is Ok,
        forall|j: int|
            0 <= j < before.messages.len() && j != first_index(
                before.messages,
                recallable(message_id),
            )->0 ==> !recallable(message_id)(#[trigger] before.messages[j]),
    ensures
        ({
            let after = recall_message_step(before, now, token, message_id).state;
            let second = recall_message_step(after, again, again_token, message_id);
            &&& second.reply.outcome is Err
            &&& second.state.messages == after.messages
            &&& cleaned(after, again).actor(again_token) is Some ==> second.reply.outcome
                == Err::<EventView, Denial>(Denial::MessageUnavailable)
        }),
{
    lemma_first_index_is_first(before.messages, recallable(message_id));
    let after = recall_message_step(before, now, token, message_id).state;
    assert forall|j: int| 0 <= j < after.messages.len() implies !recallable(message_id)(
        #[trigger] after.messages[j],
    ) by {}
    lemma_first_index_none(after.messages, recallable(message_id));
}

/// Once all sessions of a user are revoked, every token that stood for the
/// user stands for nobody, and every other token stands for whom it stood.
pub proof fn law_revoked_tokens_resolve_to_none(
    sessions: Seq<SessionView>,
    user_id: Seq<char>,
    token: Seq<char>,
)
    requires
        distinct_by(sessions, token_of()),
    ensures
        resolve(sessions, token) == Some(user_id) ==> resolve(
            without_user(sessions, user_id),
            token,
        ) is None,
        resolve(sessions, token) != Some(user_id) ==> resolve(
            without_user(sessions, user_id),
            token,
        ) == resolve(sessions, token),
{
    let rest = without_user(sessions, user_id);
    let p = has_token(token);
    lemma_first_index_is_first(sessions, p);
    lemma_first_index_is_first(rest, p);
    lemma_filter_members(sessions, not_owned_by(user_id));
    crate::seqs::lemma_filter_distinct(sessions, not_owned_by(user_id), token_of());
    if first_index(rest, p) is Some {
        let k = first_index(rest, p)->0;
        assert(rest.contains(rest[k]));
        assert(sessions.contains(rest[k]));
        let m = choose|m: int| 0 <= m < sessions.len() && sessions[m] == rest[k];
        assert(p(sessions[m]));
        let i = first_index(sessions, p)->0;
        if i < m {
            assert(token_of()(sessions[i]) != token_of()(sessions[m]));
        }
        assert(i == m);
    } else if first_index(sessions, p) is Some {
        let i = first_index(sessions, p)->0;
        if sessions[i].user_id != user_id {
            assert(sessions.contains(sessions[i]));
            assert(rest.contains(sessions[i]));
            let k = choose|k: int| 0 <= k < rest.len() && rest[k] == sessions[i];
            assert(p(rest[k]));
        }
    }
}

/// A ban takes the user out of the directory, every token that stood for the
/// user stands for nobody afterwards, and the reply is the announcement that
/// closes the user's connection.
pub proof fn law_ban_ends_sessions(
    before: AppStateView,
    now: i64,
    actor_token: Option<Seq<char>>,
    target: Seq<char>,
    token: Seq<char>,
)
    requires
        before.wf(),
        ban_user_step(before, now, actor_token, target).reply.outcome is Ok,
    ensures
        ({
            let step = ban_user_step(before, now, actor_token, target);
            &&& step.reply.outcome == Ok::<EventView, Denial>(EventView::UserBanned { user_id: target })
            &&& closes(step.reply.outcome->Ok_0) == Some(target)
            &&& step.state.user_index(target) is None
            &&& resolve(before.sessions, token) == Some(target) ==> resolve(
                step.state.sessions,
                token,
            ) is None
        }),
{
    let s = cleaned(before, now);
    lemma_first_index_is_first(s.users, crate::users::with_id(target));
    let i = s.user_index(target)->0;
    crate::state::lemma_removed_id_is_free(s.users, i);
    law_revoked_tokens_resolve_to_none(s.sessions, target, token);
}

/// The deletion of a user by the administrator takes the user out of the
/// directory, every token that stood for the user stands for nobody
/// afterwards, and the reply is the announcement that closes the user's
/// connection.
pub proof fn law_delete_ends_sessions(
    before: AppStateView,
    now: i64,
    actor_token: Option<Seq<char>>,
    target: Seq<char>,
    token: Seq<char>,
)
    requires
        before.wf(),
        delete_user_step(before, now, actor_token, target).reply.outcome is Ok,
    ensures
        ({
            let step = delete_user_step(before, now, actor_token, target);
            &&& step.reply.outcome == Ok::<EventView, Denial>(EventView::UserDeleted { user_id: target })
            &&& closes(step.reply.outcome->Ok_0) == Some(target)
            &&& step.state.user_index(target) is None
            &&& resolve(before.sessions, token) == Some(target) ==> resolve(
                step.state.sessions,
                token,
            ) is None
        }),
{
    let s = cleaned(before, now);
    lemma_first_index_is_first(s.users, crate::users::with_id(target));
    let i = s.user_index(target)->0;
    crate::state::lemma_removed_id_is_free(s.users, i);
    law_revoked_tokens_resolve_to_none(s.sessions, target, token);
}

/// The deletion of one's own account takes the user out of the directory,
/// and every token that stood for the user, the one presented among them,
/// stands for nobody afterwards.
pub proof fn law_delete_account_ends_sessions(
    before: AppStateView,
    now: i64,
    actor_token: Option<Seq<char>>,
    token: Seq<char>,
)
    requires
        before.wf(),
        delete_account_step(before, now, actor_token).reply.outcome is Ok,
    ensures
        ({
            let step = delete_account_step(before, now, actor_token);
            let gone = closes(step.reply.outcome->Ok_0)->0;
            &&& step.reply.outcome == Ok::<EventView, Denial>(EventView::UserDeleted { user_id: gone })
            &&& step.state.user_index(gone) is None
            &&& resolve(before.sessions, token) == Some(gone) ==> resolve(
                step.state.sessions,
                token,
            ) is None
            &&& actor_token is Some && resolve(step.state.sessions, actor_token->0) is None
        }),
{
    let s = cleaned(before, now);
    let i = s.actor(actor_token)->0;
    let gone = s.users[i].id;
    let held = resolve(s.sessions, actor_token->0)->0;
    lemma_first_index_is_first(s.users, crate::users::with_id(held));
    crate::state::lemma_removed_id_is_free(s.users, i);
    law_revoked_tokens_resolve_to_none(s.sessions, gone, token);
    law_revoked_tokens_resolve_to_none(s.sessions, gone, actor_token->0);
}

/// The announcement of a ban or a deletion reaches every open connection,
/// and closes exactly the connections of the user it names.
pub proof fn law_named_connection_closed(entries: Seq<ConnectionView>, user_id: Seq<char>, k: int)
    requires
        0 <= k < entries.len(),
    ensures
        fan_out(entries, Some(user_id)).len() == entries.len(),
        fan_out(entries, Some(user_id))[k].handle == entries[k].handle,
        fan_out(entries, Some(user_id))[k].close_after == (entries[k].user_id == user_id),
        !fan_out(entries, None)[k].close_after,
{
}

/// Pruning never lifts a ban: an address that is barred at some time from
/// `now` on is barred then whether or not the blacklist was pruned at `now`.
pub proof fn law_pruning_keeps_bans(list: Seq<IpBlacklistView>, ip: Seq<char>, now: i64, t: i64)
    requires
        now <= t,
    ensures
        is_blacklisted(list.filter(in_force(now)), ip, t) == is_blacklisted(list, ip, t),
{
    crate::seqs::lemma_any_meets_narrowed(list, in_force(now), bars(ip, t));
}

/// The first user ever to register becomes the administrator, is active at
/// once and holds a session.
pub proof fn law_first_registrant_is_admin(
    before: AppStateView,
    ip: Seq<char>,
    body: RegisterRequest,
    now: i64,
    password_hash: Seq<char>,
    user_id: Seq<char>,
    token: Seq<char>,
)
    requires
        before.wf(),
        before.users.len() == 0,
        register_step(before, ip, body, now, password_hash, user_id, token).reply.outcome is Ok,
    ensures
        ({
            let step = register_step(before, ip, body, now, password_hash, user_id, token);
            &&& step.reply.outcome == Ok::<Registered, Denial>(Registered::WithSession)
            &&& step.state.users.len() == 1
            &&& step.state.users[0].id == user_id
            &&& step.state.users[0].role == UserRole::Admin
            &&& step.state.users[0].status == crate::models::UserStatus::Active
            &&& admins(step.state.users) == 1
            &&& resolve(step.state.sessions, token) == Some(user_id)
        }),
{
    let step = register_step(before, ip, body, now, password_hash, user_id, token);
    let s = cleaned(before, now);
    if before.sessions.len() > 0 {
        assert(any_meets(before.users, crate::users::active_with_id(before.sessions[0].user_id)));
    }
    lemma_filter_none(s.users, is_admin());
    lemma_filter_push(s.users, is_admin(), step.state.users[0]);
    lemma_filter_none(s.sessions, owned_by(user_id));
    lemma_first_index_none(s.sessions, owned_by(user_id));
    assert(step.state.sessions =~= seq![SessionView { token, user_id, created_at: now }]);
    assert(is_first(step.state.sessions, has_token(token), 0));
    lemma_first_index_some(step.state.sessions, has_token(token), 0);
}

/// Whoever registers later is a member, and the number of administrators
/// stays what it was.
pub proof fn law_later_registrants_are_members(
    before: AppStateView,
    ip: Seq<char>,
    body: RegisterRequest,
    now: i64,
    password_hash: Seq<char>,
    user_id: Seq<char>,
    token: Seq<char>,
)
    requires
        before.users.len() > 0,
        register_step(before, ip, body, now, password_hash, user_id, token).reply.outcome is Ok,
    ensures
        ({
            let step = register_step(before, ip, body, now, password_hash, user_id, token);
            &&& step.state.users.len() == before.users.len() + 1
            &&& step.state.users.last().id == user_id
            &&& step.state.users.last().role == UserRole::Member
            &&& admins(step.state.users) == admins(before.users)
        }),
{
    let step = register_step(before, ip, body, now, password_hash, user_id, token);
    lemma_filter_push(before.users, is_admin(), step.state.users.last());
}

/// Where there is one administrator, there still is one after a deputy was
/// named or unnamed, a user was banned, deleted or rejected, or an account
/// was deleted by its owner: none of these reaches the administrator.
pub proof fn law_admin_stays(
    before: AppStateView,
    now: i64,
    token: Option<Seq<char>>,
    target: Seq<char>,
    is_deputy: bool,
)
    requires
        before.wf(),
        admins(before.users) == 1,
    ensures
        admins(
            crate::moderation::set_deputy_admin_step(before, now, token, target, is_deputy).state.users,
        ) == 1,
        admins(ban_user_step(before, now, token, target).state.users) == 1,
        admins(delete_user_step(before, now, token, target).state.users) == 1,
        admins(crate::admin::reject_user_step(before, now, token, target).state.users) == 1,
        admins(delete_account_step(before, now, token).state.users) == 1,
{
    let s = cleaned(before, now);
    let p = is_admin();
    lemma_first_index_is_first(s.users, crate::users::with_id(target));
    if s.actor(token) is Some {
        let a = s.actor(token)->0;
        let held = resolve(s.sessions, token->0)->0;
        lemma_first_index_is_first(s.users, crate::users::with_id(held));
        lemma_first_index_is_first(s.sessions, has_token(token->0));
        let k = first_index(s.sessions, has_token(token->0))->0;
        assert(any_meets(s.users, crate::users::active_with_id(s.sessions[k].user_id)));
        let w = choose|w: int|
            0 <= w < s.users.len() && crate::users::active_with_id(held)(#[trigger] s.users[w]);
        if w != a {
            let lo = if w < a { w } else { a };
            let hi = if w < a { a } else { w };
            assert(crate::users::id_of()(s.users[lo]) != crate::users::id_of()(s.users[hi]));
        }
        assert(s.users[a].status == crate::models::UserStatus::Active);
        crate::seqs::lemma_filter_remove(s.users, p, a);
        if s.user_index(target) is Some {
            let i = s.user_index(target)->0;
            crate::seqs::lemma_filter_remove(s.users, p, i);
            if i != a && p(s.users[i]) && p(s.users[a]) {
                crate::seqs::lemma_two_meet(s.users, p, i, a);
            }
            let role = if is_deputy {
                UserRole::DeputyAdmin
            } else {
                UserRole::Member
            };
            if !p(s.users[i]) {
                crate::seqs::lemma_count_changed(
                    s.users,
                    p,
                    i,
                    crate::models::UserView { role, ..s.users[i] },
                );
            }
        }
    }
}

/// Every registration that the limiter allows is counted, whether or not it
/// then goes through; one that the limiter refuses is not counted. A
/// refused registration, counted or not, registers nobody and issues no
/// session.
pub proof fn law_every_allowed_registration_is_counted(
    before: AppStateView,
    ip: Seq<char>,
    body: RegisterRequest,
    now: i64,
    password_hash: Seq<char>,
    user_id: Seq<char>,
    token: Seq<char>,
)
    ensures
        ({
            let step = register_step(before, ip, body, now, password_hash, user_id, token);
            let s = cleaned(before, now);
            let verdict = registration_verdict(s.ip_blacklist, s.registration_attempts, ip, now);
            &&& verdict is Ok ==> step.state.registration_attempts
                == s.registration_attempts.push(AttemptView { ip, timestamp: now })
            &&& verdict is Err ==> step.state.registration_attempts == s.registration_attempts
                && step.reply.outcome == Err::<Registered, Denial>(verdict->Err_0)
            &&& step.reply.outcome is Err ==> step.state.users == s.users && step.state.sessions
                == s.sessions && step.state.verification_codes == s.verification_codes
        }),
{
}

/// Asking for a verification code counts nothing: until the code has gone
/// out, the registry only loses what has run out. The send is counted, and
/// the code becomes pending, when the caller reports that it went out.
pub proof fn law_sends_are_counted_after_they_went_out(
    before: AppStateView,
    ip: Seq<char>,
    email: Seq<char>,
    code: Seq<char>,
    now: i64,
    format: Option<bool>,
)
    ensures
        crate::accounts::send_code_step(before, ip, email, now, format).state == cleaned(
            before,
            now,
        ),
        crate::accounts::code_sent(before, ip, email, code, now).verification_attempts
            == before.verification_attempts.push(AttemptView { ip, timestamp: now }),
        crate::guard::pending_code(
            crate::accounts::code_sent(before, ip, email, code, now).verification_codes,
            email,
        ) == Some(code),
{
    let codes = crate::accounts::code_sent(before, ip, email, code, now).verification_codes;
    let rest = before.verification_codes.filter(crate::guard::code_not_for(email));
    lemma_filter_members(before.verification_codes, crate::guard::code_not_for(email));
    assert forall|j: int| 0 <= j < rest.len() implies !crate::guard::code_for(email)(
        #[trigger] codes[j],
    ) by {
        assert(codes[j] == rest[j]);
        assert(crate::guard::code_not_for(email)(rest[j]));
    }
    assert(is_first(codes, crate::guard::code_for(email), rest.len() as int));
    lemma_first_index_some(codes, crate::guard::code_for(email), rest.len() as int);
}

/// The token of a session and the sessions of a user tell the same story: a
/// token stands for a user exactly when it is the token of one of that
/// user's sessions.
pub proof fn law_token_names_its_owner(
    sessions: Seq<SessionView>,
    token: Seq<char>,
    user_id: Seq<char>,
)
    requires
        distinct_by(sessions, token_of()),
    ensures
        resolve(sessions, token) == Some(user_id) <==> exists|k: int|
            0 <= k < sessions_of(sessions, user_id).len() && (#[trigger] sessions_of(
                sessions,
                user_id,
            )[k]).token == token,
{
    let own = sessions_of(sessions, user_id);
    let p = has_token(token);
    lemma_first_index_is_first(sessions, p);
    lemma_filter_members(sessions, owned_by(user_id));
    if resolve(sessions, token) == Some(user_id) {
        let i = first_index(sessions, p)->0;
        assert(sessions.contains(sessions[i]));
        assert(own.contains(sessions[i]));
        let k = choose|k: int| 0 <= k < own.len() && own[k] == sessions[i];
        assert(own[k].token == token);
    }
    if exists|k: int| 0 <= k < own.len() && (#[trigger] own[k]).token == token {
        let k = choose|k: int| 0 <= k < own.len() && (#[trigger] own[k]).token == token;
        assert(own.contains(own[k]));
        assert(sessions.contains(own[k]));
        let m = choose|m: int| 0 <= m < sessions.len() && sessions[m] == own[k];
        assert(p(sessions[m]));
        let i = first_index(sessions, p)->0;
        if i < m {
            assert(token_of()(sessions[i]) != token_of()(sessions[m]));
        }
        assert(owned_by(user_id)(own[k]));
    }
}

pub open spec fn email_of() -> spec_fn(crate::models::UserView) -> Seq<char> {
    |u: crate::models::UserView| u.email
}

pub open spec fn name_of() -> spec_fn(crate::models::UserView) -> Seq<char> {
    |u: crate::models::UserView| u.username
}

/// No two users share an email or a name.
pub open spec fn emails_and_names_distinct(users: Seq<crate::models::UserView>) -> bool {
    distinct_by(users, email_of()) && distinct_by(users, name_of())
}

proof fn lemma_newcomer_is_distinct(
    users: Seq<crate::models::UserView>,
    user: crate::models::UserView,
)
    requires
        emails_and_names_distinct(users),
        !any_meets(users, crate::users::with_email(user.email)),
        !any_meets(users, crate::users::with_name(user.username)),
    ensures
        emails_and_names_distinct(users.push(user)),
{
    let grown = users.push(user);
    assert forall|a: int, b: int| 0 <= a < b < grown.len() implies email_of()(#[trigger] grown[a])
        != email_of()(#[trigger] grown[b]) by {
        if b < users.len() {
            assert(grown[a] == users[a] && grown[b] == users[b]);
        } else {
            assert(grown[a] == users[a]);
            assert(!crate::users::with_email(user.email)(users[a]));
        }
    }
    assert forall|a: int, b: int| 0 <= a < b < grown.len() implies name_of()(#[trigger] grown[a])
        != name_of()(#[trigger] grown[b]) by {
        if b < users.len() {
            assert(grown[a] == users[a] && grown[b] == users[b]);
        } else {
            assert(grown[a] == users[a]);
            assert(!crate::users::with_name(user.username)(users[a]));
        }
    }
}

/// Where no two users share an email or a name, none do after a
/// registration or after the administrator has added a user.
pub proof fn law_emails_and_names_stay_distinct(
    before: AppStateView,
    ip: Seq<char>,
    body: RegisterRequest,
    added: crate::api::AddUserRequest,
    now: i64,
    actor_token: Option<Seq<char>>,
    password_hash: Seq<char>,
    user_id: Seq<char>,
    token: Seq<char>,
)
    requires
        emails_and_names_distinct(before.users),
    ensures
        emails_and_names_distinct(
            register_step(before, ip, body, now, password_hash, user_id, token).state.users,
        ),
        emails_and_names_distinct(
            crate::admin::add_user_step(
                before,
                now,
                actor_token,
                added,
                password_hash,
                user_id,
            ).state.users,
        ),
{
    let s = cleaned(before, now);
    let registered = register_step(before, ip, body, now, password_hash, user_id, token);
    if registered.reply.outcome is Ok {
        lemma_newcomer_is_distinct(s.users, registered.state.users.last());
    }
    let joined = crate::admin::add_user_step(
        before,
        now,
        actor_token,
        added,
        password_hash,
        user_id,
    );
    if joined.reply.outcome is Ok {
        lemma_newcomer_is_distinct(s.users, joined.state.users.last());
    }
}

/// The log only grows: sending appends one message, recalling changes one
/// in place, and every message that was there keeps its place, id, author,
/// content and time.
pub proof fn law_log_only_grows(
    before: AppStateView,
    now: i64,
    token: Option<Seq<char>>,
    content: Seq<char>,
    message_id: Seq<char>,
    k: int,
)
    requires
        0 <= k < before.messages.len(),
    ensures
        ({
            let sent = crate::chat::send_message_step(before, now, token, content, message_id).state;
            let recalled = recall_message_step(before, now, token, message_id).state;
            &&& before.messages.len() <= sent.messages.len() <= before.messages.len() + 1
            &&& sent.messages[k] == before.messages[k]
            &&& recalled.messages.len() == before.messages.len()
            &&& recalled.messages[k].id == before.messages[k].id
            &&& recalled.messages[k].user_id == before.messages[k].user_id
            &&& recalled.messages[k].content == before.messages[k].content
            &&& recalled.messages[k].timestamp == before.messages[k].timestamp
        }),
{
    lemma_first_index_is_first(before.messages, recallable(message_id));
}

/// A session created under a token that is not in use is found under that
/// token, and every token that stood for someone still does, unless it was
/// the one evicted.
pub proof fn law_new_token_resolves(sessions: Seq<SessionView>, session: SessionView, held: Seq<char>)
    requires
        resolve(sessions, session.token) is None,
    ensures
        resolve(with_session(sessions, session), session.token) == Some(session.user_id),
        live_count(sessions, session.user_id) < MAX_SESSIONS_PER_USER ==> (resolve(sessions, held)
            is Some ==> resolve(with_session(sessions, session), held) == resolve(sessions, held)),
{
    let p = owned_by(session.user_id);
    let room = after_eviction(sessions, session.user_id);
    let out = with_session(sessions, session);
    let t = has_token(session.token);
    lemma_first_index_is_first(sessions, p);
    lemma_first_index_is_first(sessions, t);
    assert forall|k: int| 0 <= k < room.len() implies !t(#[trigger] out[k]) by {
        if room == sessions {
            assert(out[k] == sessions[k]);
        } else {
            let i = first_index(sessions, p)->0;
            let k0 = if k < i { k } else { k + 1 };
            assert(out[k] == sessions[k0]);
        }
        assert(!t(out[k]));
    }
    assert(is_first(out, t, room.len() as int));
    lemma_first_index_some(out, t, room.len() as int);
    if live_count(sessions, session.user_id) < MAX_SESSIONS_PER_USER && resolve(sessions, held)
        is Some {
        let h = has_token(held);
        lemma_first_index_is_first(sessions, h);
        let i = first_index(sessions, h)->0;
        assert(out == sessions.push(session));
        assert forall|j: int| 0 <= j < i implies !h(#[trigger] out[j]) by {
            assert(out[j] == sessions[j]);
        }
        assert(out[i] == sessions[i]);
        assert(is_first(out, h, i));
        lemma_first_index_some(out, h, i);
    }
}

/// An active user who presents the right password and draws a token that is
/// not in use is logged in. The token stood for nobody before and stands for
/// the user after; the user then holds one session more, or five where five
/// were held; and below five, every token that stood for the user still
/// does.
pub proof fn law_login_succeeds(
    before: AppStateView,
    ip: Seq<char>,
    email: Seq<char>,
    password_hash: Seq<char>,
    now: i64,
    token: Seq<char>,
    held: Seq<char>,
)
    requires
        before.wf(),
        first_index(before.users, crate::users::with_email(email)) is Some,
        ({
            let user = before.users[first_index(before.users, crate::users::with_email(email))->0];
            user.status == crate::models::UserStatus::Active && user.password_hash
                == password_hash
        }),
        resolve(before.sessions, token) is None,
    ensures
        ({
            let step = crate::accounts::login_step(before, ip, email, password_hash, now, token);
            let user = before.users[first_index(before.users, crate::users::with_email(email))->0];
            let n = live_count(before.sessions, user.id);
            &&& step.reply.outcome == Ok::<(), Denial>(())
            &&& resolve(step.state.sessions, token) == Some(user.id)
            &&& n <= MAX_SESSIONS_PER_USER
            &&& n < MAX_SESSIONS_PER_USER ==> live_count(step.state.sessions, user.id) == n + 1
            &&& n == MAX_SESSIONS_PER_USER ==> live_count(step.state.sessions, user.id)
                == MAX_SESSIONS_PER_USER
            &&& n < MAX_SESSIONS_PER_USER && resolve(before.sessions, held) == Some(user.id)
                ==> resolve(step.state.sessions, held) == Some(user.id)
        }),
{
    let user = before.users[first_index(before.users, crate::users::with_email(email))->0];
    let session = SessionView { token, user_id: user.id, created_at: now };
    lemma_first_index_is_first(before.users, crate::users::with_email(email));
    assert(live_count(before.sessions, user.id) <= MAX_SESSIONS_PER_USER);
    law_oldest_session_evicted(before.sessions, session);
    law_new_token_resolves(before.sessions, session, held);
}

/// What makes a registration acceptable once the limiter has allowed it:
/// registration is open or nobody has registered yet, the email is not
/// blacklisted, neither email nor name is taken, the code that is pending
/// for the email and has not run out is the one presented, and the drawn id
/// and token are not in use.
pub open spec fn acceptable_registration(
    before: AppStateView,
    body: RegisterRequest,
    now: i64,
    user_id: Seq<char>,
    token: Seq<char>,
) -> bool {
    &&& before.settings.registration_open || before.users.len() == 0
    &&& !before.email_blacklist.contains(body.email@)
    &&& !any_meets(before.users, crate::users::with_email(body.email@))
    &&& !any_meets(before.users, crate::users::with_name(body.username@))
    &&& crate::guard::pending_code(
        before.verification_codes.filter(crate::guard::code_fresh(now)),
        body.email@,
    ) == Some(body.verification_code@)
    &&& before.user_index(user_id) is None
    &&& resolve(before.sessions, token) is None
}

/// Once every blacklist entry of an address has run out and fewer than
/// three of its registrations lie within the last hour, an acceptable
/// registration from there goes through: the registrant is the last user of
/// the directory, with the digest given, the attempt is counted, and no
/// blacklist entry of the address is left.
pub proof fn law_registration_succeeds_again(
    before: AppStateView,
    ip: Seq<char>,
    body: RegisterRequest,
    now: i64,
    password_hash: Seq<char>,
    user_id: Seq<char>,
    token: Seq<char>,
)
    requires
        forall|k: int|
            0 <= k < before.ip_blacklist.len() && (#[trigger] before.ip_blacklist[k]).ip == ip
                ==> before.ip_blacklist[k].until <= now,
        count(before.registration_attempts, recent_from(ip, now, HOUR_MS))
            < REGISTRATIONS_PER_HOUR,
        acceptable_registration(before, body, now, user_id, token),
    ensures
        ({
            let step = register_step(before, ip, body, now, password_hash, user_id, token);
            let user = step.state.users.last();
            &&& step.reply.outcome is Ok
            &&& step.state.users == before.users.push(user)
            &&& user.id == user_id
            &&& user.email == body.email@
            &&& user.username == body.username@
            &&& user.password_hash == password_hash
            &&& (step.reply.outcome == Ok::<Registered, Denial>(Registered::WithSession)) == (
            user.status == crate::models::UserStatus::Active)
            &&& step.state.registration_attempts.last() == (AttemptView { ip, timestamp: now })
            &&& forall|k: int|
                0 <= k < step.state.ip_blacklist.len() ==> (#[trigger] step.state.ip_blacklist[k]).ip
                    != ip
        }),
{
    let s = cleaned(before, now);
    let step = register_step(before, ip, body, now, password_hash, user_id, token);
    law_registration_allowed_again(before.ip_blacklist, before.registration_attempts, ip, now);
    lemma_filter_members(before.ip_blacklist, in_force(now));
    assert forall|k: int| 0 <= k < step.state.ip_blacklist.len() implies (
    #[trigger] step.state.ip_blacklist[k]).ip != ip by {
        let entry = s.ip_blacklist[k];
        assert(s.ip_blacklist.contains(entry));
        assert(before.ip_blacklist.contains(entry));
        let m = choose|m: int| 0 <= m < before.ip_blacklist.len() && before.ip_blacklist[m] == entry;
        assert(in_force(now)(entry));
    }
}

/// Into an empty directory, whatever the settings, an acceptable
/// registration that the limiter allows goes through: the registrant is the
/// one user, the administrator, active, and the drawn token stands for them.
pub proof fn law_first_registration_succeeds(
    before: AppStateView,
    ip: Seq<char>,
    body: RegisterRequest,
    now: i64,
    password_hash: Seq<char>,
    user_id: Seq<char>,
    token: Seq<char>,
)
    requires
        before.wf(),
        before.users.len() == 0,
        !is_blacklisted(before.ip_blacklist, ip, now),
        count(before.registration_attempts, recent_from(ip, now, HOUR_MS))
            < REGISTRATIONS_PER_HOUR,
        !before.email_blacklist.contains(body.email@),
        crate::guard::pending_code(
            before.verification_codes.filter(crate::guard::code_fresh(now)),
            body.email@,
        ) == Some(body.verification_code@),
    ensures
        ({
            let step = register_step(before, ip, body, now, password_hash, user_id, token);
            &&& step.reply.outcome == Ok::<Registered, Denial>(Registered::WithSession)
            &&& step.state.users.len() == 1
            &&& step.state.users[0].id == user_id
            &&& step.state.users[0].username == body.username@
            &&& step.state.users[0].email == body.email@
            &&& step.state.users[0].role == UserRole::Admin
            &&& step.state.users[0].status == crate::models::UserStatus::Active
            &&& resolve(step.state.sessions, token) == Some(user_id)
        }),
{
    law_pruning_keeps_registration_verdict(
        before.ip_blacklist,
        before.registration_attempts,
        ip,
        now,
    );
    if before.sessions.len() > 0 {
        assert(any_meets(before.users, crate::users::active_with_id(before.sessions[0].user_id)));
    }
    lemma_first_index_none(before.users, crate::users::with_id(user_id));
    lemma_first_index_none(before.sessions, has_token(token));
    law_first_registrant_is_admin(before, ip, body, now, password_hash, user_id, token);
}

/// With approval required and registration open, an acceptable later
/// registration that the limiter allows is appended as a pending member.
/// Earlier users and all sessions are as before, and no session is issued.
pub proof fn law_later_registration_awaits_approval(
    before: AppStateView,
    ip: Seq<char>,
    body: RegisterRequest,
    now: i64,
    password_hash: Seq<char>,
    user_id: Seq<char>,
    token: Seq<char>,
)
    requires
        before.users.len() > 0,
        before.settings.require_approval && before.settings.registration_open,
        !is_blacklisted(before.ip_blacklist, ip, now),
        count(before.registration_attempts, recent_from(ip, now, HOUR_MS))
            < REGISTRATIONS_PER_HOUR,
        acceptable_registration(before, body, now, user_id, token),
    ensures
        ({
            let step = register_step(before, ip, body, now, password_hash, user_id, token);
            let user = step.state.users.last();
            &&& step.reply.outcome == Ok::<Registered, Denial>(Registered::AwaitingApproval)
            &&& !step.reply.save.sessions
            &&& step.state.users == before.users.push(user)
            &&& user.id == user_id
            &&& user.role == UserRole::Member
            &&& user.status == crate::models::UserStatus::Pending
            &&& user.password_hash == password_hash
            &&& step.state.sessions == before.sessions
            &&& resolve(step.state.sessions, token) is None
        }),
{
    law_pruning_keeps_registration_verdict(
        before.ip_blacklist,
        before.registration_attempts,
        ip,
        now,
    );
}

/// A message that is sent gets an id that no message of the log has.
pub proof fn law_new_message_id_is_unused(
    before: AppStateView,
    now: i64,
    token: Option<Seq<char>>,
    content: Seq<char>,
    message_id: Seq<char>,
    k: int,
)
    requires
        crate::chat::send_message_step(before, now, token, content, message_id).reply.outcome
            is Ok,
        0 <= k < before.messages.len(),
    ensures
        ({
            let after = crate::chat::send_message_step(before, now, token, content, message_id).state;
            &&& after.messages.len() == before.messages.len() + 1
            &&& after.messages.last().id == message_id
            &&& after.messages.last().content == content
            &&& !after.messages.last().recalled
            &&& after.messages.last().original_content is None
            &&& before.messages[k].id != message_id
        }),
{
    assert(!crate::chat::with_message_id(message_id)(before.messages[k]));
}

/// What a user has seen is kept as a set: adding ids to a list without
/// repeats gives a list without repeats that begins with the old one and
/// holds exactly the old ids and the added ones.
pub proof fn law_seen_ids_are_a_set(seen: Seq<Seq<char>>, more: Seq<Seq<char>>)
    requires
        seen.no_duplicates(),
    ensures
        crate::chat::merged(seen, more).no_duplicates(),
        crate::chat::merged(seen, more).len() >= seen.len(),
        crate::chat::merged(seen, more).take(seen.len() as int) == seen,
        forall|x: Seq<char>| #[trigger]
            crate::chat::merged(seen, more).contains(x) <==> seen.contains(x) || more.contains(x),
    decreases more.len(),
{
    let out = crate::chat::merged(seen, more);
    if more.len() == 0 {
        assert(out.take(seen.len() as int) =~= seen);
    } else {
        let first = more[0];
        let rest = more.drop_first();
        let next = if seen.contains(first) {
            seen
        } else {
            seen.push(first)
        };
        assert(next.no_duplicates()) by {
            if !seen.contains(first) {
                assert forall|a: int, b: int| 0 <= a < next.len() && 0 <= b < next.len() && a
                    != b implies next[a] != next[b] by {
                    if a < seen.len() {
                        assert(seen.contains(seen[a]));
                    }
                    if b < seen.len() {
                        assert(seen.contains(seen[b]));
                    }
                }
            }
        }
        law_seen_ids_are_a_set(next, rest);
        assert(out == crate::chat::merged(next, rest));
        assert(out.take(seen.len() as int) =~= seen) by {
            assert(out.take(next.len() as int) == next);
            assert forall|j: int| 0 <= j < seen.len() implies out[j] == seen[j] by {
                assert(out.take(next.len() as int)[j] == next[j]);
            }
        }
        assert forall|x: Seq<char>| #[trigger] out.contains(x) <==> seen.contains(x)
            || more.contains(x) by {
            if more.contains(x) {
                let m = choose|m: int| 0 <= m < more.len() && more[m] == x;
                if m > 0 {
                    assert(rest[m - 1] == x);
                    assert(rest.contains(x));
                } else {
                    assert(next.contains(x)) by {
                        if !seen.contains(first) {
                            assert(next[next.len() - 1] == x);
                        }
                    }
                }
            }
            if rest.contains(x) {
                let m = choose|m: int| 0 <= m < rest.len() && rest[m] == x;
                assert(more[m + 1] == x);
            }
            if next.contains(x) && !seen.contains(x) {
                let m = choose|m: int| 0 <= m < next.len() && next[m] == x;
                if m < seen.len() {
                    assert(seen[m] == x);
                }
                assert(more[0] == x);
            }
            if seen.contains(x) {
                let m = choose|m: int| 0 <= m < seen.len() && seen[m] == x;
                assert(next[m] == x);
            }
        }
    }
}

/// Marking mentions as seen adds the ids to what the caller had seen, as
/// `merged` says, whether or not the caller had a record before; and what
/// the caller is then shown as seen is exactly that.
pub proof fn law_marked_mentions_are_seen(
    before: AppStateView,
    now: i64,
    token: Seq<char>,
    ids: Seq<Seq<char>>,
)
    requires
        distinct_by(before.mention_checks, crate::state::checked_by()),
        resolve(before.sessions, token) is Some,
    ensures
        ({
            let user_id = resolve(before.sessions, token)->0;
            let step = crate::chat::mark_mentions_checked_step(before, now, Some(token), ids);
            let seen = match first_index(before.mention_checks, crate::chat::checks_of(user_id)) {
                Some(k) => before.mention_checks[k].checked_message_ids,
                None => Seq::empty(),
            };
            &&& step.reply.outcome == Ok::<(), Denial>(())
            &&& crate::chat::mentions_seen(step.state, Some(token)) == Ok::<
                Seq<Seq<char>>,
                Denial,
            >(crate::chat::merged(seen, ids))
        }),
{
    let user_id = resolve(before.sessions, token)->0;
    let p = crate::chat::checks_of(user_id);
    let after = crate::chat::mark_mentions_checked_step(before, now, Some(token), ids).state;
    let checks = before.mention_checks;
    lemma_first_index_is_first(checks, p);
    match first_index(checks, p) {
        Some(k) => {
            assert forall|j: int| 0 <= j < k implies !p(#[trigger] after.mention_checks[j]) by {
                assert(after.mention_checks[j] == checks[j]);
            }
            assert(is_first(after.mention_checks, p, k));
            lemma_first_index_some(after.mention_checks, p, k);
        },
        None => {
            assert forall|j: int| 0 <= j < checks.len() implies !p(
                #[trigger] after.mention_checks[j],
            ) by {
                assert(after.mention_checks[j] == checks[j]);
            }
            assert(is_first(after.mention_checks, p, checks.len() as int));
            lemma_first_index_some(after.mention_checks, p, checks.len() as int);
        },
    }
}

} // verus!
