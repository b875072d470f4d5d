//! The session manager: tokens are issued per user in order of creation, each
//! token names one user, and a user holds at most five sessions at a time.
//! When a sixth is created the oldest one is revoked.

use crate::models::{Session, SessionView};
use crate::seqs::{
    count, distinct_by, first_index, first_match, is_first, lemma_filter_distinct,
    lemma_filter_next, lemma_filter_none, lemma_filter_push, lemma_filter_remove,
    lemma_first_index_is_first, lemma_first_index_none, lemma_first_index_some, views,
};
use crate::text::str_eq;
use vstd::prelude::*;

verus! {

/// How many sessions one user may hold at a time.
pub const MAX_SESSIONS_PER_USER: usize = 5;

/// Sessions with this token.
pub open spec fn has_token(token: Seq<char>) -> spec_fn(SessionView) -> bool {
    |s: SessionView| s.token == token
}

/// Sessions with any other token.
pub open spec fn other_token(token: Seq<char>) -> spec_fn(SessionView) -> bool {
    |s: SessionView| s.token != token
}

/// Sessions of this user.
pub open spec fn owned_by(user_id: Seq<char>) -> spec_fn(SessionView) -> bool {
    |s: SessionView| s.user_id == user_id
}

/// Sessions of anyone else.
pub open spec fn not_owned_by(user_id: Seq<char>) -> spec_fn(SessionView) -> bool {
    |s: SessionView| s.user_id != user_id
}

/// The token of a session: the key under which it is found.
pub open spec fn token_of() -> spec_fn(SessionView) -> Seq<char> {
    |s: SessionView| s.token
}

/// The user that `token` stands for, if it is a live token.
pub open spec fn resolve(sessions: Seq<SessionView>, token: Seq<char>) -> Option<Seq<char>> {
    match first_match(sessions, has_token(token)) {
        Some(s) => Some(s.user_id),
        None => None,
    }
}

/// How many live sessions `user_id` holds.
pub open spec fn live_count(sessions: Seq<SessionView>, user_id: Seq<char>) -> nat {
    count(sessions, owned_by(user_id))
}

/// The live sessions of `user_id`, oldest first.
pub open spec fn sessions_of(sessions: Seq<SessionView>, user_id: Seq<char>) -> Seq<SessionView> {
    sessions.filter(owned_by(user_id))
}

/// No token occurs twice, and nobody holds more than five sessions.
pub open spec fn sessions_wf(sessions: Seq<SessionView>) -> bool {
    &&& distinct_by(sessions, token_of())
    &&& forall|user_id: Seq<char>| #[trigger] live_count(sessions, user_id) <= MAX_SESSIONS_PER_USER
}

/// Makes room for one more session of `user_id`: where the user already holds
/// five, the oldest of them goes.
pub open spec fn after_eviction(sessions: Seq<SessionView>, user_id: Seq<char>) -> Seq<
    SessionView,
> {
    if live_count(sessions, user_id) >= MAX_SESSIONS_PER_USER {
        match first_index(sessions, owned_by(user_id)) {
            Some(i) => sessions.remove(i),
            None => sessions,
        }
    } else {
        sessions
    }
}

/// The sessions after one more has been created.
pub open spec fn with_session(sessions: Seq<SessionView>, session: SessionView) -> Seq<
    SessionView,
> {
    after_eviction(sessions, session.user_id).push(session)
}

/// The sessions after `token` has been revoked.
pub open spec fn without_token(sessions: Seq<SessionView>, token: Seq<char>) -> Seq<SessionView> {
    sessions.filter(other_token(token))
}

/// The sessions after every session of `user_id` has been revoked.
pub open spec fn without_user(sessions: Seq<SessionView>, user_id: Seq<char>) -> Seq<
    SessionView,
> {
    sessions.filter(not_owned_by(user_id))
}

/// Filtering never lets a user hold more sessions than before.
pub proof fn lemma_filter_keeps_cap(
    sessions: Seq<SessionView>,
    keep: spec_fn(SessionView) -> bool,
    user_id: Seq<char>,
)
    ensures
        live_count(sessions.filter(keep), user_id) <= live_count(sessions, user_id),
    decreases sessions.len(),
{
    reveal(Seq::filter);
    if sessions.len() > 0 {
        let init = sessions.drop_last();
        let last = sessions.last();
        lemma_filter_keeps_cap(init, keep, user_id);
        assert(init.push(last) =~= sessions);
        lemma_filter_push(init, keep, last);
        lemma_filter_push(init, owned_by(user_id), last);
        lemma_filter_push(init.filter(keep), owned_by(user_id), last);
    }
}

/// Revoking sessions keeps the session list well formed.
pub proof fn lemma_filter_wf(sessions: Seq<SessionView>, keep: spec_fn(SessionView) -> bool)
    requires
        sessions_wf(sessions),
    ensures
        sessions_wf(sessions.filter(keep)),
{
    lemma_filter_distinct(sessions, keep, token_of());
    assert forall|user_id: Seq<char>| #[trigger]
        live_count(sessions.filter(keep), user_id) <= MAX_SESSIONS_PER_USER by {
        lemma_filter_keeps_cap(sessions, keep, user_id);
        assert(live_count(sessions, user_id) <= MAX_SESSIONS_PER_USER);
    }
}

/// Creating a session under a token that is not in use keeps the session
/// list well formed.
pub proof fn lemma_with_session_wf(sessions: Seq<SessionView>, session: SessionView)
    requires
        sessions_wf(sessions),
        resolve(sessions, session.token) is None,
    ensures
        sessions_wf(with_session(sessions, session)),
{
    let uid = session.user_id;
    let p = owned_by(uid);
    let room = after_eviction(sessions, uid);
    let out = with_session(sessions, session);
    lemma_first_index_is_first(sessions, has_token(session.token));
    lemma_first_index_is_first(sessions, p);
    assert(live_count(sessions, uid) <= MAX_SESSIONS_PER_USER);
    let evicts = live_count(sessions, uid) >= MAX_SESSIONS_PER_USER && first_index(sessions, p)
        is Some;
    if evicts {
        let i = first_index(sessions, p)->0;
        assert(room == sessions.remove(i));
        lemma_filter_remove(sessions, p, i);
        assert forall|a: int, b: int| 0 <= a < b < room.len() implies token_of()(
            #[trigger] room[a],
        ) != token_of()(#[trigger] room[b]) by {
            let a0 = if a < i { a } else { a + 1 };
            let b0 = if b < i { b } else { b + 1 };
            assert(room[a] == sessions[a0] && room[b] == sessions[b0]);
        }
    } else {
        if first_index(sessions, p) is None {
            lemma_filter_none(sessions, p);
        }
        assert(room == sessions);
        assert(live_count(sessions, uid) < MAX_SESSIONS_PER_USER);
    }
    assert(distinct_by(room, token_of()));
    assert(forall|k: int| 0 <= k < room.len() ==> (#[trigger] room[k]).token != session.token) by {
        assert forall|k: int| 0 <= k < room.len() implies (#[trigger] room[k]).token
            != session.token by {
            if evicts {
                let i = first_index(sessions, p)->0;
                let k0 = if k < i { k } else { k + 1 };
                assert(room[k] == sessions[k0]);
                assert(!has_token(session.token)(sessions[k0]));
            } else {
                assert(!has_token(session.token)(sessions[k]));
            }
        }
    }
    assert(distinct_by(out, token_of())) by {
        assert forall|a: int, b: int| 0 <= a < b < out.len() implies token_of()(#[trigger] out[a])
            != token_of()(#[trigger] out[b]) by {
            if b < room.len() {
                assert(out[a] == room[a] && out[b] == room[b]);
            } else {
                assert(out[a] == room[a]);
            }
        }
    }
    assert forall|other: Seq<char>| #[trigger]
        live_count(out, other) <= MAX_SESSIONS_PER_USER by {
        let q = owned_by(other);
        lemma_filter_push(room, q, session);
        assert(live_count(sessions, other) <= MAX_SESSIONS_PER_USER);
        if evicts {
            let i = first_index(sessions, p)->0;
            lemma_filter_remove(sessions, q, i);
        }
        if other != uid {
            assert(!q(session));
        } else {
            assert(q == p);
            assert(q(session));
        }
    }
}

/// Creating a session leaves the sessions of every other user as they were.
pub proof fn lemma_with_session_others(
    sessions: Seq<SessionView>,
    session: SessionView,
    other: Seq<char>,
)
    requires
        other != session.user_id,
    ensures
        sessions_of(with_session(sessions, session), other) == sessions_of(sessions, other),
{
    let p = owned_by(session.user_id);
    let q = owned_by(other);
    let room = after_eviction(sessions, session.user_id);
    lemma_first_index_is_first(sessions, p);
    lemma_filter_push(room, q, session);
    if live_count(sessions, session.user_id) >= MAX_SESSIONS_PER_USER && first_index(sessions, p)
        is Some {
        lemma_filter_remove(sessions, q, first_index(sessions, p)->0);
    }
}

/// The position of the session that `token` names.
pub fn find(sessions: &Vec<Session>, token: &str) -> (at: Option<usize>)
    ensures
        match at {
            Some(i) => first_index(views(sessions@), has_token(token@)) == Some(i as int) && is_first(views(sessions@), has_token(token@), i as int),
            None => first_index(views(sessions@), has_token(token@)) is None,
        },
{
    let ghost s = views(sessions@);
    let mut i: usize = 0;
    while i < sessions.len()
        invariant
            0 <= i <= sessions.len(),
            s == views(sessions@),
            forall|j: int| 0 <= j < i ==> !has_token(token@)(#[trigger] s[j]),
        decreases sessions.len() - i,
    {
        if str_eq(sessions[i].token.as_str(), token) {
            proof {
                assert(is_first(s, has_token(token@), i as int));
                lemma_first_index_some(s, has_token(token@), i as int);
            }
            return Some(i);
        }
        i += 1;
    }
    proof {
        lemma_first_index_none(s, has_token(token@));
    }
    None
}

/// Creates a session. Returns `false`, and changes nothing, where the token
/// is already in use; otherwise the session is appended, after the owner's
/// oldest session has been revoked if there were five.
pub fn create(sessions: &mut Vec<Session>, session: Session) -> (created: bool)
    requires
        sessions_wf(views(old(sessions)@)),
    ensures
        created == (resolve(views(old(sessions)@), session@.token) is None),
        views(final(sessions)@) == if created {
            with_session(views(old(sessions)@), session@)
        } else {
            views(old(sessions)@)
        },
        sessions_wf(views(final(sessions)@)),
{
    let ghost s = views(sessions@);
    let ghost p = owned_by(session@.user_id);
    if find(sessions, session.token.as_str()).is_some() {
        return false;
    }
    let mut held: usize = 0;
    let mut oldest: Option<usize> = None;
    let mut i: usize = 0;
    while i < sessions.len()
        invariant
            0 <= i <= sessions.len(),
            s == views(sessions@),
            p == owned_by(session@.user_id),
            held == count(s.take(i as int), p),
            held <= i,
            match oldest {
                Some(k) => is_first(s, p, k as int) && k < i,
                None => forall|j: int| 0 <= j < i ==> !p(#[trigger] s[j]),
            },
        decreases sessions.len() - i,
    {
        proof {
            lemma_filter_next(s, p, i as int);
        }
        if str_eq(sessions[i].user_id.as_str(), session.user_id.as_str()) {
            assert(p(s[i as int]));
            held += 1;
            if oldest.is_none() {
                oldest = Some(i);
            }
        }
        i += 1;
    }
    proof {
        assert(s.take(sessions.len() as int) =~= s);
        lemma_with_session_wf(s, session@);
        match oldest {
            Some(k) => {
                lemma_first_index_some(s, p, k as int);
            },
            None => {
                lemma_first_index_none(s, p);
            },
        }
    }
    if held >= MAX_SESSIONS_PER_USER {
        match oldest {
            Some(k) => {
                let _ = sessions.remove(k);
                assert(views(sessions@) =~= s.remove(k as int));
            },
            None => {},
        }
    }
    let ghost room = views(sessions@);
    sessions.push(session);
    assert(views(sessions@) =~= room.push(session@));
    true
}

/// Revokes `token`. Returns whether it was live.
pub fn revoke(sessions: &mut Vec<Session>, token: &str) -> (was_live: bool)
    requires
        sessions_wf(views(old(sessions)@)),
    ensures
        was_live == (resolve(views(old(sessions)@), token@) is Some),
        views(final(sessions)@) == without_token(views(old(sessions)@), token@),
        sessions_wf(views(final(sessions)@)),
{
    let ghost s = views(sessions@);
    let ghost keep = other_token(token@);
    let mut kept: Vec<Session> = Vec::new();
    let mut was_live = false;
    let mut i: usize = 0;
    while i < sessions.len()
        invariant
            0 <= i <= sessions.len(),
            s == views(sessions@),
            keep == other_token(token@),
            views(kept@) == s.take(i as int).filter(keep),
            was_live == exists|j: int| 0 <= j < i && has_token(token@)(#[trigger] s[j]),
        decreases sessions.len() - i,
    {
        proof {
            lemma_filter_next(s, keep, i as int);
        }
        if str_eq(sessions[i].token.as_str(), token) {
            assert(has_token(token@)(s[i as int]));
            was_live = true;
        } else {
            let ghost before = views(kept@);
            kept.push(sessions[i].clone());
            assert(views(kept@) =~= before.push(s[i as int]));
        }
        i += 1;
    }
    proof {
        assert(s.take(sessions.len() as int) =~= s);
        lemma_filter_wf(s, keep);
        lemma_first_index_is_first(s, has_token(token@));
    }
    *sessions = kept;
    was_live
}

/// Revokes every session of `user_id`.
pub fn revoke_all(sessions: &mut Vec<Session>, user_id: &str)
    requires
        sessions_wf(views(old(sessions)@)),
    ensures
        views(final(sessions)@) == without_user(views(old(sessions)@), user_id@),
        sessions_wf(views(final(sessions)@)),
{
    let ghost s = views(sessions@);
    let ghost keep = not_owned_by(user_id@);
    let mut kept: Vec<Session> = Vec::new();
    let mut i: usize = 0;
    while i < sessions.len()
        invariant
            0 <= i <= sessions.len(),
            s == views(sessions@),
            keep == not_owned_by(user_id@),
            views(kept@) == s.take(i as int).filter(keep),
        decreases sessions.len() - i,
    {
        proof {
            lemma_filter_next(s, keep, i as int);
        }
        if !str_eq(sessions[i].user_id.as_str(), user_id) {
            let ghost before = views(kept@);
            kept.push(sessions[i].clone());
            assert(views(kept@) =~= before.push(s[i as int]));
        }
        i += 1;
    }
    proof {
        assert(s.take(sessions.len() as int) =~= s);
        lemma_filter_wf(s, keep);
    }
    *sessions = kept;
}

/// How many sessions `user_id` holds.
pub fn count_for(sessions: &Vec<Session>, user_id: &str) -> (n: usize)
    ensures
        n == live_count(views(sessions@), user_id@),
{
    let ghost s = views(sessions@);
    let ghost p = owned_by(user_id@);
    let mut n: usize = 0;
    let mut i: usize = 0;
    while i < sessions.len()
        invariant
            0 <= i <= sessions.len(),
            s == views(sessions@),
            p == owned_by(user_id@),
            n == count(s.take(i as int), p),
            n <= i,
        decreases sessions.len() - i,
    {
        proof {
            lemma_filter_next(s, p, i as int);
        }
        if str_eq(sessions[i].user_id.as_str(), user_id) {
            n += 1;
        }
        i += 1;
    }
    assert(s.take(sessions.len() as int) =~= s);
    n
}

/// Tests whether a list of sessions is well formed.
pub fn well_formed(sessions: &Vec<Session>) -> (ok: bool)
    ensures
        ok == sessions_wf(views(sessions@)),
{
    let ghost s = views(sessions@);
    let mut i: usize = 0;
    while i < sessions.len()
        invariant
            0 <= i <= sessions.len(),
            s == views(sessions@),
            forall|a: int, b: int|
                0 <= a < b < i ==> token_of()(#[trigger] s[a]) != token_of()(#[trigger] s[b]),
            forall|k: int|
                0 <= k < i ==> live_count(s, (#[trigger] s[k]).user_id) <= MAX_SESSIONS_PER_USER,
        decreases sessions.len() - i,
    {
        if count_for(sessions, sessions[i].user_id.as_str()) > MAX_SESSIONS_PER_USER {
            assert(live_count(s, s[i as int].user_id) > MAX_SESSIONS_PER_USER);
            return false;
        }
        let mut j: usize = 0;
        while j < i
            invariant
                0 <= j <= i < sessions.len(),
                s == views(sessions@),
                forall|a: int| 0 <= a < j ==> token_of()(#[trigger] s[a]) != token_of()(s[i as int]),
            decreases i - j,
        {
            if str_eq(sessions[j].token.as_str(), sessions[i].token.as_str()) {
                assert(token_of()(s[j as int]) == token_of()(s[i as int]));
                return false;
            }
            j += 1;
        }
        i += 1;
    }
    proof {
        assert forall|user_id: Seq<char>| #[trigger]
            live_count(s, user_id) <= MAX_SESSIONS_PER_USER by {
            if exists|k: int| 0 <= k < s.len() && (#[trigger] s[k]).user_id == user_id {
                let k = choose|k: int| 0 <= k < s.len() && (#[trigger] s[k]).user_id == user_id;
                assert(live_count(s, s[k].user_id) <= MAX_SESSIONS_PER_USER);
            } else {
                assert forall|k: int| 0 <= k < s.len() implies !owned_by(user_id)(#[trigger] s[k]) by {}
                lemma_filter_none(s, owned_by(user_id));
            }
        }
    }
    true
}

} // verus!
