//! Taking the registry over from what was saved. Saved collections are not
//! trusted to be well formed: records are entered one by one, a later record
//! replaces an earlier one under the same key, and sessions are kept only
//! for users who exist and are active.

use crate::chat::{checks_of, find_checks};
use crate::models::{
    IpBlacklist, MentionCheck, MentionCheckView, Message, Session, SessionView, Settings, User,
    UserView, VerificationCodeAttempt,
};
use crate::seqs::{
    any_meets, distinct_by, first_index, lemma_filter_members, lemma_filter_none,
    lemma_first_index_is_first, lemma_first_index_none, views,
};
use crate::sessions::{
    has_token, live_count, other_token, owned_by, resolve, sessions_wf, with_session,
    without_token, MAX_SESSIONS_PER_USER,
};
use crate::state::{
    checked_by, lemma_owners_session_added, lemma_owners_sessions_filtered,
    lemma_removed_id_is_free, lemma_users_wf_added, lemma_users_wf_removed, owners_active,
    AppState, AppStateView,
};
use crate::text::each_chars;
use crate::users::{
    active_with_id, find_by_id, has_one_admin, is_active_user, one_admin, users_wf, with_id,
    MAX_RECENT_IPS,
};
use vstd::prelude::*;

verus! {

/// What was found saved, collection by collection. A collection that was
/// missing or unreadable is `None`, and the registry keeps what it has.
pub struct Snapshot {
    pub users: Option<Vec<User>>,
    pub messages: Option<Vec<Message>>,
    pub settings: Option<Settings>,
    pub sessions: Option<Vec<Session>>,
    pub blacklist: Option<(Vec<IpBlacklist>, Vec<String>)>,
    pub verification_attempts: Option<Vec<VerificationCodeAttempt>>,
    pub mention_checks: Option<Vec<MentionCheck>>,
}

/// A user record with no more than the thirty most recent addresses.
pub open spec fn trimmed(user: UserView) -> UserView {
    UserView {
        last_ips: if user.last_ips.len() > MAX_RECENT_IPS {
            user.last_ips.skip(user.last_ips.len() - MAX_RECENT_IPS)
        } else {
            user.last_ips
        },
        ..user
    }
}

/// The directory after one saved record was entered: it goes to the end,
/// and an earlier record with the same id leaves.
pub open spec fn user_entered(users: Seq<UserView>, user: UserView) -> Seq<UserView> {
    match first_index(users, with_id(user.id)) {
        Some(i) => users.remove(i).push(trimmed(user)),
        None => users.push(trimmed(user)),
    }
}

/// The directory after the saved records were entered in order.
pub open spec fn users_entered(users: Seq<UserView>, saved: Seq<UserView>) -> Seq<UserView>
    decreases saved.len(),
{
    if saved.len() == 0 {
        users
    } else {
        users_entered(user_entered(users, saved[0]), saved.drop_first())
    }
}

/// The sessions after one saved session was entered: it is dropped unless
/// its owner exists and is active; else it takes the place of any session
/// with the same token, and the owner's oldest session leaves where five are
/// held already.
pub open spec fn session_entered(
    users: Seq<UserView>,
    sessions: Seq<SessionView>,
    session: SessionView,
) -> Seq<SessionView> {
    if any_meets(users, active_with_id(session.user_id)) {
        with_session(without_token(sessions, session.token), session)
    } else {
        sessions
    }
}

/// The sessions after the saved sessions were entered in order.
pub open spec fn sessions_entered(
    users: Seq<UserView>,
    sessions: Seq<SessionView>,
    saved: Seq<SessionView>,
) -> Seq<SessionView>
    decreases saved.len(),
{
    if saved.len() == 0 {
        sessions
    } else {
        sessions_entered(users, session_entered(users, sessions, saved[0]), saved.drop_first())
    }
}

/// The mention records after one saved record was entered: it goes to the
/// end, and an earlier record of the same user leaves.
pub open spec fn check_entered(checks: Seq<MentionCheckView>, check: MentionCheckView) -> Seq<
    MentionCheckView,
> {
    match first_index(checks, checks_of(check.user_id)) {
        Some(i) => checks.remove(i).push(check),
        None => checks.push(check),
    }
}

/// The mention records after the saved records were entered in order.
pub open spec fn checks_entered(checks: Seq<MentionCheckView>, saved: Seq<MentionCheckView>) -> Seq<
    MentionCheckView,
>
    decreases saved.len(),
{
    if saved.len() == 0 {
        checks
    } else {
        checks_entered(check_entered(checks, saved[0]), saved.drop_first())
    }
}

/// The users after a snapshot was taken over. Saved users are taken over
/// only where, once entered, they are none or hold exactly one
/// administrator; else the registry keeps the users it has.
pub open spec fn users_loaded(before: AppStateView, snapshot: Snapshot) -> Seq<UserView> {
    match snapshot.users {
        Some(saved) => {
            let entered = users_entered(Seq::empty(), views(saved@));
            if one_admin(entered) {
                entered
            } else {
                before.users
            }
        },
        None => before.users,
    }
}

/// The registry after a snapshot was taken over. Users and mention records
/// are entered into an empty collection; sessions are entered, against the
/// users as they are then, from the saved ones or else from the ones held;
/// the other saved collections take the place of what was held.
pub open spec fn loaded(before: AppStateView, snapshot: Snapshot) -> AppStateView {
    let users = users_loaded(before, snapshot);
    AppStateView {
        users,
        messages: match snapshot.messages {
            Some(saved) => views(saved@),
            None => before.messages,
        },
        settings: match snapshot.settings {
            Some(saved) => saved,
            None => before.settings,
        },
        sessions: sessions_entered(
            users,
            Seq::empty(),
            match snapshot.sessions {
                Some(saved) => views(saved@),
                None => before.sessions,
            },
        ),
        ip_blacklist: match snapshot.blacklist {
            Some(saved) => views(saved.0@),
            None => before.ip_blacklist,
        },
        email_blacklist: match snapshot.blacklist {
            Some(saved) => each_chars(saved.1@),
            None => before.email_blacklist,
        },
        verification_attempts: match snapshot.verification_attempts {
            Some(saved) => views(saved@),
            None => before.verification_attempts,
        },
        mention_checks: match snapshot.mention_checks {
            Some(saved) => checks_entered(Seq::empty(), views(saved@)),
            None => before.mention_checks,
        },
        ..before
    }
}

fn trim_ips(user: &User) -> (r: User)
    ensures
        r@ == trimmed(user@),
        r@.last_ips.len() <= MAX_RECENT_IPS,
{
    let mut out = user.clone();
    let total = user.last_ips.len();
    if total > MAX_RECENT_IPS {
        let from = total - MAX_RECENT_IPS;
        let ghost want = each_chars(user.last_ips@).skip(from as int);
        let mut kept: Vec<String> = Vec::new();
        let mut k: usize = from;
        while k < total
            invariant
                from <= k <= total,
                total == user.last_ips.len(),
                from == total - MAX_RECENT_IPS,
                want == each_chars(user.last_ips@).skip(from as int),
                each_chars(kept@) == want.take(k - from),
            decreases total - k,
        {
            let ghost before = each_chars(kept@);
            kept.push(user.last_ips[k].clone());
            assert(each_chars(kept@) =~= before.push(each_chars(user.last_ips@)[k as int]));
            assert(each_chars(kept@) =~= want.take(k + 1 - from));
            k += 1;
        }
        assert(want.take(total - from) =~= want);
        out.last_ips = kept;
    }
    out
}

fn enter_users(saved: &Vec<User>) -> (users: Vec<User>)
    ensures
        views(users@) == users_entered(Seq::empty(), views(saved@)),
        users_wf(views(users@)),
{
    let ghost all = views(saved@);
    let ghost want = users_entered(Seq::empty(), all);
    let mut users: Vec<User> = Vec::new();
    assert(views(users@) =~= Seq::<UserView>::empty());
    assert(all.skip(0) =~= all);
    let mut i: usize = 0;
    while i < saved.len()
        invariant
            0 <= i <= saved.len(),
            all == views(saved@),
            users_wf(views(users@)),
            users_entered(views(users@), all.skip(i as int)) == want,
        decreases saved.len() - i,
    {
        proof {
            assert(all.skip(i as int)[0] == all[i as int]);
            assert(all.skip(i as int).drop_first() =~= all.skip(i + 1));
        }
        let user = trim_ips(&saved[i]);
        let ghost held = views(users@);
        match find_by_id(&users, user.id.as_str()) {
            Some(at) => {
                proof {
                    lemma_users_wf_removed(held, at as int);
                    lemma_removed_id_is_free(held, at as int);
                }
                let _ = users.remove(at);
                assert(views(users@) =~= held.remove(at as int));
            },
            None => {},
        }
        let ghost room = views(users@);
        proof {
            lemma_users_wf_added(room, user@);
        }
        users.push(user);
        assert(views(users@) =~= room.push(user@));
        i += 1;
    }
    users
}

proof fn lemma_revoked_token_is_free(sessions: Seq<SessionView>, token: Seq<char>)
    ensures
        resolve(without_token(sessions, token), token) is None,
{
    let rest = without_token(sessions, token);
    lemma_filter_members(sessions, other_token(token));
    assert forall|k: int| 0 <= k < rest.len() implies !has_token(token)(#[trigger] rest[k]) by {
        assert(other_token(token)(rest[k]));
    }
    lemma_first_index_none(rest, has_token(token));
}

fn enter_sessions(users: &Vec<User>, saved: &Vec<Session>) -> (sessions: Vec<Session>)
    requires
        users_wf(views(users@)),
    ensures
        views(sessions@) == sessions_entered(views(users@), Seq::empty(), views(saved@)),
        sessions_wf(views(sessions@)),
        owners_active(views(users@), views(sessions@)),
{
    let ghost all = views(saved@);
    let ghost people = views(users@);
    let ghost want = sessions_entered(people, Seq::empty(), all);
    let mut sessions: Vec<Session> = Vec::new();
    proof {
        assert(views(sessions@) =~= Seq::<SessionView>::empty());
        assert(all.skip(0) =~= all);
        assert forall|user_id: Seq<char>| #[trigger]
            live_count(views(sessions@), user_id) <= MAX_SESSIONS_PER_USER by {
            lemma_filter_none(views(sessions@), owned_by(user_id));
        }
    }
    let mut i: usize = 0;
    while i < saved.len()
        invariant
            0 <= i <= saved.len(),
            all == views(saved@),
            people == views(users@),
            users_wf(people),
            sessions_wf(views(sessions@)),
            owners_active(people, views(sessions@)),
            sessions_entered(people, views(sessions@), all.skip(i as int)) == want,
        decreases saved.len() - i,
    {
        proof {
            assert(all.skip(i as int)[0] == all[i as int]);
            assert(all.skip(i as int).drop_first() =~= all.skip(i + 1));
        }
        if is_active_user(users, saved[i].user_id.as_str()) {
            let ghost held = views(sessions@);
            let session = saved[i].clone();
            proof {
                lemma_owners_sessions_filtered(people, held, other_token(session@.token));
                lemma_revoked_token_is_free(held, session@.token);
                lemma_owners_session_added(
                    people,
                    without_token(held, session@.token),
                    session@,
                );
            }
            let _ = crate::sessions::revoke(&mut sessions, session.token.as_str());
            let created = crate::sessions::create(&mut sessions, session);
            assert(created);
        }
        i += 1;
    }
    sessions
}

proof fn lemma_removed_check_is_free(checks: Seq<MentionCheckView>, i: int)
    requires
        distinct_by(checks, checked_by()),
        0 <= i < checks.len(),
    ensures
        distinct_by(checks.remove(i), checked_by()),
        first_index(checks.remove(i), checks_of(checks[i].user_id)) is None,
{
    let rest = checks.remove(i);
    assert forall|a: int, b: int| 0 <= a < b < rest.len() implies checked_by()(#[trigger] rest[a])
        != checked_by()(#[trigger] rest[b]) by {
        let a0 = if a < i { a } else { a + 1 };
        let b0 = if b < i { b } else { b + 1 };
        assert(rest[a] == checks[a0] && rest[b] == checks[b0]);
    }
    assert forall|k: int| 0 <= k < rest.len() implies !checks_of(checks[i].user_id)(
        #[trigger] rest[k],
    ) by {
        let k0 = if k < i { k } else { k + 1 };
        assert(rest[k] == checks[k0]);
        if k0 < i {
            assert(checked_by()(checks[k0]) != checked_by()(checks[i]));
        } else {
            assert(checked_by()(checks[i]) != checked_by()(checks[k0]));
        }
    }
    lemma_first_index_none(rest, checks_of(checks[i].user_id));
}

fn enter_checks(saved: &Vec<MentionCheck>) -> (checks: Vec<MentionCheck>)
    ensures
        views(checks@) == checks_entered(Seq::empty(), views(saved@)),
        distinct_by(views(checks@), checked_by()),
{
    let ghost all = views(saved@);
    let ghost want = checks_entered(Seq::empty(), all);
    let mut checks: Vec<MentionCheck> = Vec::new();
    assert(views(checks@) =~= Seq::<MentionCheckView>::empty());
    assert(all.skip(0) =~= all);
    let mut i: usize = 0;
    while i < saved.len()
        invariant
            0 <= i <= saved.len(),
            all == views(saved@),
            distinct_by(views(checks@), checked_by()),
            checks_entered(views(checks@), all.skip(i as int)) == want,
        decreases saved.len() - i,
    {
        proof {
            assert(all.skip(i as int)[0] == all[i as int]);
            assert(all.skip(i as int).drop_first() =~= all.skip(i + 1));
        }
        let check = saved[i].clone();
        let ghost held = views(checks@);
        match find_checks(&checks, check.user_id.as_str()) {
            Some(at) => {
                proof {
                    lemma_removed_check_is_free(held, at as int);
                }
                let _ = checks.remove(at);
                assert(views(checks@) =~= held.remove(at as int));
            },
            None => {},
        }
        let ghost room = views(checks@);
        checks.push(check);
        proof {
            let out = views(checks@);
            assert(out =~= room.push(check@));
            lemma_first_index_is_first(room, checks_of(check@.user_id));
            assert forall|a: int, b: int| 0 <= a < b < out.len() implies checked_by()(
                #[trigger] out[a],
            ) != checked_by()(#[trigger] out[b]) by {
                if b < room.len() {
                    assert(out[a] == room[a] && out[b] == room[b]);
                } else {
                    assert(out[a] == room[a]);
                    assert(!checks_of(check@.user_id)(room[a]));
                }
            }
        }
        i += 1;
    }
    checks
}

impl AppState {
    /// Takes over what was saved. Whatever the snapshot holds, the registry
    /// is well formed afterwards.
    pub fn load_data(&mut self, snapshot: Snapshot)
        requires
            old(self)@.wf(),
        ensures
            final(self)@ == loaded(old(self)@, snapshot),
            final(self)@.wf(),
    {
        match &snapshot.users {
            Some(saved) => {
                let entered = enter_users(saved);
                if has_one_admin(&entered) {
                    self.users = entered;
                }
            },
            None => {},
        }
        let mut held: Vec<Session> = Vec::new();
        core::mem::swap(&mut self.sessions, &mut held);
        match &snapshot.sessions {
            Some(saved) => {
                self.sessions = enter_sessions(&self.users, saved);
            },
            None => {
                self.sessions = enter_sessions(&self.users, &held);
            },
        }
        match &snapshot.mention_checks {
            Some(saved) => {
                self.mention_checks = enter_checks(saved);
            },
            None => {},
        }
        match snapshot.messages {
            Some(saved) => {
                self.messages = saved;
            },
            None => {},
        }
        match snapshot.settings {
            Some(saved) => {
                self.settings = saved;
            },
            None => {},
        }
        match snapshot.blacklist {
            Some(saved) => {
                self.ip_blacklist = saved.0;
                self.email_blacklist = saved.1;
            },
            None => {},
        }
        match snapshot.verification_attempts {
            Some(saved) => {
                self.verification_attempts = saved;
            },
            None => {},
        }
    }
}

} // verus!
