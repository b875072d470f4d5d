//! The state registry: one consistent snapshot of every collection, with the
//! invariants that hold between them. Every change goes through a function
//! of this crate that keeps the registry well formed.

use crate::clock::{DAY_MS, HOUR_MS};
use crate::guard::{
    code_email, code_fresh, in_force, prune_blacklist, prune_codes, prune_registrations,
    prune_sends, recent,
};
use crate::models::{
    AttemptView, IpBlacklist, IpBlacklistView, MentionCheck, MentionCheckView, Message,
    MessageView, RegistrationAttempt, Session, SessionView, Settings, User, UserRole, UserStatus,
    UserView, VerificationCode, VerificationCodeAttempt, VerificationCodeView,
};
use crate::seqs::{
    any_meets, distinct_by, first_index, lemma_filter_members, lemma_first_index_is_first,
    lemma_first_index_none, lemma_first_index_some, views,
};
use crate::sessions::{
    after_eviction, has_token, not_owned_by, owned_by, resolve, revoke_all, sessions_wf,
    with_session, without_user, MAX_SESSIONS_PER_USER,
};
use crate::text::{each_chars, opt_chars};
use crate::trusted::now_millis;
use crate::users::{
    active_with_id, id_of, is_admin, one_admin, users_wf, with_id, MAX_RECENT_IPS,
};
use vstd::prelude::*;

verus! {

/// Everything the service knows, collection by collection. Users, sessions,
/// pending codes and mention records are kept in order of arrival.
pub struct AppState {
    pub users: Vec<User>,
    pub messages: Vec<Message>,
    pub settings: Settings,
    pub sessions: Vec<Session>,
    pub verification_codes: Vec<VerificationCode>,
    pub ip_blacklist: Vec<IpBlacklist>,
    pub email_blacklist: Vec<String>,
    pub registration_attempts: Vec<RegistrationAttempt>,
    pub verification_attempts: Vec<VerificationCodeAttempt>,
    pub mention_checks: Vec<MentionCheck>,
}

/// The registry as the contracts of this crate see it.
pub struct AppStateView {
    pub users: Seq<UserView>,
    pub messages: Seq<MessageView>,
    pub settings: Settings,
    pub sessions: Seq<SessionView>,
    pub verification_codes: Seq<VerificationCodeView>,
    pub ip_blacklist: Seq<IpBlacklistView>,
    pub email_blacklist: Seq<Seq<char>>,
    pub registration_attempts: Seq<AttemptView>,
    pub verification_attempts: Seq<AttemptView>,
    pub mention_checks: Seq<MentionCheckView>,
}

impl View for AppState {
    type V = AppStateView;

    open spec fn view(&self) -> AppStateView {
        AppStateView {
            users: views(self.users@),
            messages: views(self.messages@),
            settings: self.settings,
            sessions: views(self.sessions@),
            verification_codes: views(self.verification_codes@),
            ip_blacklist: views(self.ip_blacklist@),
            email_blacklist: each_chars(self.email_blacklist@),
            registration_attempts: views(self.registration_attempts@),
            verification_attempts: views(self.verification_attempts@),
            mention_checks: views(self.mention_checks@),
        }
    }
}

/// What a request makes of the registry: the registry afterwards, and the
/// reply.
pub struct Step<V> {
    pub state: AppStateView,
    pub reply: crate::api::ReplyView<V>,
}

/// The characters of an optional string slice.
pub open spec fn opt_str(o: Option<&str>) -> Option<Seq<char>> {
    match o {
        Some(s) => Some(s@),
        None => None,
    }
}

/// The user of a mention record: the key under which it is found.
pub open spec fn checked_by() -> spec_fn(MentionCheckView) -> Seq<char> {
    |c: MentionCheckView| c.user_id
}

/// Every live session belongs to a user who exists and is active.
pub open spec fn owners_active(users: Seq<UserView>, sessions: Seq<SessionView>) -> bool {
    forall|k: int|
        0 <= k < sessions.len() ==> any_meets(users, active_with_id((#[trigger] sessions[k]).user_id))
}

/// The registry with everything dropped that has run out at `now`: blacklist
/// entries past their end, verification codes of ten minutes or more,
/// registrations of an hour or more, sends of a day or more.
pub open spec fn cleaned(s: AppStateView, now: i64) -> AppStateView {
    AppStateView {
        ip_blacklist: s.ip_blacklist.filter(in_force(now)),
        verification_codes: s.verification_codes.filter(code_fresh(now)),
        registration_attempts: s.registration_attempts.filter(recent(now, HOUR_MS)),
        verification_attempts: s.verification_attempts.filter(recent(now, DAY_MS)),
        ..s
    }
}

impl AppStateView {
    /// The registry before anyone has registered: open for registration,
    /// without approval.
    pub open spec fn initial() -> AppStateView {
        AppStateView {
            users: Seq::empty(),
            messages: Seq::empty(),
            settings: Settings { registration_open: true, require_approval: false },
            sessions: Seq::empty(),
            verification_codes: Seq::empty(),
            ip_blacklist: Seq::empty(),
            email_blacklist: Seq::empty(),
            registration_attempts: Seq::empty(),
            verification_attempts: Seq::empty(),
            mention_checks: Seq::empty(),
        }
    }

    /// What holds of the registry between any two requests.
    pub open spec fn wf(self) -> bool {
        &&& users_wf(self.users)
        &&& one_admin(self.users)
        &&& sessions_wf(self.sessions)
        &&& owners_active(self.users, self.sessions)
        &&& distinct_by(self.verification_codes, code_email())
        &&& distinct_by(self.mention_checks, checked_by())
    }

    /// The position of the user with this id.
    pub open spec fn user_index(self, id: Seq<char>) -> Option<int> {
        first_index(self.users, with_id(id))
    }

    /// The position of the user that `token` speaks for: the token must be
    /// given and live.
    pub open spec fn actor(self, token: Option<Seq<char>>) -> Option<int> {
        match token {
            Some(t) => match resolve(self.sessions, t) {
                Some(id) => self.user_index(id),
                None => None,
            },
            None => None,
        }
    }

    /// The registry with the user at `i` gone, and every session of theirs
    /// revoked.
    pub open spec fn without_user_at(self, i: int) -> AppStateView {
        AppStateView {
            users: self.users.remove(i),
            sessions: without_user(self.sessions, self.users[i].id),
            ..self
        }
    }

    /// The role of the user with this id, if there is such a user.
    pub open spec fn role_of(self, id: Seq<char>) -> Option<UserRole> {
        match self.user_index(id) {
            Some(i) => Some(self.users[i].role),
            None => None,
        }
    }
}

/// Revoking sessions leaves every remaining session with its owner.
pub proof fn lemma_owners_sessions_filtered(
    users: Seq<UserView>,
    sessions: Seq<SessionView>,
    keep: spec_fn(SessionView) -> bool,
)
    requires
        owners_active(users, sessions),
    ensures
        owners_active(users, sessions.filter(keep)),
{
    lemma_filter_members(sessions, keep);
    let f = sessions.filter(keep);
    assert forall|k: int| 0 <= k < f.len() implies any_meets(
        users,
        active_with_id((#[trigger] f[k]).user_id),
    ) by {
        assert(f.contains(f[k]));
        assert(sessions.contains(f[k]));
        let m = choose|m: int| 0 <= m < sessions.len() && sessions[m] == f[k];
        assert(any_meets(users, active_with_id(sessions[m].user_id)));
    }
}

/// A session may be created for a user who exists and is active.
pub proof fn lemma_owners_session_added(
    users: Seq<UserView>,
    sessions: Seq<SessionView>,
    session: SessionView,
)
    requires
        owners_active(users, sessions),
        any_meets(users, active_with_id(session.user_id)),
    ensures
        owners_active(users, with_session(sessions, session)),
{
    let p = owned_by(session.user_id);
    let room = after_eviction(sessions, session.user_id);
    let out = with_session(sessions, session);
    lemma_first_index_is_first(sessions, p);
    assert forall|k: int| 0 <= k < out.len() implies any_meets(
        users,
        active_with_id((#[trigger] out[k]).user_id),
    ) by {
        if k < room.len() {
            if room == sessions {
                assert(out[k] == sessions[k]);
            } else {
                let i = first_index(sessions, p)->0;
                let k0 = if k < i { k } else { k + 1 };
                assert(out[k] == sessions[k0]);
            }
        } else {
            assert(out[k] == session);
        }
    }
}

/// A new user takes nothing from the sessions that are there.
pub proof fn lemma_owners_user_added(users: Seq<UserView>, sessions: Seq<SessionView>, user: UserView)
    requires
        owners_active(users, sessions),
    ensures
        owners_active(users.push(user), sessions),
{
    let grown = users.push(user);
    assert forall|k: int| 0 <= k < sessions.len() implies any_meets(
        grown,
        active_with_id((#[trigger] sessions[k]).user_id),
    ) by {
        let p = active_with_id(sessions[k].user_id);
        assert(any_meets(users, p));
        let j = choose|j: int| 0 <= j < users.len() && p(#[trigger] users[j]);
        assert(grown[j] == users[j]);
    }
}

/// A record may change in place as long as it keeps its id and does not
/// leave the active state.
pub proof fn lemma_owners_user_changed(
    users: Seq<UserView>,
    sessions: Seq<SessionView>,
    i: int,
    user: UserView,
)
    requires
        owners_active(users, sessions),
        0 <= i < users.len(),
        user.id == users[i].id,
        user.status == users[i].status || user.status == UserStatus::Active,
    ensures
        owners_active(users.update(i, user), sessions),
{
    let changed = users.update(i, user);
    assert forall|k: int| 0 <= k < sessions.len() implies any_meets(
        changed,
        active_with_id((#[trigger] sessions[k]).user_id),
    ) by {
        let p = active_with_id(sessions[k].user_id);
        assert(any_meets(users, p));
        let j = choose|j: int| 0 <= j < users.len() && p(#[trigger] users[j]);
        if j == i {
            assert(p(changed[i]));
        } else {
            assert(changed[j] == users[j]);
        }
    }
}

/// A user may leave once all of their sessions are revoked.
pub proof fn lemma_owners_user_removed(users: Seq<UserView>, sessions: Seq<SessionView>, i: int)
    requires
        owners_active(users, sessions),
        0 <= i < users.len(),
    ensures
        owners_active(users.remove(i), without_user(sessions, users[i].id)),
{
    let gone = users[i].id;
    let rest = users.remove(i);
    let f = without_user(sessions, gone);
    lemma_filter_members(sessions, not_owned_by(gone));
    assert forall|k: int| 0 <= k < f.len() implies any_meets(
        rest,
        active_with_id((#[trigger] f[k]).user_id),
    ) by {
        assert(f.contains(f[k]));
        assert(sessions.contains(f[k]));
        let m = choose|m: int| 0 <= m < sessions.len() && sessions[m] == f[k];
        let p = active_with_id(sessions[m].user_id);
        assert(any_meets(users, p));
        let j = choose|j: int| 0 <= j < users.len() && p(#[trigger] users[j]);
        assert(not_owned_by(gone)(f[k]));
        assert(j != i);
        let j0 = if j < i { j } else { j - 1 };
        assert(rest[j0] == users[j]);
    }
}

/// A user may join under an id that is free, with no more than thirty
/// addresses.
pub proof fn lemma_users_wf_added(users: Seq<UserView>, user: UserView)
    requires
        users_wf(users),
        first_index(users, with_id(user.id)) is None,
        user.last_ips.len() <= MAX_RECENT_IPS,
    ensures
        users_wf(users.push(user)),
{
    lemma_first_index_is_first(users, with_id(user.id));
    let grown = users.push(user);
    assert forall|a: int, b: int| 0 <= a < b < grown.len() implies id_of()(#[trigger] grown[a])
        != id_of()(#[trigger] grown[b]) by {
        if b < users.len() {
            assert(grown[a] == users[a] && grown[b] == users[b]);
        } else {
            assert(grown[a] == users[a]);
            assert(!with_id(user.id)(users[a]));
        }
    }
    assert forall|k: int| 0 <= k < grown.len() implies (#[trigger] grown[k]).last_ips.len()
        <= MAX_RECENT_IPS by {
        if k < users.len() {
            assert(grown[k] == users[k]);
        }
    }
}

/// A record may change in place as long as it keeps its id and no more
/// than thirty addresses.
pub proof fn lemma_users_wf_changed(users: Seq<UserView>, i: int, user: UserView)
    requires
        users_wf(users),
        0 <= i < users.len(),
        user.id == users[i].id,
        user.last_ips.len() <= MAX_RECENT_IPS,
    ensures
        users_wf(users.update(i, user)),
{
    let changed = users.update(i, user);
    assert forall|a: int, b: int| 0 <= a < b < changed.len() implies id_of()(#[trigger] changed[a])
        != id_of()(#[trigger] changed[b]) by {
        assert(id_of()(changed[a]) == id_of()(users[a]));
        assert(id_of()(changed[b]) == id_of()(users[b]));
    }
    assert forall|k: int| 0 <= k < changed.len() implies (#[trigger] changed[k]).last_ips.len()
        <= MAX_RECENT_IPS by {
        if k != i {
            assert(changed[k] == users[k]);
        }
    }
}

/// Taking a user out keeps the directory well formed.
pub proof fn lemma_users_wf_removed(users: Seq<UserView>, i: int)
    requires
        users_wf(users),
        0 <= i < users.len(),
    ensures
        users_wf(users.remove(i)),
{
    let rest = users.remove(i);
    assert forall|a: int, b: int| 0 <= a < b < rest.len() implies id_of()(#[trigger] rest[a])
        != id_of()(#[trigger] rest[b]) by {
        let a0 = if a < i { a } else { a + 1 };
        let b0 = if b < i { b } else { b + 1 };
        assert(rest[a] == users[a0] && rest[b] == users[b0]);
    }
    assert forall|k: int| 0 <= k < rest.len() implies (#[trigger] rest[k]).last_ips.len()
        <= MAX_RECENT_IPS by {
        let k0 = if k < i { k } else { k + 1 };
        assert(rest[k] == users[k0]);
    }
}

/// Whoever a live token speaks for is an active user.
pub proof fn lemma_actor_is_active(s: AppStateView, token: Option<Seq<char>>)
    requires
        s.wf(),
        s.actor(token) is Some,
    ensures
        0 <= s.actor(token)->0 < s.users.len(),
        s.users[s.actor(token)->0].status == UserStatus::Active,
        resolve(s.sessions, token->0) == Some(s.users[s.actor(token)->0].id),
{
    let a = s.actor(token)->0;
    let held = resolve(s.sessions, token->0)->0;
    lemma_first_index_is_first(s.users, with_id(held));
    lemma_first_index_is_first(s.sessions, has_token(token->0));
    let k = first_index(s.sessions, has_token(token->0))->0;
    assert(any_meets(s.users, active_with_id(s.sessions[k].user_id)));
    let w = choose|w: int| 0 <= w < s.users.len() && active_with_id(held)(#[trigger] s.users[w]);
    if w != a {
        let lo = if w < a { w } else { a };
        let hi = if w < a { a } else { w };
        assert(id_of()(s.users[lo]) != id_of()(s.users[hi]));
    }
}

/// Once a user has left, the id is free again.
pub proof fn lemma_removed_id_is_free(users: Seq<UserView>, i: int)
    requires
        users_wf(users),
        0 <= i < users.len(),
    ensures
        first_index(users.remove(i), with_id(users[i].id)) is None,
{
    let rest = users.remove(i);
    assert forall|k: int| 0 <= k < rest.len() implies !with_id(users[i].id)(#[trigger] rest[k]) by {
        let k0 = if k < i { k } else { k + 1 };
        assert(rest[k] == users[k0]);
        if k0 < i {
            assert(id_of()(users[k0]) != id_of()(users[i]));
        } else {
            assert(id_of()(users[i]) != id_of()(users[k0]));
        }
    }
    lemma_first_index_none(rest, with_id(users[i].id));
}

/// Dropping what has run out keeps the registry well formed.
pub proof fn lemma_cleaned_wf(s: AppStateView, now: i64)
    requires
        s.wf(),
    ensures
        cleaned(s, now).wf(),
{
    crate::seqs::lemma_filter_distinct(s.verification_codes, code_fresh(now), code_email());
}

impl AppState {
    /// An empty registry: open for registration, without approval.
    pub fn new() -> (state: Self)
        ensures
            state@ == AppStateView::initial(),
            state@.wf(),
    {
        let state = AppState {
            users: Vec::new(),
            messages: Vec::new(),
            settings: Settings { registration_open: true, require_approval: false },
            sessions: Vec::new(),
            verification_codes: Vec::new(),
            ip_blacklist: Vec::new(),
            email_blacklist: Vec::new(),
            registration_attempts: Vec::new(),
            verification_attempts: Vec::new(),
            mention_checks: Vec::new(),
        };
        proof {
            assert(state@.users =~= Seq::empty());
            assert(state@.messages =~= Seq::empty());
            assert(state@.sessions =~= Seq::empty());
            assert(state@.verification_codes =~= Seq::empty());
            assert(state@.ip_blacklist =~= Seq::empty());
            assert(state@.email_blacklist =~= Seq::empty());
            assert(state@.registration_attempts =~= Seq::empty());
            assert(state@.verification_attempts =~= Seq::empty());
            assert(state@.mention_checks =~= Seq::empty());
            assert forall|user_id: Seq<char>| #[trigger]
                crate::sessions::live_count(state@.sessions, user_id)
                    <= MAX_SESSIONS_PER_USER by {
                crate::seqs::lemma_filter_none(state@.sessions, owned_by(user_id));
            }
        }
        state
    }

    /// The position of the user with this id.
    pub fn find_user(&self, id: &str) -> (at: Option<usize>)
        ensures
            match at {
                Some(i) => self@.user_index(id@) == Some(i as int) && i < self@.users.len()
                    && self@.users[i as int].id == id@,
                None => self@.user_index(id@) is None,
            },
    {
        crate::users::find_by_id(&self.users, id)
    }

    /// The id of the user that `token` stands for, if the token is live.
    pub fn session_user(&self, token: Option<&str>) -> (id: Option<String>)
        ensures
            opt_chars(id) == match token {
                Some(t) => resolve(self@.sessions, t@),
                None => None,
            },
    {
        match token {
            Some(t) => match crate::sessions::find(&self.sessions, t) {
                Some(k) => {
                    proof {
                        lemma_first_index_some(self@.sessions, has_token(t@), k as int);
                    }
                    Some(self.sessions[k].user_id.clone())
                },
                None => None,
            },
            None => None,
        }
    }

    /// The position of the user that `token` speaks for.
    pub fn actor(&self, token: Option<&str>) -> (at: Option<usize>)
        ensures
            match at {
                Some(i) => self@.actor(opt_str(token)) == Some(i as int) && i < self@.users.len(),
                None => self@.actor(opt_str(token)) is None,
            },
    {
        match token {
            Some(t) => match crate::sessions::find(&self.sessions, t) {
                Some(k) => {
                    proof {
                        lemma_first_index_some(self@.sessions, has_token(t@), k as int);
                    }
                    self.find_user(self.sessions[k].user_id.as_str())
                },
                None => None,
            },
            None => None,
        }
    }

    /// Appends a user under an id that is not in use. The first user is the
    /// administrator, and nobody after.
    pub(crate) fn put_user(&mut self, user: User)
        requires
            old(self)@.wf(),
            old(self)@.user_index(user@.id) is None,
            user@.last_ips.len() <= MAX_RECENT_IPS,
            (old(self)@.users.len() == 0) == (user@.role == UserRole::Admin),
        ensures
            final(self)@ == (AppStateView { users: old(self)@.users.push(user@), ..old(self)@ }),
            final(self)@.wf(),
    {
        proof {
            lemma_users_wf_added(self@.users, user@);
            lemma_owners_user_added(self@.users, self@.sessions, user@);
            crate::seqs::lemma_filter_push(self@.users, is_admin(), user@);
            if self@.users.len() == 0 {
                crate::seqs::lemma_filter_none(self@.users, is_admin());
            }
        }
        let ghost before = self@.users;
        self.users.push(user);
        assert(self@.users =~= before.push(user@));
    }

    /// Puts `user` in the place of the record at `i`. The id stays, an active
    /// user stays active, and the administrator stays the administrator.
    pub(crate) fn change_user(&mut self, i: usize, user: User)
        requires
            old(self)@.wf(),
            i < old(self)@.users.len(),
            user@.id == old(self)@.users[i as int].id,
            user@.status == old(self)@.users[i as int].status || user@.status
                == UserStatus::Active,
            user@.last_ips.len() <= MAX_RECENT_IPS,
            (user@.role == UserRole::Admin) == (old(self)@.users[i as int].role == UserRole::Admin),
        ensures
            final(self)@ == (AppStateView {
                users: old(self)@.users.update(i as int, user@),
                ..old(self)@
            }),
            final(self)@.wf(),
    {
        proof {
            lemma_users_wf_changed(self@.users, i as int, user@);
            lemma_owners_user_changed(self@.users, self@.sessions, i as int, user@);
            crate::seqs::lemma_count_changed(self@.users, is_admin(), i as int, user@);
        }
        let ghost before = self@.users;
        self.users[i] = user;
        assert(self@.users =~= before.update(i as int, user@));
    }

    /// Takes the user at `i`, who is not the administrator, out, and revokes
    /// every session of theirs.
    pub(crate) fn drop_user(&mut self, i: usize) -> (gone: User)
        requires
            old(self)@.wf(),
            i < old(self)@.users.len(),
            old(self)@.users[i as int].role != UserRole::Admin,
        ensures
            gone@ == old(self)@.users[i as int],
            final(self)@ == old(self)@.without_user_at(i as int),
            final(self)@.wf(),
    {
        proof {
            lemma_users_wf_removed(self@.users, i as int);
            lemma_owners_user_removed(self@.users, self@.sessions, i as int);
            crate::seqs::lemma_filter_remove(self@.users, is_admin(), i as int);
        }
        let ghost before = self@.users;
        let gone = self.users.remove(i);
        assert(self@.users =~= before.remove(i as int));
        revoke_all(&mut self.sessions, gone.id.as_str());
        gone
    }

    /// Tests whether the registry is well formed. A registry that was made by
    /// `new` and changed by the functions of this crate always is; one whose
    /// fields were written from outside may not be.
    pub fn is_well_formed(&self) -> (ok: bool)
        ensures
            ok == self@.wf(),
    {
        if !crate::users::well_formed(&self.users) {
            return false;
        }
        if !crate::users::has_one_admin(&self.users) {
            return false;
        }
        if !crate::sessions::well_formed(&self.sessions) {
            return false;
        }
        if !crate::guard::codes_distinct(&self.verification_codes) {
            return false;
        }
        let ghost checks = self@.mention_checks;
        let mut i: usize = 0;
        while i < self.mention_checks.len()
            invariant
                0 <= i <= self.mention_checks.len(),
                checks == self@.mention_checks,
                forall|a: int, b: int|
                    0 <= a < b < i ==> checked_by()(#[trigger] checks[a]) != checked_by()(
                        #[trigger] checks[b],
                    ),
            decreases self.mention_checks.len() - i,
        {
            let mut j: usize = 0;
            while j < i
                invariant
                    0 <= j <= i < self.mention_checks.len(),
                    checks == self@.mention_checks,
                    forall|a: int|
                        0 <= a < j ==> checked_by()(#[trigger] checks[a]) != checked_by()(
                            checks[i as int],
                        ),
                decreases i - j,
            {
                if crate::text::str_eq(
                    self.mention_checks[j].user_id.as_str(),
                    self.mention_checks[i].user_id.as_str(),
                ) {
                    assert(checked_by()(checks[j as int]) == checked_by()(checks[i as int]));
                    return false;
                }
                j += 1;
            }
            i += 1;
        }
        let ghost held = self@.sessions;
        let mut k: usize = 0;
        while k < self.sessions.len()
            invariant
                0 <= k <= self.sessions.len(),
                held == self@.sessions,
                users_wf(self@.users),
                forall|m: int|
                    0 <= m < k ==> any_meets(
                        self@.users,
                        active_with_id((#[trigger] held[m]).user_id),
                    ),
            decreases self.sessions.len() - k,
        {
            if !crate::users::is_active_user(&self.users, self.sessions[k].user_id.as_str()) {
                assert(!any_meets(self@.users, active_with_id(held[k as int].user_id)));
                return false;
            }
            k += 1;
        }
        true
    }

    /// Drops what has run out at `now`.
    pub fn expire(&mut self, now: i64)
        requires
            old(self)@.wf(),
        ensures
            final(self)@ == cleaned(old(self)@, now),
            final(self)@.wf(),
    {
        proof {
            lemma_cleaned_wf(self@, now);
        }
        prune_blacklist(&mut self.ip_blacklist, now);
        prune_codes(&mut self.verification_codes, now);
        prune_registrations(&mut self.registration_attempts, now, HOUR_MS);
        prune_sends(&mut self.verification_attempts, now, DAY_MS);
    }

    /// Reads the clock and drops what has run out. Returns the reading.
    pub fn clean_expired_data(&mut self) -> (now: i64)
        requires
            old(self)@.wf(),
        ensures
            final(self)@ == cleaned(old(self)@, now),
            final(self)@.wf(),
    {
        let now = now_millis();
        self.expire(now);
        now
    }
}

} // verus!
