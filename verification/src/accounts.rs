//! Accounts: registration behind the abuse guard, login and logout, the
//! verification codes that registration asks for, and what users may do to
//! their own account.

use crate::api::{
    Denial, Drawn, LoginRequest, RegisterRequest, Reply, ReplyView, SaveSet,
    SendVerificationCodeRequest, UpdateDisplayNameRequest, refused,
};
use crate::guard::{
    blacklist_after_verdict, check_registration, check_send, code_not_for, discard_code, find_code,
    pending_code, record_registration, record_send, registration_verdict, send_verdict, store_code,
    with_code,
};
use crate::models::{
    AttemptView, Session, SessionView, User, UserRole, UserStatus, UserView, VerificationCode,
    VerificationCodeView,
};
use crate::seqs::{any_meets, first_index};
use crate::sessions::{resolve, with_session, without_token};
use crate::state::{
    cleaned, lemma_owners_session_added, lemma_owners_sessions_filtered, opt_str, AppState,
    AppStateView, Step,
};
use crate::text::{clone_opt, contains_str, opt_chars, str_eq};
use crate::trusted::{
    hex_encode, hex_lower, now_millis, random_digit, random_id, regex_is_match, regex_search,
    sha256, sha256_digest,
};
use crate::users::{
    active_with_id, find_by_email, name_taken, remember_ip, with_email, with_ip, with_name,
};
use crate::websocket::{Event, EventView};
use vstd::prelude::*;
use vstd::string::*;
use vstd::utf8::encode_utf8;

verus! {

/// How a registration ended.
#[derive(Debug, Clone, Copy, PartialEq, Eq, Structural)]
pub enum Registered {
    /// The account is active and a session was issued.
    WithSession,
    /// The account waits for the administrator's approval. No session yet.
    AwaitingApproval,
}

impl View for Registered {
    type V = Registered;

    open spec fn view(&self) -> Registered {
        *self
    }
}

/// The digest under which a password is stored: SHA-256 over its UTF-8
/// bytes, in lower-case hexadecimal.
pub open spec fn password_digest(password: Seq<char>) -> Seq<char> {
    hex_lower(sha256(encode_utf8(password)))
}

/// Computes the digest under which `password` is stored.
pub fn hash_password(password: &str) -> (digest: String)
    ensures
        digest@ == password_digest(password@),
{
    let raw = sha256_digest(password.as_bytes());
    hex_encode(raw.as_slice())
}

/// The validations that a registration passes before anyone is registered,
/// in the order in which they are made: the limiter first.
pub open spec fn register_checks(
    s: AppStateView,
    ip: Seq<char>,
    body: RegisterRequest,
    now: i64,
) -> Result<(), Denial> {
    let verdict = registration_verdict(s.ip_blacklist, s.registration_attempts, ip, now);
    if verdict is Err {
        verdict
    } else if !s.settings.registration_open && s.users.len() > 0 {
        Err(Denial::RegistrationClosed)
    } else if s.email_blacklist.contains(body.email@) {
        Err(Denial::EmailBlacklisted)
    } else if any_meets(s.users, with_email(body.email@)) {
        Err(Denial::EmailTaken)
    } else if any_meets(s.users, with_name(body.username@)) {
        Err(Denial::UsernameTaken)
    } else {
        match pending_code(s.verification_codes, body.email@) {
            None => Err(Denial::NoVerificationCode),
            Some(code) => if code != body.verification_code@ {
                Err(Denial::WrongVerificationCode)
            } else {
                Ok(())
            },
        }
    }
}

/// The record of a new registrant. The first user ever becomes the
/// administrator and is active at once; later ones are members, and wait
/// for approval exactly when approval is required and registration is open.
pub open spec fn registrant(
    s: AppStateView,
    ip: Seq<char>,
    body: RegisterRequest,
    now: i64,
    password_hash: Seq<char>,
    user_id: Seq<char>,
) -> UserView {
    let first = s.users.len() == 0;
    UserView {
        id: user_id,
        username: body.username@,
        email: body.email@,
        password_hash,
        avatar: opt_chars(body.avatar),
        display_name: None,
        role: if first {
            UserRole::Admin
        } else {
            UserRole::Member
        },
        status: if first || !(s.settings.require_approval && s.settings.registration_open) {
            UserStatus::Active
        } else {
            UserStatus::Pending
        },
        created_at: now,
        last_ips: seq![ip],
        muted_until: None,
    }
}

/// What a registration makes of the registry. The limiter is asked first.
/// Where it refuses, nothing is counted, and the address is blacklisted if
/// the rate was exceeded. Where it allows, the attempt is counted at once,
/// whatever the later validations say.
pub open spec fn register_step(
    before: AppStateView,
    ip: Seq<char>,
    body: RegisterRequest,
    now: i64,
    password_hash: Seq<char>,
    user_id: Seq<char>,
    token: Seq<char>,
) -> Step<Registered> {
    let s = cleaned(before, now);
    let verdict = registration_verdict(s.ip_blacklist, s.registration_attempts, ip, now);
    let counted = AppStateView {
        registration_attempts: s.registration_attempts.push(AttemptView { ip, timestamp: now }),
        ..s
    };
    match register_checks(s, ip, body, now) {
        Err(reason) => if verdict is Err {
            Step {
                state: AppStateView {
                    ip_blacklist: blacklist_after_verdict(
                        s.ip_blacklist,
                        s.registration_attempts,
                        ip,
                        now,
                    ),
                    ..s
                },
                reply: ReplyView {
                    outcome: Err(reason),
                    save: SaveSet {
                        blacklist: reason == Denial::RegistrationRateExceeded,
                        ..SaveSet::spec_nothing()
                    },
                },
            }
        } else {
            Step { state: counted, reply: refused(reason) }
        },
        Ok(()) => if s.user_index(user_id) is Some || resolve(s.sessions, token) is Some {
            Step { state: counted, reply: refused(Denial::IdentifierInUse) }
        } else {
            let user = registrant(s, ip, body, now, password_hash, user_id);
            let joined = AppStateView {
                users: s.users.push(user),
                verification_codes: s.verification_codes.filter(code_not_for(body.email@)),
                ..counted
            };
            if user.status == UserStatus::Active {
                Step {
                    state: AppStateView {
                        sessions: with_session(
                            s.sessions,
                            SessionView { token, user_id, created_at: now },
                        ),
                        ..joined
                    },
                    reply: ReplyView {
                        outcome: Ok(Registered::WithSession),
                        save: SaveSet { users: true, sessions: true, ..SaveSet::spec_nothing() },
                    },
                }
            } else {
                Step {
                    state: joined,
                    reply: ReplyView {
                        outcome: Ok(Registered::AwaitingApproval),
                        save: SaveSet { users: true, ..SaveSet::spec_nothing() },
                    },
                }
            }
        },
    }
}

/// Registers a user at the time `now`, with the password digest, the user id
/// and the session token given.
pub fn register_at(
    state: &mut AppState,
    client_ip: &str,
    body: &RegisterRequest,
    now: i64,
    password_hash: String,
    user_id: String,
    session_token: String,
) -> (reply: Reply<Registered>)
    requires
        old(state)@.wf(),
    ensures
        final(state)@ == register_step(
            old(state)@,
            client_ip@,
            *body,
            now,
            password_hash@,
            user_id@,
            session_token@,
        ).state,
        reply@ == register_step(
            old(state)@,
            client_ip@,
            *body,
            now,
            password_hash@,
            user_id@,
            session_token@,
        ).reply,
        final(state)@.wf(),
{
    state.expire(now);
    let ghost s = state@;
    match check_registration(&mut state.ip_blacklist, &state.registration_attempts, client_ip, now) {
        Err(reason) => {
            let rate = match reason {
                Denial::RegistrationRateExceeded => true,
                _ => false,
            };
            return Reply {
                outcome: Err(reason),
                save: SaveSet {
                    users: false,
                    messages: false,
                    settings: false,
                    sessions: false,
                    blacklist: rate,
                    verification_attempts: false,
                    mention_checks: false,
                },
            };
        },
        Ok(()) => {},
    }
    record_registration(&mut state.registration_attempts, client_ip, now);
    if !state.settings.registration_open && state.users.len() > 0 {
        return Reply::refuse(Denial::RegistrationClosed);
    }
    if contains_str(&state.email_blacklist, body.email.as_str()) {
        return Reply::refuse(Denial::EmailBlacklisted);
    }
    if find_by_email(&state.users, body.email.as_str()).is_some() {
        return Reply::refuse(Denial::EmailTaken);
    }
    if name_taken(&state.users, body.username.as_str()) {
        return Reply::refuse(Denial::UsernameTaken);
    }
    match find_code(&state.verification_codes, body.email.as_str()) {
        None => {
            return Reply::refuse(Denial::NoVerificationCode);
        },
        Some(k) => {
            if !str_eq(
                state.verification_codes[k].code.as_str(),
                body.verification_code.as_str(),
            ) {
                return Reply::refuse(Denial::WrongVerificationCode);
            }
        },
    }
    assert(register_checks(s, client_ip@, *body, now) == Ok::<(), Denial>(()));
    if state.find_user(user_id.as_str()).is_some() || crate::sessions::find(
        &state.sessions,
        session_token.as_str(),
    ).is_some() {
        return Reply::refuse(Denial::IdentifierInUse);
    }
    let first = state.users.len() == 0;
    let active = first || !(state.settings.require_approval && state.settings.registration_open);
    let mut ips: Vec<String> = Vec::new();
    ips.push(client_ip.to_string());
    assert(crate::text::each_chars(ips@) =~= seq![client_ip@]);
    let user = User {
        id: user_id.clone(),
        username: body.username.clone(),
        email: body.email.clone(),
        password_hash,
        avatar: clone_opt(&body.avatar),
        display_name: None,
        role: if first {
            UserRole::Admin
        } else {
            UserRole::Member
        },
        status: if active {
            UserStatus::Active
        } else {
            UserStatus::Pending
        },
        created_at: now,
        last_ips: ips,
        muted_until: None,
    };
    assert(user@ == registrant(s, client_ip@, *body, now, password_hash@, user_id@));
    state.put_user(user);
    discard_code(&mut state.verification_codes, body.email.as_str());
    if active {
        let session = Session { token: session_token, user_id, created_at: now };
        proof {
            let grown = state@.users;
            assert(active_with_id(session@.user_id)(grown[grown.len() - 1]));
            lemma_owners_session_added(grown, state@.sessions, session@);
        }
        let created = crate::sessions::create(&mut state.sessions, session);
        assert(created);
        Reply::done(
            Registered::WithSession,
            SaveSet {
                users: true,
                messages: false,
                settings: false,
                sessions: true,
                blacklist: false,
                verification_attempts: false,
                mention_checks: false,
            },
        )
    } else {
        Reply::done(
            Registered::AwaitingApproval,
            SaveSet {
                users: true,
                messages: false,
                settings: false,
                sessions: false,
                blacklist: false,
                verification_attempts: false,
                mention_checks: false,
            },
        )
    }
}

/// Registers a user. Reads the clock, hashes the password and draws the user
/// id and the session token; the rest is `register_at`.
pub fn register(state: &mut AppState, client_ip: &str, body: &RegisterRequest) -> (r: (
    Reply<Registered>,
    Drawn,
))
    requires
        old(state)@.wf(),
    ensures
        final(state)@ == register_step(
            old(state)@,
            client_ip@,
            *body,
            r.1.now,
            password_digest(body.password@),
            r.1.id@,
            r.1.token@,
        ).state,
        r.0@ == register_step(
            old(state)@,
            client_ip@,
            *body,
            r.1.now,
            password_digest(body.password@),
            r.1.id@,
            r.1.token@,
        ).reply,
        final(state)@.wf(),
{
    let drawn = Drawn { now: now_millis(), id: random_id(), token: random_id() };
    let digest = hash_password(body.password.as_str());
    let reply = register_at(
        state,
        client_ip,
        body,
        drawn.now,
        digest,
        drawn.id.clone(),
        drawn.token.clone(),
    );
    (reply, drawn)
}

/// What a login makes of the registry. The user is found by email; the
/// address is remembered and a session is created for a user who is active
/// and whose password digest matches.
pub open spec fn login_step(
    before: AppStateView,
    ip: Seq<char>,
    email: Seq<char>,
    password_hash: Seq<char>,
    now: i64,
    token: Seq<char>,
) -> Step<()> {
    let s = cleaned(before, now);
    match first_index(s.users, with_email(email)) {
        None => Step { state: s, reply: refused(Denial::BadCredentials) },
        Some(i) => {
            let user = s.users[i];
            if user.password_hash != password_hash {
                Step { state: s, reply: refused(Denial::BadCredentials) }
            } else if user.status == UserStatus::Pending {
                Step { state: s, reply: refused(Denial::AccountPending) }
            } else if user.status == UserStatus::Banned {
                Step { state: s, reply: refused(Denial::AccountBanned) }
            } else if resolve(s.sessions, token) is Some {
                Step { state: s, reply: refused(Denial::IdentifierInUse) }
            } else {
                Step {
                    state: AppStateView {
                        users: s.users.update(
                            i,
                            UserView { last_ips: with_ip(user.last_ips, ip), ..user },
                        ),
                        sessions: with_session(
                            s.sessions,
                            SessionView { token, user_id: user.id, created_at: now },
                        ),
                        ..s
                    },
                    reply: ReplyView {
                        outcome: Ok(()),
                        save: SaveSet { users: true, sessions: true, ..SaveSet::spec_nothing() },
                    },
                }
            }
        },
    }
}

/// Logs a user in at the time `now`, with the digest of the password that
/// was presented and the session token given.
pub fn login_at(
    state: &mut AppState,
    client_ip: &str,
    email: &str,
    password_hash: &str,
    now: i64,
    session_token: String,
) -> (reply: Reply<()>)
    requires
        old(state)@.wf(),
    ensures
        final(state)@ == login_step(
            old(state)@,
            client_ip@,
            email@,
            password_hash@,
            now,
            session_token@,
        ).state,
        reply@ == login_step(
            old(state)@,
            client_ip@,
            email@,
            password_hash@,
            now,
            session_token@,
        ).reply,
        final(state)@.wf(),
{
    state.expire(now);
    let ghost s = state@;
    let i = match find_by_email(&state.users, email) {
        None => {
            return Reply::refuse(Denial::BadCredentials);
        },
        Some(i) => i,
    };
    if !str_eq(state.users[i].password_hash.as_str(), password_hash) {
        return Reply::refuse(Denial::BadCredentials);
    }
    match state.users[i].status {
        UserStatus::Pending => {
            return Reply::refuse(Denial::AccountPending);
        },
        UserStatus::Banned => {
            return Reply::refuse(Denial::AccountBanned);
        },
        UserStatus::Active => {},
    }
    if crate::sessions::find(&state.sessions, session_token.as_str()).is_some() {
        return Reply::refuse(Denial::IdentifierInUse);
    }
    let mut user = state.users[i].clone();
    remember_ip(&mut user.last_ips, client_ip);
    let session = Session { token: session_token, user_id: user.id.clone(), created_at: now };
    state.change_user(i, user);
    proof {
        assert(active_with_id(session@.user_id)(state@.users[i as int]));
        lemma_owners_session_added(state@.users, state@.sessions, session@);
    }
    let created = crate::sessions::create(&mut state.sessions, session);
    assert(created);
    Reply::done(
        (),
        SaveSet {
            users: true,
            messages: false,
            settings: false,
            sessions: true,
            blacklist: false,
            verification_attempts: false,
            mention_checks: false,
        },
    )
}

/// Logs a user in. Reads the clock, hashes the password and draws the
/// session token; the rest is `login_at`.
pub fn login(state: &mut AppState, client_ip: &str, body: &LoginRequest) -> (r: (Reply<()>, Drawn))
    requires
        old(state)@.wf(),
    ensures
        final(state)@ == login_step(
            old(state)@,
            client_ip@,
            body.email@,
            password_digest(body.password@),
            r.1.now,
            r.1.token@,
        ).state,
        r.0@ == login_step(
            old(state)@,
            client_ip@,
            body.email@,
            password_digest(body.password@),
            r.1.now,
            r.1.token@,
        ).reply,
        final(state)@.wf(),
{
    let drawn = Drawn { now: now_millis(), id: String::new(), token: random_id() };
    let digest = hash_password(body.password.as_str());
    let reply = login_at(
        state,
        client_ip,
        body.email.as_str(),
        digest.as_str(),
        drawn.now,
        drawn.token.clone(),
    );
    (reply, drawn)
}

/// What a logout makes of the registry: the session behind the token, if
/// there is one, is revoked. A logout never fails.
pub open spec fn logout_step(before: AppStateView, now: i64, token: Option<Seq<char>>) -> Step<()> {
    let s = cleaned(before, now);
    match token {
        Some(t) => if resolve(s.sessions, t) is Some {
            Step {
                state: AppStateView { sessions: without_token(s.sessions, t), ..s },
                reply: ReplyView {
                    outcome: Ok(()),
                    save: SaveSet { sessions: true, ..SaveSet::spec_nothing() },
                },
            }
        } else {
            Step { state: s, reply: ReplyView { outcome: Ok(()), save: SaveSet::spec_nothing() } }
        },
        None => Step {
            state: s,
            reply: ReplyView { outcome: Ok(()), save: SaveSet::spec_nothing() },
        },
    }
}

/// Logs out at the time `now`.
pub fn logout_at(state: &mut AppState, token: Option<&str>, now: i64) -> (reply: Reply<()>)
    requires
        old(state)@.wf(),
    ensures
        final(state)@ == logout_step(old(state)@, now, opt_str(token)).state,
        reply@ == logout_step(old(state)@, now, opt_str(token)).reply,
        final(state)@.wf(),
{
    state.expire(now);
    match token {
        Some(t) => {
            if crate::sessions::find(&state.sessions, t).is_some() {
                proof {
                    lemma_owners_sessions_filtered(
                        state@.users,
                        state@.sessions,
                        crate::sessions::other_token(t@),
                    );
                }
                let _ = crate::sessions::revoke(&mut state.sessions, t);
                Reply::done(
                    (),
                    SaveSet {
                        users: false,
                        messages: false,
                        settings: false,
                        sessions: true,
                        blacklist: false,
                        verification_attempts: false,
                        mention_checks: false,
                    },
                )
            } else {
                Reply::done((), SaveSet::nothing())
            }
        },
        None => Reply::done((), SaveSet::nothing()),
    }
}

/// Logs out. Reads the clock; the rest is `logout_at`.
pub fn logout(state: &mut AppState, token: Option<&str>) -> (r: (Reply<()>, Drawn))
    requires
        old(state)@.wf(),
    ensures
        final(state)@ == logout_step(old(state)@, r.1.now, opt_str(token)).state,
        r.0@ == logout_step(old(state)@, r.1.now, opt_str(token)).reply,
        final(state)@.wf(),
{
    let drawn = Drawn::at(now_millis());
    let reply = logout_at(state, token, drawn.now);
    (reply, drawn)
}

/// Whether the request carries a session token at all.
pub fn verify_email(token: Option<&str>) -> (r: Result<(), Denial>)
    ensures
        r == if token is Some {
            Ok::<(), Denial>(())
        } else {
            Err::<(), Denial>(Denial::Unauthorized)
        },
{
    match token {
        Some(_) => Ok(()),
        None => Err(Denial::Unauthorized),
    }
}

/// The record of the user that `token` speaks for.
pub open spec fn current_user(s: AppStateView, token: Option<Seq<char>>) -> Result<
    UserView,
    Denial,
> {
    match s.actor(token) {
        Some(i) => Ok(s.users[i]),
        None => Err(Denial::Unauthorized),
    }
}

/// Returns the record of the user that `token` speaks for.
pub fn get_current_user(state: &AppState, token: Option<&str>) -> (r: Result<User, Denial>)
    ensures
        crate::api::ok_view(r) == current_user(state@, opt_str(token)),
{
    match state.actor(token) {
        Some(i) => Ok(state.users[i].clone()),
        None => Err(Denial::Unauthorized),
    }
}

/// The shape that an email address must have before a code is sent to it:
/// something, an at sign, something, a dot, something, with neither white
/// space nor a second at sign anywhere.
pub const EMAIL_PATTERN: &'static str = r"^[^\s@]+@[^\s@]+\.[^\s@]+$";

/// How many digits a verification code has.
pub const CODE_LENGTH: usize = 6;

/// Whether `email` has the shape of an address.
pub open spec fn well_formed_email(email: Seq<char>) -> bool {
    regex_search(EMAIL_PATTERN@, email) == Some(true)
}

/// Tests `email` against `EMAIL_PATTERN`.
pub fn is_valid_email(email: &str) -> (ok: bool)
    ensures
        ok == well_formed_email(email@),
{
    match regex_is_match(EMAIL_PATTERN, email) {
        Some(true) => true,
        _ => false,
    }
}

/// The character for the last decimal digit of `d`.
pub open spec fn digit_char(d: u8) -> char {
    seq!['0', '1', '2', '3', '4', '5', '6', '7', '8', '9'][d as int % 10]
}

/// The text of a code made of the given digits.
pub open spec fn code_text(digits: Seq<u8>) -> Seq<char> {
    digits.map_values(|d: u8| digit_char(d))
}

/// Whether `code` is six decimal digits.
pub open spec fn is_code(code: Seq<char>) -> bool {
    &&& code.len() == CODE_LENGTH
    &&& forall|i: int| 0 <= i < code.len() ==> '0' <= #[trigger] code[i] <= '9'
}

fn digit_str(d: u8) -> (s: &'static str)
    ensures
        s@ == seq![digit_char(d)],
{
    proof {
        reveal_strlit("0");
        reveal_strlit("1");
        reveal_strlit("2");
        reveal_strlit("3");
        reveal_strlit("4");
        reveal_strlit("5");
        reveal_strlit("6");
        reveal_strlit("7");
        reveal_strlit("8");
        reveal_strlit("9");
    }
    let s = match d % 10 {
        0 => "0",
        1 => "1",
        2 => "2",
        3 => "3",
        4 => "4",
        5 => "5",
        6 => "6",
        7 => "7",
        8 => "8",
        _ => "9",
    };
    assert(s@ =~= seq![digit_char(d)]);
    s
}

/// Writes digits out as text, one character for each; a value of ten or
/// more counts by its last decimal digit.
pub fn code_from_digits(digits: &Vec<u8>) -> (code: String)
    ensures
        code@ == code_text(digits@),
{
    let mut code = String::new();
    let mut i: usize = 0;
    while i < digits.len()
        invariant
            0 <= i <= digits.len(),
            code@ == code_text(digits@.take(i as int)),
        decreases digits.len() - i,
    {
        let ghost before = code@;
        code.append(digit_str(digits[i]));
        assert(code@ =~= code_text(digits@.take(i + 1))) by {
            assert(digits@.take(i + 1) =~= digits@.take(i as int).push(digits@[i as int]));
        }
        i += 1;
    }
    assert(digits@.take(digits.len() as int) =~= digits@);
    code
}

/// Draws a fresh verification code: six random decimal digits.
pub fn draw_code() -> (code: String)
    ensures
        is_code(code@),
{
    let mut digits: Vec<u8> = Vec::new();
    while digits.len() < CODE_LENGTH
        invariant
            digits.len() <= CODE_LENGTH,
        decreases CODE_LENGTH - digits.len(),
    {
        digits.push(random_digit());
    }
    code_from_digits(&digits)
}

/// What a request for a verification code makes of the registry: expired
/// records go, and nothing else changes until the code has gone out.
/// `format` is what the pattern match said of the address.
pub open spec fn send_code_step(
    before: AppStateView,
    ip: Seq<char>,
    email: Seq<char>,
    now: i64,
    format: Option<bool>,
) -> Step<()> {
    let s = cleaned(before, now);
    let outcome = if !s.settings.registration_open && s.users.len() > 0 {
        Err(Denial::RegistrationClosed)
    } else if format != Some(true) {
        Err(Denial::InvalidEmail)
    } else if s.email_blacklist.contains(email) {
        Err(Denial::EmailBlacklisted)
    } else if any_meets(s.users, with_email(email)) {
        Err(Denial::EmailTaken)
    } else {
        send_verdict(s.verification_attempts, ip, now)
    };
    Step { state: s, reply: ReplyView { outcome, save: SaveSet::spec_nothing() } }
}

/// Decides at the time `now` whether a verification code may be sent to
/// `email` for the caller at `client_ip`. `format` is the answer of the
/// pattern match on the address.
pub fn send_verification_code_at(
    state: &mut AppState,
    client_ip: &str,
    email: &str,
    now: i64,
    format: Option<bool>,
) -> (reply: Reply<()>)
    requires
        old(state)@.wf(),
    ensures
        final(state)@ == send_code_step(old(state)@, client_ip@, email@, now, format).state,
        reply@ == send_code_step(old(state)@, client_ip@, email@, now, format).reply,
        final(state)@.wf(),
{
    state.expire(now);
    if !state.settings.registration_open && state.users.len() > 0 {
        return Reply::refuse(Denial::RegistrationClosed);
    }
    match format {
        Some(true) => {},
        _ => {
            return Reply::refuse(Denial::InvalidEmail);
        },
    }
    if contains_str(&state.email_blacklist, email) {
        return Reply::refuse(Denial::EmailBlacklisted);
    }
    if find_by_email(&state.users, email).is_some() {
        return Reply::refuse(Denial::EmailTaken);
    }
    match check_send(&state.verification_attempts, client_ip, now) {
        Err(reason) => Reply::refuse(reason),
        Ok(()) => Reply::done((), SaveSet::nothing()),
    }
}

/// Serves a request for a verification code up to the point where the code
/// has to be mailed. Reads the clock and tests the address; where
/// `send_verification_code_at` allows the send, draws the code and returns
/// it. Nothing is counted yet: once the code has gone out, the caller
/// reports that with `record_verification_code_sent`, at the same reading of
/// the clock.
pub fn send_verification_code(
    state: &mut AppState,
    client_ip: &str,
    body: &SendVerificationCodeRequest,
) -> (r: (Reply<String>, Drawn))
    requires
        old(state)@.wf(),
    ensures
        final(state)@ == send_code_step(
            old(state)@,
            client_ip@,
            body.email@,
            r.1.now,
            regex_search(EMAIL_PATTERN@, body.email@),
        ).state,
        match r.0.outcome {
            Ok(code) => is_code(code@) && send_code_step(
                old(state)@,
                client_ip@,
                body.email@,
                r.1.now,
                regex_search(EMAIL_PATTERN@, body.email@),
            ).reply.outcome == Ok::<(), Denial>(()),
            Err(reason) => send_code_step(
                old(state)@,
                client_ip@,
                body.email@,
                r.1.now,
                regex_search(EMAIL_PATTERN@, body.email@),
            ).reply.outcome == Err::<(), Denial>(reason),
        },
        r.0.save == SaveSet::spec_nothing(),
        final(state)@.wf(),
{
    let drawn = Drawn::at(now_millis());
    let format = regex_is_match(EMAIL_PATTERN, body.email.as_str());
    let decided = send_verification_code_at(
        state,
        client_ip,
        body.email.as_str(),
        drawn.now,
        format,
    );
    let reply = match decided.outcome {
        Ok(()) => Reply { outcome: Ok(draw_code()), save: SaveSet::nothing() },
        Err(reason) => Reply { outcome: Err(reason), save: SaveSet::nothing() },
    };
    (reply, drawn)
}

/// The registry after a verification code has gone out: the send is counted
/// against the address it was requested from, and the code is pending for
/// the email, in place of any earlier one.
pub open spec fn code_sent(
    before: AppStateView,
    ip: Seq<char>,
    email: Seq<char>,
    code: Seq<char>,
    now: i64,
) -> AppStateView {
    AppStateView {
        verification_attempts: before.verification_attempts.push(
            AttemptView { ip, timestamp: now },
        ),
        verification_codes: with_code(
            before.verification_codes,
            VerificationCodeView { email, code, created_at: now },
        ),
        ..before
    }
}

/// Records that a verification code has gone out. Returns what to save.
pub fn record_verification_code_sent(
    state: &mut AppState,
    client_ip: &str,
    email: &str,
    code: String,
    now: i64,
) -> (save: SaveSet)
    requires
        old(state)@.wf(),
    ensures
        final(state)@ == code_sent(old(state)@, client_ip@, email@, code@, now),
        save == (SaveSet { verification_attempts: true, ..SaveSet::spec_nothing() }),
        final(state)@.wf(),
{
    record_send(&mut state.verification_attempts, client_ip, now);
    store_code(
        &mut state.verification_codes,
        VerificationCode { email: email.to_string(), code, created_at: now },
    );
    SaveSet {
        users: false,
        messages: false,
        settings: false,
        sessions: false,
        blacklist: false,
        verification_attempts: true,
        mention_checks: false,
    }
}

/// A change of display name, as it is announced to the room.
#[derive(Debug)]
pub struct DisplayNameChange {
    pub user_id: String,
    pub old_display_name: Option<String>,
    pub new_display_name: Option<String>,
}

/// A change of display name, as the contracts see it.
pub struct DisplayNameChangeView {
    pub user_id: Seq<char>,
    pub old_display_name: Option<Seq<char>>,
    pub new_display_name: Option<Seq<char>>,
}

impl View for DisplayNameChange {
    type V = DisplayNameChangeView;

    open spec fn view(&self) -> DisplayNameChangeView {
        DisplayNameChangeView {
            user_id: self.user_id@,
            old_display_name: opt_chars(self.old_display_name),
            new_display_name: opt_chars(self.new_display_name),
        }
    }
}

/// The registry after the user at `i` took the display name `name`. The
/// reply is the announcement of the change.
pub open spec fn renamed(s: AppStateView, i: int, name: Option<Seq<char>>) -> Step<EventView> {
    Step {
        state: AppStateView {
            users: s.users.update(i, UserView { display_name: name, ..s.users[i] }),
            ..s
        },
        reply: ReplyView {
            outcome: Ok(
                EventView::DisplayNameChanged(
                    DisplayNameChangeView {
                        user_id: s.users[i].id,
                        old_display_name: s.users[i].display_name,
                        new_display_name: name,
                    },
                ),
            ),
            save: SaveSet { users: true, ..SaveSet::spec_nothing() },
        },
    }
}

/// Gives the user at `i` the display name `name`.
pub(crate) fn rename(state: &mut AppState, i: usize, name: &Option<String>) -> (reply: Reply<
    Event,
>)
    requires
        old(state)@.wf(),
        i < old(state)@.users.len(),
    ensures
        final(state)@ == renamed(old(state)@, i as int, opt_chars(*name)).state,
        reply@ == renamed(old(state)@, i as int, opt_chars(*name)).reply,
        final(state)@.wf(),
{
    let mut user = state.users[i].clone();
    let change = DisplayNameChange {
        user_id: user.id.clone(),
        old_display_name: clone_opt(&user.display_name),
        new_display_name: clone_opt(name),
    };
    user.display_name = clone_opt(name);
    state.change_user(i, user);
    Reply::done(
        Event::DisplayNameChanged(change),
        SaveSet {
            users: true,
            messages: false,
            settings: false,
            sessions: false,
            blacklist: false,
            verification_attempts: false,
            mention_checks: false,
        },
    )
}

/// What a change of one's own display name makes of the registry.
pub open spec fn update_display_name_step(
    before: AppStateView,
    now: i64,
    token: Option<Seq<char>>,
    name: Option<Seq<char>>,
) -> Step<EventView> {
    let s = cleaned(before, now);
    match s.actor(token) {
        Some(i) => renamed(s, i, name),
        None => Step { state: s, reply: refused(Denial::Unauthorized) },
    }
}

/// Changes the caller's own display name at the time `now`.
pub fn update_display_name_at(
    state: &mut AppState,
    token: Option<&str>,
    body: &UpdateDisplayNameRequest,
    now: i64,
) -> (reply: Reply<Event>)
    requires
        old(state)@.wf(),
    ensures
        final(state)@ == update_display_name_step(
            old(state)@,
            now,
            opt_str(token),
            opt_chars(body.display_name),
        ).state,
        reply@ == update_display_name_step(
            old(state)@,
            now,
            opt_str(token),
            opt_chars(body.display_name),
        ).reply,
        final(state)@.wf(),
{
    state.expire(now);
    match state.actor(token) {
        Some(i) => rename(state, i, &body.display_name),
        None => Reply::refuse(Denial::Unauthorized),
    }
}

/// Changes the caller's own display name. Reads the clock; the rest is
/// `update_display_name_at`.
pub fn update_display_name(
    state: &mut AppState,
    token: Option<&str>,
    body: &UpdateDisplayNameRequest,
) -> (r: (Reply<Event>, Drawn))
    requires
        old(state)@.wf(),
    ensures
        final(state)@ == update_display_name_step(
            old(state)@,
            r.1.now,
            opt_str(token),
            opt_chars(body.display_name),
        ).state,
        r.0@ == update_display_name_step(
            old(state)@,
            r.1.now,
            opt_str(token),
            opt_chars(body.display_name),
        ).reply,
        final(state)@.wf(),
{
    let drawn = Drawn::at(now_millis());
    let reply = update_display_name_at(state, token, body, drawn.now);
    (reply, drawn)
}

/// What the deletion of one's own account makes of the registry. The
/// administrator's account stays; anyone else is removed with all sessions.
/// The reply is the announcement that the user was deleted.
pub open spec fn delete_account_step(before: AppStateView, now: i64, token: Option<Seq<char>>) -> Step<
    EventView,
> {
    let s = cleaned(before, now);
    match s.actor(token) {
        Some(i) => if s.users[i].role == UserRole::Admin {
            Step { state: s, reply: refused(Denial::AdminAccountProtected) }
        } else {
            Step {
                state: s.without_user_at(i),
                reply: ReplyView {
                    outcome: Ok(EventView::UserDeleted { user_id: s.users[i].id }),
                    save: SaveSet { users: true, sessions: true, ..SaveSet::spec_nothing() },
                },
            }
        },
        None => Step { state: s, reply: refused(Denial::Unauthorized) },
    }
}

/// Deletes the caller's own account at the time `now`.
pub fn delete_account_at(state: &mut AppState, token: Option<&str>, now: i64) -> (reply: Reply<
    Event,
>)
    requires
        old(state)@.wf(),
    ensures
        final(state)@ == delete_account_step(old(state)@, now, opt_str(token)).state,
        reply@ == delete_account_step(old(state)@, now, opt_str(token)).reply,
        final(state)@.wf(),
{
    state.expire(now);
    match state.actor(token) {
        Some(i) => {
            match state.users[i].role {
                UserRole::Admin => {
                    return Reply::refuse(Denial::AdminAccountProtected);
                },
                _ => {},
            }
            let gone = state.drop_user(i);
            Reply::done(
                Event::UserDeleted { user_id: gone.id },
                SaveSet {
                    users: true,
                    messages: false,
                    settings: false,
                    sessions: true,
                    blacklist: false,
                    verification_attempts: false,
                    mention_checks: false,
                },
            )
        },
        None => Reply::refuse(Denial::Unauthorized),
    }
}

/// Deletes the caller's own account. Reads the clock; the rest is
/// `delete_account_at`.
pub fn delete_account(state: &mut AppState, token: Option<&str>) -> (r: (Reply<Event>, Drawn))
    requires
        old(state)@.wf(),
    ensures
        final(state)@ == delete_account_step(old(state)@, r.1.now, opt_str(token)).state,
        r.0@ == delete_account_step(old(state)@, r.1.now, opt_str(token)).reply,
        final(state)@.wf(),
{
    let drawn = Drawn::at(now_millis());
    let reply = delete_account_at(state, token, drawn.now);
    (reply, drawn)
}

} // verus!
