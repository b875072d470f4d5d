use chatroom::accounts::{
    code_from_digits, delete_account_at, draw_code, get_current_user, hash_password,
    is_valid_email, login, login_at, logout_at, record_verification_code_sent, register,
    register_at, send_verification_code, send_verification_code_at, update_display_name_at,
    verify_email, Registered,
};
use chatroom::admin::{approve_user_at, update_settings_at};
use chatroom::api::{
    ApproveRejectRequest, Denial, ErrorKind, LoginRequest, RegisterRequest, SaveSet,
    SendVerificationCodeRequest, UpdateDisplayNameRequest, UpdateSettingsRequest,
};
use chatroom::models::{UserRole, UserStatus};
use chatroom::accounts::DisplayNameChange;
use chatroom::state::AppState;
use chatroom::websocket::Event;

const T0: i64 = 1_700_000_000_000;

fn body_for(name: &str, email: &str, code: &str) -> RegisterRequest {
    RegisterRequest {
        username: name.to_string(),
        email: email.to_string(),
        password: "secret".to_string(),
        avatar: None,
        verification_code: code.to_string(),
    }
}

fn join(state: &mut AppState, ip: &str, name: &str, now: i64) -> Result<Registered, Denial> {
    let email = format!("{}@example.org", name);
    record_verification_code_sent(state, ip, &email, "123456".to_string(), now);
    register_at(
        state,
        ip,
        &body_for(name, &email, "123456"),
        now,
        format!("hash-of-{}", name),
        format!("id-{}", name),
        format!("token-{}", name),
    )
    .outcome
}

fn name_change(outcome: Result<Event, Denial>) -> DisplayNameChange {
    match outcome {
        Ok(Event::DisplayNameChanged(change)) => change,
        other => panic!("no change of display name: {:?}", other),
    }
}

fn deleted_user(outcome: Result<Event, Denial>) -> Result<String, Denial> {
    match outcome {
        Ok(Event::UserDeleted { user_id }) => Ok(user_id),
        Ok(other) => panic!("no deletion: {:?}", other),
        Err(reason) => Err(reason),
    }
}

fn saves(users: bool, sessions: bool, blacklist: bool) -> SaveSet {
    SaveSet { users, sessions, blacklist, ..SaveSet::nothing() }
}

#[test]
fn first_user_becomes_admin_with_session() {
    let mut state = AppState::new();
    record_verification_code_sent(&mut state, "1.1.1.1", "a@example.org", "123456".to_string(), T0);
    let reply = register_at(
        &mut state,
        "1.1.1.1",
        &body_for("a", "a@example.org", "123456"),
        T0,
        "h".to_string(),
        "id-a".to_string(),
        "token-a".to_string(),
    );
    assert_eq!(reply.outcome, Ok(Registered::WithSession));
    assert_eq!(reply.save, saves(true, true, false));
    assert_eq!(state.users.len(), 1);
    assert_eq!(state.users[0].id, "id-a");
    assert_eq!(state.users[0].role, UserRole::Admin);
    assert_eq!(state.users[0].status, UserStatus::Active);
    assert_eq!(state.users[0].password_hash, "h");
    assert_eq!(state.users[0].created_at, T0);
    assert_eq!(state.users[0].last_ips, vec!["1.1.1.1".to_string()]);
    assert_eq!(state.sessions.len(), 1);
    assert_eq!(state.sessions[0].token, "token-a");
    assert_eq!(state.sessions[0].user_id, "id-a");
    assert_eq!(state.session_user(Some("token-a")), Some("id-a".to_string()));
    assert!(state.verification_codes.is_empty());
    assert_eq!(state.registration_attempts.len(), 1);
}

#[test]
fn registration_with_approval_then_approve_then_login() {
    let mut state = AppState::new();
    assert_eq!(join(&mut state, "1.1.1.1", "a", T0), Ok(Registered::WithSession));
    let settings = UpdateSettingsRequest { registration_open: true, require_approval: true };
    let changed = update_settings_at(&mut state, Some("token-a"), &settings, T0 + 1);
    assert_eq!(changed.outcome, Ok(()));
    assert!(changed.save.settings);

    assert_eq!(join(&mut state, "2.2.2.2", "b", T0 + 2), Ok(Registered::AwaitingApproval));
    assert_eq!(state.users[1].status, UserStatus::Pending);
    assert_eq!(state.users[1].role, UserRole::Member);
    assert_eq!(state.sessions.len(), 1);
    assert_eq!(state.session_user(Some("token-b")), None);

    let early = login_at(
        &mut state,
        "2.2.2.2",
        "b@example.org",
        "hash-of-b",
        T0 + 3,
        "token-b1".to_string(),
    );
    assert_eq!(early.outcome, Err(Denial::AccountPending));

    let approve = ApproveRejectRequest { user_id: "id-b".to_string() };
    let approved = approve_user_at(&mut state, Some("token-a"), &approve, T0 + 4);
    let user = approved.outcome.expect("approved");
    assert_eq!(user.email, "b@example.org");
    assert_eq!(user.username, "b");
    assert_eq!(user.status, UserStatus::Active);
    assert_eq!(state.users[1].status, UserStatus::Active);

    let late = login_at(
        &mut state,
        "2.2.2.2",
        "b@example.org",
        "hash-of-b",
        T0 + 5,
        "token-b2".to_string(),
    );
    assert_eq!(late.outcome, Ok(()));
    assert_eq!(late.save, saves(true, true, false));
    assert_eq!(state.session_user(Some("token-b2")), Some("id-b".to_string()));
    assert_eq!(state.users[1].last_ips, vec!["2.2.2.2".to_string(), "2.2.2.2".to_string()]);
}

fn try_register(
    state: &mut AppState,
    ip: &str,
    name: &str,
    email: &str,
    code: &str,
    id: &str,
    token: &str,
    now: i64,
) -> Result<Registered, Denial> {
    register_at(
        state,
        ip,
        &body_for(name, email, code),
        now,
        "h".to_string(),
        id.to_string(),
        token.to_string(),
    )
    .outcome
}

#[test]
fn registration_is_refused_for_each_reason_in_order() {
    let mut state = AppState::new();
    assert_eq!(join(&mut state, "1.1.1.1", "a", T0), Ok(Registered::WithSession));
    assert_eq!(state.registration_attempts.len(), 1);

    let no_code = register_at(
        &mut state,
        "ip-1",
        &body_for("c", "c@example.org", "123456"),
        T0 + 1,
        "h".to_string(),
        "id-c".to_string(),
        "token-c".to_string(),
    );
    assert_eq!(no_code.outcome, Err(Denial::NoVerificationCode));
    assert_eq!(no_code.save, SaveSet::nothing());
    assert_eq!(state.registration_attempts.len(), 2);
    assert_eq!(state.registration_attempts[1].ip, "ip-1");
    assert_eq!(state.registration_attempts[1].timestamp, T0 + 1);

    record_verification_code_sent(&mut state, "ip-0", "c@example.org", "654321".to_string(), T0 + 2);
    let wrong =
        try_register(&mut state, "ip-2", "c", "c@example.org", "123456", "id-c", "token-c", T0 + 3);
    assert_eq!(wrong, Err(Denial::WrongVerificationCode));
    let name_taken =
        try_register(&mut state, "ip-3", "a", "c@example.org", "654321", "id-c", "token-c", T0 + 4);
    assert_eq!(name_taken, Err(Denial::UsernameTaken));
    let email_taken =
        try_register(&mut state, "ip-4", "c", "a@example.org", "654321", "id-c", "token-c", T0 + 5);
    assert_eq!(email_taken, Err(Denial::EmailTaken));
    let id_in_use =
        try_register(&mut state, "ip-5", "c", "c@example.org", "654321", "id-a", "token-c", T0 + 6);
    assert_eq!(id_in_use, Err(Denial::IdentifierInUse));
    let token_in_use =
        try_register(&mut state, "ip-6", "c", "c@example.org", "654321", "id-c", "token-a", T0 + 7);
    assert_eq!(token_in_use, Err(Denial::IdentifierInUse));

    state.email_blacklist.push("c@example.org".to_string());
    let barred =
        try_register(&mut state, "ip-7", "c", "c@example.org", "654321", "id-c", "token-c", T0 + 8);
    assert_eq!(barred, Err(Denial::EmailBlacklisted));

    let closed = UpdateSettingsRequest { registration_open: false, require_approval: false };
    update_settings_at(&mut state, Some("token-a"), &closed, T0 + 9);
    let shut =
        try_register(&mut state, "ip-8", "c", "c@example.org", "654321", "id-c", "token-c", T0 + 10);
    assert_eq!(shut, Err(Denial::RegistrationClosed));
    assert_eq!(state.users.len(), 1);
    assert_eq!(state.sessions.len(), 1);
    assert_eq!(state.registration_attempts.len(), 9);
    assert_eq!(state.verification_codes.len(), 1);
}

#[test]
fn refused_registrations_count_against_the_address() {
    let mut state = AppState::new();
    for k in 0..3 {
        let refused =
            try_register(&mut state, "9.9.9.9", "a", "a@example.org", "1", "id", "token", T0 + k);
        assert_eq!(refused, Err(Denial::NoVerificationCode));
    }
    assert_eq!(state.registration_attempts.len(), 3);
    assert!(state.users.is_empty());
    record_verification_code_sent(&mut state, "9.9.9.9", "a@example.org", "1".to_string(), T0 + 3);
    let fourth =
        try_register(&mut state, "9.9.9.9", "a", "a@example.org", "1", "id", "token", T0 + 3);
    assert_eq!(fourth, Err(Denial::RegistrationRateExceeded));
    assert_eq!(state.registration_attempts.len(), 3);
    assert_eq!(state.ip_blacklist.len(), 1);
    assert_eq!(state.ip_blacklist[0].until, T0 + 3 + 86_400_000);
    let fifth =
        try_register(&mut state, "9.9.9.9", "a", "a@example.org", "1", "id", "token", T0 + 4);
    assert_eq!(fifth, Err(Denial::IpBlacklisted));
    assert_eq!(state.registration_attempts.len(), 3);
    let elsewhere =
        try_register(&mut state, "8.8.8.8", "a", "a@example.org", "1", "id", "token", T0 + 5);
    assert_eq!(elsewhere, Ok(Registered::WithSession));
    assert_eq!(state.registration_attempts.len(), 4);
}

#[test]
fn expired_code_is_gone_at_registration() {
    let mut state = AppState::new();
    record_verification_code_sent(&mut state, "1.1.1.1", "a@example.org", "123456".to_string(), T0);
    let late = register_at(
        &mut state,
        "1.1.1.1",
        &body_for("a", "a@example.org", "123456"),
        T0 + 600_000,
        "h".to_string(),
        "id-a".to_string(),
        "token-a".to_string(),
    );
    assert_eq!(late.outcome, Err(Denial::NoVerificationCode));
    record_verification_code_sent(&mut state, "1.1.1.1", "a@example.org", "123456".to_string(), T0);
    let in_time = register_at(
        &mut state,
        "1.1.1.1",
        &body_for("a", "a@example.org", "123456"),
        T0 + 599_999,
        "h".to_string(),
        "id-a".to_string(),
        "token-a".to_string(),
    );
    assert_eq!(in_time.outcome, Ok(Registered::WithSession));
}

#[test]
fn fourth_registration_within_the_hour_is_denied_and_blacklists() {
    let mut state = AppState::new();
    assert_eq!(join(&mut state, "9.9.9.9", "a", T0), Ok(Registered::WithSession));
    assert_eq!(join(&mut state, "9.9.9.9", "b", T0 + 1_000), Ok(Registered::WithSession));
    assert_eq!(join(&mut state, "9.9.9.9", "c", T0 + 2_000), Ok(Registered::WithSession));
    assert_eq!(state.registration_attempts.len(), 3);

    record_verification_code_sent(&mut state, "9.9.9.9", "d@example.org", "123456".to_string(), T0 + 3_000);
    let fourth = register_at(
        &mut state,
        "9.9.9.9",
        &body_for("d", "d@example.org", "123456"),
        T0 + 3_000,
        "h".to_string(),
        "id-d".to_string(),
        "token-d".to_string(),
    );
    assert_eq!(fourth.outcome, Err(Denial::RegistrationRateExceeded));
    assert_eq!(fourth.save, saves(false, false, true));
    assert_eq!(state.users.len(), 3);
    assert_eq!(state.registration_attempts.len(), 3);
    assert_eq!(state.ip_blacklist.len(), 1);
    assert_eq!(state.ip_blacklist[0].ip, "9.9.9.9");
    assert_eq!(state.ip_blacklist[0].until, T0 + 3_000 + 86_400_000);
    assert_eq!(state.ip_blacklist[0].reason, "注册频率过高");

    let fifth = register_at(
        &mut state,
        "9.9.9.9",
        &body_for("d", "d@example.org", "123456"),
        T0 + 4_000,
        "h".to_string(),
        "id-d".to_string(),
        "token-d".to_string(),
    );
    assert_eq!(fifth.outcome, Err(Denial::IpBlacklisted));
    assert_eq!(state.ip_blacklist.len(), 1);

    let elsewhere = join(&mut state, "8.8.8.8", "e", T0 + 5_000);
    assert_eq!(elsewhere, Ok(Registered::WithSession));

    let last_barred = T0 + 3_000 + 86_400_000 - 1;
    record_verification_code_sent(&mut state, "9.9.9.9", "d@example.org", "123456".to_string(), last_barred);
    let still = register_at(
        &mut state,
        "9.9.9.9",
        &body_for("d", "d@example.org", "123456"),
        last_barred,
        "h".to_string(),
        "id-d".to_string(),
        "token-d".to_string(),
    );
    assert_eq!(still.outcome, Err(Denial::IpBlacklisted));

    let after = T0 + 3_000 + 86_400_000;
    record_verification_code_sent(&mut state, "9.9.9.9", "d@example.org", "123456".to_string(), after);
    let again = register_at(
        &mut state,
        "9.9.9.9",
        &body_for("d", "d@example.org", "123456"),
        after,
        "h".to_string(),
        "id-d".to_string(),
        "token-d".to_string(),
    );
    assert_eq!(again.outcome, Ok(Registered::WithSession));
    assert!(state.ip_blacklist.is_empty());
    assert_eq!(state.registration_attempts.len(), 1);
}

#[test]
fn registration_window_slides() {
    let mut state = AppState::new();
    assert_eq!(join(&mut state, "9.9.9.9", "a", T0), Ok(Registered::WithSession));
    assert_eq!(join(&mut state, "9.9.9.9", "b", T0 + 1_000), Ok(Registered::WithSession));
    assert_eq!(join(&mut state, "9.9.9.9", "c", T0 + 2_000), Ok(Registered::WithSession));
    let out = join(&mut state, "9.9.9.9", "d", T0 + 3_600_000);
    assert_eq!(out, Ok(Registered::WithSession));
    assert_eq!(state.registration_attempts.len(), 3);
    assert_eq!(state.registration_attempts[0].timestamp, T0 + 1_000);
}

#[test]
fn sixth_login_evicts_the_oldest_session() {
    let mut state = AppState::new();
    assert_eq!(join(&mut state, "1.1.1.1", "a", T0), Ok(Registered::WithSession));
    for k in 1..5 {
        let reply = login_at(
            &mut state,
            "1.1.1.1",
            "a@example.org",
            "hash-of-a",
            T0 + k,
            format!("t{}", k),
        );
        assert_eq!(reply.outcome, Ok(()));
    }
    assert_eq!(state.sessions.len(), 5);
    assert_eq!(state.session_user(Some("token-a")), Some("id-a".to_string()));

    let sixth = login_at(&mut state, "1.1.1.1", "a@example.org", "hash-of-a", T0 + 5, "t5".to_string());
    assert_eq!(sixth.outcome, Ok(()));
    let tokens: Vec<&str> = state.sessions.iter().map(|s| s.token.as_str()).collect();
    assert_eq!(tokens, vec!["t1", "t2", "t3", "t4", "t5"]);
    assert_eq!(state.session_user(Some("token-a")), None);

    let seventh = login_at(&mut state, "1.1.1.1", "a@example.org", "hash-of-a", T0 + 6, "t6".to_string());
    assert_eq!(seventh.outcome, Ok(()));
    let tokens: Vec<&str> = state.sessions.iter().map(|s| s.token.as_str()).collect();
    assert_eq!(tokens, vec!["t2", "t3", "t4", "t5", "t6"]);
}

#[test]
fn eviction_leaves_other_users_alone() {
    let mut state = AppState::new();
    assert_eq!(join(&mut state, "1.1.1.1", "a", T0), Ok(Registered::WithSession));
    assert_eq!(join(&mut state, "2.2.2.2", "b", T0), Ok(Registered::WithSession));
    for k in 1..8 {
        login_at(&mut state, "1.1.1.1", "a@example.org", "hash-of-a", T0 + k, format!("t{}", k));
    }
    assert_eq!(state.session_user(Some("token-b")), Some("id-b".to_string()));
    let of_a = state.sessions.iter().filter(|s| s.user_id == "id-a").count();
    assert_eq!(of_a, 5);
    assert_eq!(state.sessions.len(), 6);
}

#[test]
fn login_is_refused_for_each_reason() {
    let mut state = AppState::new();
    assert_eq!(join(&mut state, "1.1.1.1", "a", T0), Ok(Registered::WithSession));
    let unknown = login_at(&mut state, "1.1.1.1", "x@example.org", "hash-of-a", T0, "t".to_string());
    assert_eq!(unknown.outcome, Err(Denial::BadCredentials));
    let wrong = login_at(&mut state, "1.1.1.1", "a@example.org", "nope", T0, "t".to_string());
    assert_eq!(wrong.outcome, Err(Denial::BadCredentials));
    let reused = login_at(&mut state, "1.1.1.1", "a@example.org", "hash-of-a", T0, "token-a".to_string());
    assert_eq!(reused.outcome, Err(Denial::IdentifierInUse));
    state.users[0].status = UserStatus::Banned;
    state.sessions.clear();
    let banned = login_at(&mut state, "1.1.1.1", "a@example.org", "hash-of-a", T0, "t".to_string());
    assert_eq!(banned.outcome, Err(Denial::AccountBanned));
    assert!(state.sessions.is_empty());
}

#[test]
fn login_keeps_the_thirty_latest_addresses() {
    let mut state = AppState::new();
    assert_eq!(join(&mut state, "ip-0", "a", T0), Ok(Registered::WithSession));
    for k in 1..=30 {
        let reply = login_at(
            &mut state,
            &format!("ip-{}", k),
            "a@example.org",
            "hash-of-a",
            T0 + k,
            format!("t{}", k),
        );
        assert_eq!(reply.outcome, Ok(()));
    }
    assert_eq!(state.users[0].last_ips.len(), 30);
    assert_eq!(state.users[0].last_ips[0], "ip-1");
    assert_eq!(state.users[0].last_ips[29], "ip-30");
}

#[test]
fn logout_revokes_only_the_token_presented() {
    let mut state = AppState::new();
    assert_eq!(join(&mut state, "1.1.1.1", "a", T0), Ok(Registered::WithSession));
    login_at(&mut state, "1.1.1.1", "a@example.org", "hash-of-a", T0, "t1".to_string());
    let out = logout_at(&mut state, Some("token-a"), T0 + 1);
    assert_eq!(out.outcome, Ok(()));
    assert!(out.save.sessions);
    assert_eq!(state.session_user(Some("token-a")), None);
    assert_eq!(state.session_user(Some("t1")), Some("id-a".to_string()));
    let twice = logout_at(&mut state, Some("token-a"), T0 + 2);
    assert_eq!(twice.outcome, Ok(()));
    assert_eq!(twice.save, SaveSet::nothing());
    let none = logout_at(&mut state, None, T0 + 3);
    assert_eq!(none.outcome, Ok(()));
    assert_eq!(state.sessions.len(), 1);
}

#[test]
fn second_code_within_a_minute_must_wait() {
    let mut state = AppState::new();
    let first = send_verification_code_at(&mut state, "1.1.1.1", "a@example.org", T0, Some(true));
    assert_eq!(first.outcome, Ok(()));
    assert!(state.verification_attempts.is_empty());
    let save = record_verification_code_sent(&mut state, "1.1.1.1", "a@example.org", "111111".to_string(), T0);
    assert_eq!(save, SaveSet { verification_attempts: true, ..SaveSet::nothing() });

    let second = send_verification_code_at(&mut state, "1.1.1.1", "a@example.org", T0 + 10_000, Some(true));
    assert_eq!(second.outcome, Err(Denial::SendTooFrequent { retry_after_seconds: 50 }));
    assert_eq!(second.outcome.unwrap_err().retry_after_seconds(), Some(50));
    assert_eq!(state.verification_attempts.len(), 1);

    let almost = send_verification_code_at(&mut state, "1.1.1.1", "a@example.org", T0 + 59_999, Some(true));
    assert_eq!(almost.outcome, Err(Denial::SendTooFrequent { retry_after_seconds: 1 }));
    let part = send_verification_code_at(&mut state, "1.1.1.1", "a@example.org", T0 + 10_999, Some(true));
    assert_eq!(part.outcome, Err(Denial::SendTooFrequent { retry_after_seconds: 50 }));
    let at_once = send_verification_code_at(&mut state, "1.1.1.1", "a@example.org", T0, Some(true));
    assert_eq!(at_once.outcome, Err(Denial::SendTooFrequent { retry_after_seconds: 60 }));

    let other = send_verification_code_at(&mut state, "2.2.2.2", "a@example.org", T0 + 10_000, Some(true));
    assert_eq!(other.outcome, Ok(()));
    let later = send_verification_code_at(&mut state, "1.1.1.1", "a@example.org", T0 + 60_000, Some(true));
    assert_eq!(later.outcome, Ok(()));
}

#[test]
fn hourly_and_daily_send_limits() {
    let mut state = AppState::new();
    for k in 0..6 {
        let now = T0 + k * 61_000;
        let ok = send_verification_code_at(&mut state, "1.1.1.1", "a@example.org", now, Some(true));
        assert_eq!(ok.outcome, Ok(()));
        record_verification_code_sent(&mut state, "1.1.1.1", "a@example.org", "111111".to_string(), now);
    }
    let seventh = send_verification_code_at(&mut state, "1.1.1.1", "a@example.org", T0 + 6 * 61_000, Some(true));
    assert_eq!(seventh.outcome, Err(Denial::HourlySendLimit));

    let mut now = T0 + 3_600_000;
    for _ in 0..6 {
        let ok = send_verification_code_at(&mut state, "1.1.1.1", "a@example.org", now, Some(true));
        assert_eq!(ok.outcome, Ok(()));
        record_verification_code_sent(&mut state, "1.1.1.1", "a@example.org", "111111".to_string(), now);
        now += 61_000;
    }
    assert_eq!(state.verification_attempts.len(), 12);
    let thirteenth = send_verification_code_at(&mut state, "1.1.1.1", "a@example.org", T0 + 2 * 3_600_000 + 400_000, Some(true));
    assert_eq!(thirteenth.outcome, Err(Denial::DailySendLimit));
    let next_day = send_verification_code_at(&mut state, "1.1.1.1", "a@example.org", T0 + 86_400_000 + 5 * 61_000 + 1, Some(true));
    assert_eq!(next_day.outcome, Ok(()));
}

#[test]
fn code_request_is_refused_for_each_reason() {
    let mut state = AppState::new();
    let bad = send_verification_code_at(&mut state, "1.1.1.1", "nonsense", T0, Some(false));
    assert_eq!(bad.outcome, Err(Denial::InvalidEmail));
    let broken = send_verification_code_at(&mut state, "1.1.1.1", "a@example.org", T0, None);
    assert_eq!(broken.outcome, Err(Denial::InvalidEmail));
    assert_eq!(join(&mut state, "1.1.1.1", "a", T0), Ok(Registered::WithSession));
    let taken = send_verification_code_at(&mut state, "2.2.2.2", "a@example.org", T0, Some(true));
    assert_eq!(taken.outcome, Err(Denial::EmailTaken));
    state.email_blacklist.push("b@example.org".to_string());
    let barred = send_verification_code_at(&mut state, "2.2.2.2", "b@example.org", T0, Some(true));
    assert_eq!(barred.outcome, Err(Denial::EmailBlacklisted));
    let closed = UpdateSettingsRequest { registration_open: false, require_approval: false };
    update_settings_at(&mut state, Some("token-a"), &closed, T0);
    let shut = send_verification_code_at(&mut state, "2.2.2.2", "c@example.org", T0, Some(true));
    assert_eq!(shut.outcome, Err(Denial::RegistrationClosed));
}

#[test]
fn a_new_code_supersedes_the_old_one() {
    let mut state = AppState::new();
    record_verification_code_sent(&mut state, "1.1.1.1", "a@example.org", "111111".to_string(), T0);
    record_verification_code_sent(&mut state, "1.1.1.1", "b@example.org", "222222".to_string(), T0);
    record_verification_code_sent(&mut state, "1.1.1.1", "a@example.org", "333333".to_string(), T0 + 1);
    assert_eq!(state.verification_codes.len(), 2);
    assert_eq!(state.verification_codes[0].email, "b@example.org");
    assert_eq!(state.verification_codes[1].email, "a@example.org");
    assert_eq!(state.verification_codes[1].code, "333333");
    assert_eq!(state.verification_codes[1].created_at, T0 + 1);
    assert_eq!(state.verification_attempts.len(), 3);
}

#[test]
fn password_digest_is_sha256_in_lower_hex() {
    assert_eq!(
        hash_password("abc"),
        "ba7816bf8f01cfea414140de5dae2223b00361a396177a9cb410ff61f20015ad"
    );
    assert_eq!(
        hash_password(""),
        "e3b0c44298fc1c149afbf4c8996fb92427ae41e4649b934ca495991b7852b855"
    );
    assert_ne!(hash_password("abc"), "abc");
}

#[test]
fn email_shape_is_tested_by_the_pattern() {
    assert!(is_valid_email("a@example.org"));
    assert!(is_valid_email("first.last@sub.example.org"));
    assert!(!is_valid_email("a@example"));
    assert!(!is_valid_email("a b@example.org"));
    assert!(!is_valid_email("a@@example.org"));
    assert!(!is_valid_email("@example.org"));
    assert!(!is_valid_email("a@.org"));
    assert!(!is_valid_email("a@example."));
    assert!(!is_valid_email(""));
}

#[test]
fn codes_are_six_decimal_digits() {
    for _ in 0..50 {
        let code = draw_code();
        assert_eq!(code.chars().count(), 6);
        assert!(code.chars().all(|c| c.is_ascii_digit()));
    }
    assert_eq!(code_from_digits(&vec![0, 1, 2, 7, 8, 9]), "012789");
    assert_eq!(code_from_digits(&vec![10, 23, 255]), "035");
    assert_eq!(code_from_digits(&vec![]), "");
}

#[test]
fn register_and_login_draw_their_own_values() {
    let mut state = AppState::new();
    let (code_reply, asked) = send_verification_code(
        &mut state,
        "1.1.1.1",
        &SendVerificationCodeRequest { email: "a@example.org".to_string() },
    );
    let code = code_reply.outcome.expect("code");
    assert_eq!(code.len(), 6);
    record_verification_code_sent(&mut state, "1.1.1.1", "a@example.org", code.clone(), asked.now);
    let (bad_reply, _) = send_verification_code(
        &mut state,
        "1.1.1.1",
        &SendVerificationCodeRequest { email: "not an address".to_string() },
    );
    assert_eq!(bad_reply.outcome, Err(Denial::InvalidEmail));

    let (reply, drawn) = register(&mut state, "1.1.1.1", &body_for("a", "a@example.org", &code));
    assert_eq!(reply.outcome, Ok(Registered::WithSession));
    assert_eq!(state.users[0].id, drawn.id);
    assert_eq!(state.users[0].created_at, drawn.now);
    assert_eq!(state.users[0].password_hash, hash_password("secret"));
    assert_eq!(state.session_user(Some(&drawn.token)), Some(drawn.id.clone()));
    assert_ne!(drawn.id, drawn.token);
    assert!(!drawn.id.is_empty());

    let wrong = LoginRequest { email: "a@example.org".to_string(), password: "other".to_string() };
    let (refused, _) = login(&mut state, "1.1.1.1", &wrong);
    assert_eq!(refused.outcome, Err(Denial::BadCredentials));
    let right = LoginRequest { email: "a@example.org".to_string(), password: "secret".to_string() };
    let (entered, again) = login(&mut state, "1.1.1.1", &right);
    assert_eq!(entered.outcome, Ok(()));
    assert_eq!(state.session_user(Some(&again.token)), Some(drawn.id.clone()));
    assert_eq!(state.sessions.len(), 2);
}

#[test]
fn verify_email_asks_for_a_token_only() {
    assert_eq!(verify_email(Some("anything")), Ok(()));
    assert_eq!(verify_email(None), Err(Denial::Unauthorized));
}

#[test]
fn current_user_needs_a_live_session() {
    let mut state = AppState::new();
    assert_eq!(join(&mut state, "1.1.1.1", "a", T0), Ok(Registered::WithSession));
    let me = get_current_user(&state, Some("token-a")).expect("user");
    assert_eq!(me.id, "id-a");
    assert_eq!(me.email, "a@example.org");
    assert_eq!(get_current_user(&state, Some("nope")).unwrap_err(), Denial::Unauthorized);
    assert_eq!(get_current_user(&state, None).unwrap_err(), Denial::Unauthorized);
}

#[test]
fn own_display_name_is_changed_and_announced() {
    let mut state = AppState::new();
    assert_eq!(join(&mut state, "1.1.1.1", "a", T0), Ok(Registered::WithSession));
    let body = UpdateDisplayNameRequest { display_name: Some("Ann".to_string()) };
    let change = name_change(update_display_name_at(&mut state, Some("token-a"), &body, T0).outcome);
    assert_eq!(change.user_id, "id-a");
    assert_eq!(change.old_display_name, None);
    assert_eq!(change.new_display_name, Some("Ann".to_string()));
    assert_eq!(state.users[0].display_name, Some("Ann".to_string()));
    let clear = UpdateDisplayNameRequest { display_name: None };
    let back = name_change(update_display_name_at(&mut state, Some("token-a"), &clear, T0).outcome);
    assert_eq!(back.old_display_name, Some("Ann".to_string()));
    assert_eq!(back.new_display_name, None);
    let nobody = update_display_name_at(&mut state, Some("x"), &body, T0);
    assert_eq!(nobody.outcome.unwrap_err(), Denial::Unauthorized);
}

#[test]
fn account_deletion_spares_the_admin_and_revokes_sessions() {
    let mut state = AppState::new();
    assert_eq!(join(&mut state, "1.1.1.1", "a", T0), Ok(Registered::WithSession));
    assert_eq!(join(&mut state, "2.2.2.2", "b", T0), Ok(Registered::WithSession));
    login_at(&mut state, "2.2.2.2", "b@example.org", "hash-of-b", T0, "b2".to_string());
    let admin = delete_account_at(&mut state, Some("token-a"), T0);
    assert_eq!(deleted_user(admin.outcome), Err(Denial::AdminAccountProtected));
    let gone = delete_account_at(&mut state, Some("token-b"), T0);
    assert_eq!(gone.save, saves(true, true, false));
    assert_eq!(deleted_user(gone.outcome), Ok("id-b".to_string()));
    assert_eq!(state.users.len(), 1);
    assert_eq!(state.session_user(Some("token-b")), None);
    assert_eq!(state.session_user(Some("b2")), None);
    assert_eq!(state.session_user(Some("token-a")), Some("id-a".to_string()));
    let twice = delete_account_at(&mut state, Some("token-b"), T0);
    assert_eq!(deleted_user(twice.outcome), Err(Denial::Unauthorized));
}

#[test]
fn refusals_fall_into_three_families() {
    assert_eq!(Denial::EmailTaken.kind(), ErrorKind::Validation);
    assert_eq!(Denial::WrongVerificationCode.kind(), ErrorKind::Validation);
    assert_eq!(Denial::InvalidEmail.kind(), ErrorKind::Validation);
    assert_eq!(Denial::UserNotFound.kind(), ErrorKind::NotFound);
    assert_eq!(Denial::MessageUnavailable.kind(), ErrorKind::NotFound);
    assert_eq!(Denial::Unauthorized.kind(), ErrorKind::PolicyDenied);
    assert_eq!(Denial::IpBlacklisted.kind(), ErrorKind::PolicyDenied);
    assert_eq!(Denial::SendTooFrequent { retry_after_seconds: 5 }.kind(), ErrorKind::PolicyDenied);
    assert_eq!(Denial::RegistrationRateExceeded.retry_after_seconds(), Some(86_400));
    assert_eq!(Denial::HourlySendLimit.retry_after_seconds(), None);
}
