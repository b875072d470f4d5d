use chatroom::guard::codes_distinct;
use chatroom::models::{
    MentionCheck, Session, User, UserRole, UserStatus, VerificationCode,
};
use chatroom::sessions::{count_for, well_formed as sessions_well_formed};
use chatroom::state::AppState;
use chatroom::users::{is_active_user, remember_ip, well_formed as users_well_formed};
use chatroom::websocket::{Connection, ConnectionRegistry};

fn member(id: &str) -> User {
    User {
        id: id.to_string(),
        username: id.to_string(),
        email: format!("{}@example.org", id),
        password_hash: String::new(),
        avatar: None,
        display_name: None,
        role: UserRole::Member,
        status: UserStatus::Active,
        created_at: 0,
        last_ips: vec![],
        muted_until: None,
    }
}

fn pass(token: &str, user_id: &str) -> Session {
    Session { token: token.to_string(), user_id: user_id.to_string(), created_at: 0 }
}

fn sound_state() -> AppState {
    let mut state = AppState::new();
    state.users.push(User { role: UserRole::Admin, ..member("a") });
    state.users.push(member("b"));
    state.sessions.push(pass("t1", "a"));
    state.sessions.push(pass("t2", "b"));
    state
}

#[test]
fn registries_made_by_the_library_are_well_formed() {
    assert!(AppState::new().is_well_formed());
    assert!(sound_state().is_well_formed());
    assert!(ConnectionRegistry::new().is_well_formed());
}

#[test]
fn a_missing_or_second_administrator_is_found() {
    let mut state = sound_state();
    state.users[1].role = UserRole::Admin;
    assert!(!state.is_well_formed());
    state.users[0].role = UserRole::DeputyAdmin;
    assert!(state.is_well_formed());
    state.users[1].role = UserRole::Member;
    assert!(!state.is_well_formed());
    assert_eq!(chatroom::users::count_admins(&state.users), 0);
    assert!(!chatroom::users::has_one_admin(&state.users));
    assert!(chatroom::users::has_one_admin(&vec![]));
}

#[test]
fn a_repeated_user_id_is_found() {
    let mut state = sound_state();
    state.users.push(member("a"));
    assert!(!state.is_well_formed());
    assert!(!users_well_formed(&state.users));
}

#[test]
fn too_many_addresses_are_found() {
    let mut state = sound_state();
    state.users[1].last_ips = (0..31).map(|k| k.to_string()).collect();
    assert!(!state.is_well_formed());
    state.users[1].last_ips.pop();
    assert!(state.is_well_formed());
}

#[test]
fn a_repeated_token_is_found() {
    let mut state = sound_state();
    state.sessions.push(pass("t1", "b"));
    assert!(!state.is_well_formed());
    assert!(!sessions_well_formed(&state.sessions));
}

#[test]
fn a_sixth_session_is_found() {
    let mut state = sound_state();
    for k in 0..4 {
        state.sessions.push(pass(&format!("a{}", k), "a"));
    }
    assert_eq!(count_for(&state.sessions, "a"), 5);
    assert_eq!(count_for(&state.sessions, "b"), 1);
    assert_eq!(count_for(&state.sessions, "c"), 0);
    assert!(state.is_well_formed());
    state.sessions.push(pass("a4", "a"));
    assert!(!sessions_well_formed(&state.sessions));
    assert!(!state.is_well_formed());
}

#[test]
fn a_session_without_an_active_owner_is_found() {
    let mut state = sound_state();
    state.sessions.push(pass("t3", "nobody"));
    assert!(sessions_well_formed(&state.sessions));
    assert!(!state.is_well_formed());
    let mut pending = sound_state();
    pending.users[0].status = UserStatus::Pending;
    assert!(!pending.is_well_formed());
    assert!(!is_active_user(&pending.users, "a"));
    assert!(is_active_user(&pending.users, "b"));
    assert!(!is_active_user(&pending.users, "c"));
}

#[test]
fn repeated_codes_and_mention_records_are_found() {
    let code = |email: &str| VerificationCode {
        email: email.to_string(),
        code: "1".to_string(),
        created_at: 0,
    };
    let mut state = sound_state();
    state.verification_codes.push(code("x@example.org"));
    state.verification_codes.push(code("y@example.org"));
    assert!(codes_distinct(&state.verification_codes));
    assert!(state.is_well_formed());
    state.verification_codes.push(code("x@example.org"));
    assert!(!codes_distinct(&state.verification_codes));
    assert!(!state.is_well_formed());
    state.verification_codes.pop();
    let seen = |user: &str| MentionCheck {
        user_id: user.to_string(),
        checked_message_ids: vec![],
        last_updated: 0,
    };
    state.mention_checks.push(seen("a"));
    state.mention_checks.push(seen("b"));
    assert!(state.is_well_formed());
    state.mention_checks.push(seen("a"));
    assert!(!state.is_well_formed());
}

#[test]
fn a_user_with_two_connections_is_found() {
    let mut registry = ConnectionRegistry::new();
    registry.entries.push(Connection { user_id: "a".to_string(), handle: 1 });
    registry.entries.push(Connection { user_id: "b".to_string(), handle: 2 });
    assert!(registry.is_well_formed());
    registry.entries.push(Connection { user_id: "a".to_string(), handle: 3 });
    assert!(!registry.is_well_formed());
}

#[test]
fn the_address_ring_holds_thirty() {
    let mut ips: Vec<String> = Vec::new();
    for k in 0..30 {
        remember_ip(&mut ips, &format!("ip-{}", k));
    }
    assert_eq!(ips.len(), 30);
    assert_eq!(ips[0], "ip-0");
    remember_ip(&mut ips, "ip-30");
    assert_eq!(ips.len(), 30);
    assert_eq!(ips[0], "ip-1");
    assert_eq!(ips[29], "ip-30");
}
