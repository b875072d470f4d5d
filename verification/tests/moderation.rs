use chatroom::accounts::{login_at, record_verification_code_sent, register_at, Registered};
use chatroom::admin::{
    add_user, add_user_at, approve_user_at, delete_user_at, get_pending_users,
    get_public_settings, get_settings, get_users, reject_user_at, update_settings_at,
};
use chatroom::api::{
    AddUserRequest, ApproveRejectRequest, BanUserRequest, DeleteUserRequest, Denial,
    MuteUserRequest, RegisterRequest, SaveSet, SetDeputyAdminRequest, UnmuteUserRequest,
    UpdateSettingsRequest, UpdateUserDisplayNameRequest,
};
use chatroom::models::{Settings, UserRole, UserStatus};
use chatroom::moderation::{
    ban_user_at, mute_user_at, set_deputy_admin_at, unmute_user_at, update_user_display_name_at,
};
use chatroom::policy::{is_permitted, Action};
use chatroom::accounts::DisplayNameChange;
use chatroom::moderation::RoleChange;
use chatroom::state::AppState;
use chatroom::websocket::Event;

const T0: i64 = 1_700_000_000_000;

fn enrol(state: &mut AppState, name: &str, now: i64) {
    let email = format!("{}@example.org", name);
    let ip = format!("ip-{}", name);
    record_verification_code_sent(state, &ip, &email, "123456".to_string(), now);
    let body = RegisterRequest {
        username: name.to_string(),
        email,
        password: "secret".to_string(),
        avatar: None,
        verification_code: "123456".to_string(),
    };
    let reply = register_at(
        state,
        &ip,
        &body,
        now,
        format!("hash-of-{}", name),
        format!("id-{}", name),
        format!("token-{}", name),
    );
    assert_eq!(reply.outcome, Ok(Registered::WithSession));
}

fn role_change(outcome: Result<Event, Denial>) -> Result<RoleChange, Denial> {
    match outcome {
        Ok(Event::RoleChanged(change)) => Ok(change),
        Ok(other) => panic!("no change of role: {:?}", other),
        Err(reason) => Err(reason),
    }
}

fn renaming(outcome: Result<Event, Denial>) -> Result<DisplayNameChange, Denial> {
    match outcome {
        Ok(Event::DisplayNameChanged(change)) => Ok(change),
        Ok(other) => panic!("no change of display name: {:?}", other),
        Err(reason) => Err(reason),
    }
}

fn banned_user(outcome: Result<Event, Denial>) -> Result<String, Denial> {
    match outcome {
        Ok(Event::UserBanned { user_id }) => Ok(user_id),
        Ok(other) => panic!("no ban: {:?}", other),
        Err(reason) => Err(reason),
    }
}

fn removed_user(outcome: Result<Event, Denial>) -> Result<String, Denial> {
    match outcome {
        Ok(Event::UserDeleted { user_id }) => Ok(user_id),
        Ok(other) => panic!("no deletion: {:?}", other),
        Err(reason) => Err(reason),
    }
}

/// Admin `a`, deputy `d`, members `m` and `n`.
fn room() -> AppState {
    let mut state = AppState::new();
    enrol(&mut state, "a", T0);
    enrol(&mut state, "d", T0);
    enrol(&mut state, "m", T0);
    enrol(&mut state, "n", T0);
    let body = SetDeputyAdminRequest { user_id: "id-d".to_string(), is_deputy: true };
    let change =
        role_change(set_deputy_admin_at(&mut state, Some("token-a"), &body, T0).outcome).expect("ok");
    assert_eq!(change.user_id, "id-d");
    assert_eq!(change.old_role, UserRole::Member);
    assert_eq!(change.new_role, UserRole::DeputyAdmin);
    state
}

fn role_of(state: &AppState, id: &str) -> UserRole {
    state.users[state.find_user(id).expect("user")].role
}

#[test]
fn policy_table_for_recall() {
    let all = [None, Some(UserRole::Admin), Some(UserRole::DeputyAdmin), Some(UserRole::Member)];
    for target in all {
        assert!(is_permitted(Action::RecallMessage, UserRole::Admin, target, false));
        assert!(is_permitted(Action::RecallMessage, UserRole::Member, target, true));
        assert!(!is_permitted(Action::RecallMessage, UserRole::Member, target, false));
        assert!(is_permitted(Action::RecallMessage, UserRole::DeputyAdmin, target, true));
    }
    assert!(is_permitted(Action::RecallMessage, UserRole::DeputyAdmin, Some(UserRole::Member), false));
    assert!(is_permitted(Action::RecallMessage, UserRole::DeputyAdmin, None, false));
    assert!(!is_permitted(Action::RecallMessage, UserRole::DeputyAdmin, Some(UserRole::Admin), false));
    assert!(!is_permitted(
        Action::RecallMessage,
        UserRole::DeputyAdmin,
        Some(UserRole::DeputyAdmin),
        false
    ));
}

#[test]
fn policy_table_for_moderation() {
    for action in [Action::Mute, Action::Unmute] {
        assert!(is_permitted(action, UserRole::Admin, Some(UserRole::Admin), true));
        assert!(is_permitted(action, UserRole::Admin, Some(UserRole::Member), false));
        assert!(!is_permitted(action, UserRole::Admin, None, false));
        assert!(is_permitted(action, UserRole::DeputyAdmin, Some(UserRole::Member), false));
        assert!(!is_permitted(action, UserRole::DeputyAdmin, Some(UserRole::DeputyAdmin), false));
        assert!(!is_permitted(action, UserRole::DeputyAdmin, Some(UserRole::Admin), false));
        assert!(!is_permitted(action, UserRole::Member, Some(UserRole::Member), false));
    }
    assert!(is_permitted(Action::Ban, UserRole::Admin, Some(UserRole::DeputyAdmin), false));
    assert!(!is_permitted(Action::Ban, UserRole::Admin, Some(UserRole::Admin), true));
    assert!(is_permitted(Action::Ban, UserRole::DeputyAdmin, Some(UserRole::Member), false));
    assert!(!is_permitted(Action::Ban, UserRole::DeputyAdmin, Some(UserRole::DeputyAdmin), false));
    assert!(!is_permitted(Action::Ban, UserRole::Member, Some(UserRole::Member), false));
    assert!(is_permitted(Action::DeleteUser, UserRole::Admin, Some(UserRole::Member), false));
    assert!(!is_permitted(Action::DeleteUser, UserRole::Admin, Some(UserRole::Admin), true));
    assert!(!is_permitted(Action::DeleteUser, UserRole::DeputyAdmin, Some(UserRole::Member), false));
    assert!(is_permitted(Action::SetDeputyAdmin, UserRole::Admin, Some(UserRole::Member), false));
    assert!(is_permitted(Action::SetDeputyAdmin, UserRole::Admin, Some(UserRole::DeputyAdmin), false));
    assert!(!is_permitted(Action::SetDeputyAdmin, UserRole::Admin, Some(UserRole::Admin), true));
    assert!(!is_permitted(Action::SetDeputyAdmin, UserRole::Admin, None, false));
    assert!(!is_permitted(Action::SetDeputyAdmin, UserRole::DeputyAdmin, Some(UserRole::Member), false));
    assert!(is_permitted(Action::EditDisplayName, UserRole::Member, Some(UserRole::Member), true));
    assert!(!is_permitted(Action::EditDisplayName, UserRole::Member, Some(UserRole::Member), false));
    assert!(is_permitted(Action::EditDisplayName, UserRole::DeputyAdmin, Some(UserRole::Member), false));
    assert!(!is_permitted(
        Action::EditDisplayName,
        UserRole::DeputyAdmin,
        Some(UserRole::DeputyAdmin),
        false
    ));
    assert!(is_permitted(Action::EditDisplayName, UserRole::Admin, Some(UserRole::DeputyAdmin), false));
    assert!(!is_permitted(Action::EditDisplayName, UserRole::Admin, None, false));
}

#[test]
fn only_the_admin_names_deputies() {
    let mut state = room();
    assert_eq!(role_of(&state, "id-d"), UserRole::DeputyAdmin);
    let promote = SetDeputyAdminRequest { user_id: "id-m".to_string(), is_deputy: true };
    let by_deputy = set_deputy_admin_at(&mut state, Some("token-d"), &promote, T0);
    assert_eq!(role_change(by_deputy.outcome).unwrap_err(), Denial::Unauthorized);
    let on_admin = SetDeputyAdminRequest { user_id: "id-a".to_string(), is_deputy: true };
    let to_self = set_deputy_admin_at(&mut state, Some("token-a"), &on_admin, T0);
    assert_eq!(role_change(to_self.outcome).unwrap_err(), Denial::Unauthorized);
    assert_eq!(role_of(&state, "id-a"), UserRole::Admin);
    let missing = SetDeputyAdminRequest { user_id: "id-x".to_string(), is_deputy: true };
    let nobody = set_deputy_admin_at(&mut state, Some("token-a"), &missing, T0);
    assert_eq!(role_change(nobody.outcome).unwrap_err(), Denial::Unauthorized);
    let demote = SetDeputyAdminRequest { user_id: "id-d".to_string(), is_deputy: false };
    let reply = set_deputy_admin_at(&mut state, Some("token-a"), &demote, T0);
    assert_eq!(reply.save, SaveSet { users: true, ..SaveSet::nothing() });
    let change = role_change(reply.outcome).expect("ok");
    assert_eq!(change.old_role, UserRole::DeputyAdmin);
    assert_eq!(change.new_role, UserRole::Member);
    assert_eq!(role_of(&state, "id-d"), UserRole::Member);
}

#[test]
fn mute_sets_the_end_and_unmute_lifts_it() {
    let mut state = room();
    let mute = MuteUserRequest { user_id: "id-m".to_string(), duration_minutes: 15 };
    let by_member = mute_user_at(&mut state, Some("token-n"), &mute, T0);
    assert_eq!(by_member.outcome, Err(Denial::Unauthorized));
    let by_deputy = mute_user_at(&mut state, Some("token-d"), &mute, T0);
    assert_eq!(by_deputy.outcome, Ok(()));
    assert_eq!(state.users[2].muted_until, Some(T0 + 15 * 60_000));
    let on_deputy = MuteUserRequest { user_id: "id-d".to_string(), duration_minutes: 1 };
    assert_eq!(mute_user_at(&mut state, Some("token-d"), &on_deputy, T0).outcome, Err(Denial::Unauthorized));
    assert_eq!(mute_user_at(&mut state, Some("token-a"), &on_deputy, T0).outcome, Ok(()));
    let forever = MuteUserRequest { user_id: "id-n".to_string(), duration_minutes: i64::MAX };
    assert_eq!(mute_user_at(&mut state, Some("token-a"), &forever, T0).outcome, Ok(()));
    assert_eq!(state.users[3].muted_until, Some(i64::MAX));
    let unmute = UnmuteUserRequest { user_id: "id-m".to_string() };
    assert_eq!(unmute_user_at(&mut state, Some("token-n"), &unmute, T0).outcome, Err(Denial::Unauthorized));
    assert_eq!(unmute_user_at(&mut state, Some("token-d"), &unmute, T0).outcome, Ok(()));
    assert_eq!(state.users[2].muted_until, None);
    let gone = UnmuteUserRequest { user_id: "id-x".to_string() };
    assert_eq!(unmute_user_at(&mut state, Some("token-a"), &gone, T0).outcome, Err(Denial::Unauthorized));
}

#[test]
fn ban_removes_the_user_with_sessions_and_blacklists_the_email() {
    let mut state = room();
    login_at(&mut state, "ip-m", "m@example.org", "hash-of-m", T0, "m2".to_string());
    let ban = BanUserRequest { user_id: "id-m".to_string() };
    assert_eq!(banned_user(ban_user_at(&mut state, Some("token-n"), &ban, T0).outcome), Err(Denial::Unauthorized));
    let own = BanUserRequest { user_id: "id-d".to_string() };
    assert_eq!(banned_user(ban_user_at(&mut state, Some("token-d"), &own, T0).outcome), Err(Denial::CannotBanSelf));
    let admin = BanUserRequest { user_id: "id-a".to_string() };
    assert_eq!(banned_user(ban_user_at(&mut state, Some("token-d"), &admin, T0).outcome), Err(Denial::Unauthorized));
    assert_eq!(banned_user(ban_user_at(&mut state, Some("token-a"), &admin, T0).outcome), Err(Denial::CannotBanSelf));

    let reply = ban_user_at(&mut state, Some("token-d"), &ban, T0 + 1);
    assert_eq!(
        reply.save,
        SaveSet { users: true, sessions: true, blacklist: true, ..SaveSet::nothing() }
    );
    assert_eq!(banned_user(reply.outcome), Ok("id-m".to_string()));
    assert_eq!(state.find_user("id-m"), None);
    assert_eq!(state.users.len(), 3);
    assert_eq!(state.session_user(Some("token-m")), None);
    assert_eq!(state.session_user(Some("m2")), None);
    assert_eq!(state.session_user(Some("token-n")), Some("id-n".to_string()));
    assert_eq!(state.email_blacklist, vec!["m@example.org".to_string()]);
    assert_eq!(banned_user(ban_user_at(&mut state, Some("token-a"), &ban, T0 + 2).outcome), Err(Denial::Unauthorized));
    let back = login_at(&mut state, "ip-m", "m@example.org", "hash-of-m", T0 + 3, "m3".to_string());
    assert_eq!(back.outcome, Err(Denial::BadCredentials));
}

#[test]
fn admin_deletes_others_but_not_themself() {
    let mut state = room();
    let target = DeleteUserRequest { user_id: "id-n".to_string() };
    assert_eq!(removed_user(delete_user_at(&mut state, Some("token-d"), &target, T0).outcome), Err(Denial::Unauthorized));
    assert_eq!(removed_user(delete_user_at(&mut state, None, &target, T0).outcome), Err(Denial::Unauthorized));
    let own = DeleteUserRequest { user_id: "id-a".to_string() };
    assert_eq!(removed_user(delete_user_at(&mut state, Some("token-a"), &own, T0).outcome), Err(Denial::CannotDeleteSelf));
    let reply = delete_user_at(&mut state, Some("token-a"), &target, T0);
    assert_eq!(reply.save, SaveSet { users: true, sessions: true, ..SaveSet::nothing() });
    assert_eq!(removed_user(reply.outcome), Ok("id-n".to_string()));
    assert_eq!(state.session_user(Some("token-n")), None);
    assert_eq!(state.find_user("id-n"), None);
    assert!(state.email_blacklist.is_empty());
    assert_eq!(removed_user(delete_user_at(&mut state, Some("token-a"), &target, T0).outcome), Err(Denial::Unauthorized));
}

#[test]
fn display_names_of_others_follow_the_ranks() {
    let mut state = room();
    let name = Some("Nick".to_string());
    let on_m = UpdateUserDisplayNameRequest { user_id: "id-m".to_string(), display_name: name.clone() };
    let by_n = update_user_display_name_at(&mut state, Some("token-n"), &on_m, T0);
    assert_eq!(renaming(by_n.outcome).unwrap_err(), Denial::DisplayNameForbidden);
    let by_d = renaming(update_user_display_name_at(&mut state, Some("token-d"), &on_m, T0).outcome)
        .expect("ok");
    assert_eq!(by_d.user_id, "id-m");
    assert_eq!(by_d.new_display_name, name);
    assert_eq!(state.users[2].display_name, name);
    let by_m = update_user_display_name_at(&mut state, Some("token-m"), &on_m, T0);
    assert!(by_m.outcome.is_ok());
    let on_a = UpdateUserDisplayNameRequest { user_id: "id-a".to_string(), display_name: name.clone() };
    let d_on_a = update_user_display_name_at(&mut state, Some("token-d"), &on_a, T0);
    assert_eq!(renaming(d_on_a.outcome).unwrap_err(), Denial::DisplayNameForbidden);
    let on_d = UpdateUserDisplayNameRequest { user_id: "id-d".to_string(), display_name: name.clone() };
    assert!(update_user_display_name_at(&mut state, Some("token-a"), &on_d, T0).outcome.is_ok());
    let on_x = UpdateUserDisplayNameRequest { user_id: "id-x".to_string(), display_name: name };
    let missing = update_user_display_name_at(&mut state, Some("token-a"), &on_x, T0);
    assert_eq!(renaming(missing.outcome).unwrap_err(), Denial::Unauthorized);
    let nobody = update_user_display_name_at(&mut state, Some("zz"), &on_m, T0);
    assert_eq!(renaming(nobody.outcome).unwrap_err(), Denial::Unauthorized);
}

#[test]
fn settings_are_for_the_admin() {
    let mut state = room();
    assert_eq!(
        get_settings(&state, Some("token-a")),
        Ok(Settings { registration_open: true, require_approval: false })
    );
    assert_eq!(get_settings(&state, Some("token-d")), Err(Denial::Unauthorized));
    assert_eq!(get_settings(&state, None), Err(Denial::Unauthorized));
    let body = UpdateSettingsRequest { registration_open: false, require_approval: true };
    assert_eq!(update_settings_at(&mut state, Some("token-m"), &body, T0).outcome, Err(Denial::Unauthorized));
    assert!(state.settings.registration_open);
    let reply = update_settings_at(&mut state, Some("token-a"), &body, T0);
    assert_eq!(reply.outcome, Ok(()));
    assert_eq!(reply.save, SaveSet { settings: true, ..SaveSet::nothing() });
    let public = get_public_settings(&state);
    assert!(!public.registration_open);
    assert!(public.require_approval);
}

#[test]
fn pending_users_are_listed_approved_and_rejected() {
    let mut state = room();
    let body = UpdateSettingsRequest { registration_open: true, require_approval: true };
    update_settings_at(&mut state, Some("token-a"), &body, T0);
    for name in ["p", "q"] {
        let email = format!("{}@example.org", name);
        record_verification_code_sent(&mut state, "ip", &email, "123456".to_string(), T0);
        let req = RegisterRequest {
            username: name.to_string(),
            email,
            password: "secret".to_string(),
            avatar: Some("pic".to_string()),
            verification_code: "123456".to_string(),
        };
        let reply = register_at(
            &mut state,
            "ip",
            &req,
            T0,
            "h".to_string(),
            format!("id-{}", name),
            format!("token-{}", name),
        );
        assert_eq!(reply.outcome, Ok(Registered::AwaitingApproval));
    }
    let pending = get_pending_users(&state, Some("token-a")).expect("list");
    let ids: Vec<&str> = pending.iter().map(|u| u.id.as_str()).collect();
    assert_eq!(ids, vec!["id-p", "id-q"]);
    assert_eq!(pending[0].avatar, Some("pic".to_string()));
    assert_eq!(get_pending_users(&state, Some("token-d")).unwrap_err(), Denial::Unauthorized);
    let active = get_users(&state, Some("token-a")).expect("list");
    let ids: Vec<&str> = active.iter().map(|u| u.id.as_str()).collect();
    assert_eq!(ids, vec!["id-a", "id-d", "id-m", "id-n"]);
    assert_eq!(get_users(&state, None).unwrap_err(), Denial::Unauthorized);

    let p = ApproveRejectRequest { user_id: "id-p".to_string() };
    let q = ApproveRejectRequest { user_id: "id-q".to_string() };
    let m = ApproveRejectRequest { user_id: "id-m".to_string() };
    let x = ApproveRejectRequest { user_id: "id-x".to_string() };
    assert_eq!(approve_user_at(&mut state, Some("token-d"), &p, T0).outcome.unwrap_err(), Denial::Unauthorized);
    assert_eq!(approve_user_at(&mut state, Some("token-a"), &x, T0).outcome.unwrap_err(), Denial::UserNotFound);
    assert_eq!(approve_user_at(&mut state, Some("token-a"), &m, T0).outcome.unwrap_err(), Denial::UserNotPending);
    assert!(approve_user_at(&mut state, Some("token-a"), &p, T0).outcome.is_ok());
    assert_eq!(approve_user_at(&mut state, Some("token-a"), &p, T0).outcome.unwrap_err(), Denial::UserNotPending);

    assert_eq!(reject_user_at(&mut state, Some("token-d"), &q, T0).outcome.unwrap_err(), Denial::Unauthorized);
    assert_eq!(reject_user_at(&mut state, Some("token-a"), &m, T0).outcome.unwrap_err(), Denial::Unauthorized);
    assert_eq!(state.find_user("id-m"), Some(2));
    assert_eq!(reject_user_at(&mut state, Some("token-a"), &x, T0).outcome.unwrap_err(), Denial::Unauthorized);
    let reply = reject_user_at(&mut state, Some("token-a"), &q, T0);
    assert_eq!(reply.save, SaveSet { users: true, blacklist: true, ..SaveSet::nothing() });
    let rejected = reply.outcome.expect("ok");
    assert_eq!(rejected.email, "q@example.org");
    assert_eq!(rejected.status, UserStatus::Pending);
    assert_eq!(state.find_user("id-q"), None);
    assert_eq!(state.email_blacklist, vec!["q@example.org".to_string()]);
    assert!(get_pending_users(&state, Some("token-a")).expect("list").is_empty());
}

#[test]
fn admin_adds_an_active_member() {
    let mut state = room();
    let body = AddUserRequest {
        username: "z".to_string(),
        email: "z@example.org".to_string(),
        password: "pw".to_string(),
        avatar: None,
    };
    let denied = add_user_at(&mut state, Some("token-d"), &body, T0, "h".to_string(), "id-z".to_string());
    assert_eq!(denied.outcome, Err(Denial::Unauthorized));
    let clash = add_user_at(&mut state, Some("token-a"), &body, T0, "h".to_string(), "id-m".to_string());
    assert_eq!(clash.outcome, Err(Denial::IdentifierInUse));
    let added = add_user_at(&mut state, Some("token-a"), &body, T0 + 7, "h".to_string(), "id-z".to_string());
    assert_eq!(added.outcome, Ok(()));
    assert_eq!(added.save, SaveSet { users: true, ..SaveSet::nothing() });
    let z = &state.users[4];
    assert_eq!(z.id, "id-z");
    assert_eq!(z.role, UserRole::Member);
    assert_eq!(z.status, UserStatus::Active);
    assert_eq!(z.created_at, T0 + 7);
    assert!(z.last_ips.is_empty());
    assert_eq!(z.password_hash, "h");
    let same_email = AddUserRequest {
        username: "y".to_string(),
        email: "z@example.org".to_string(),
        password: "pw".to_string(),
        avatar: None,
    };
    let again = add_user_at(&mut state, Some("token-a"), &same_email, T0, "h".to_string(), "id-y".to_string());
    assert_eq!(again.outcome, Err(Denial::EmailTaken));
    let same_name = AddUserRequest {
        username: "z".to_string(),
        email: "y@example.org".to_string(),
        password: "pw".to_string(),
        avatar: None,
    };
    let named = add_user_at(&mut state, Some("token-a"), &same_name, T0, "h".to_string(), "id-y".to_string());
    assert_eq!(named.outcome, Err(Denial::UsernameTaken));

    let fresh = AddUserRequest {
        username: "w".to_string(),
        email: "w@example.org".to_string(),
        password: "abc".to_string(),
        avatar: None,
    };
    let (reply, drawn) = add_user(&mut state, Some("token-a"), &fresh);
    assert_eq!(reply.outcome, Ok(()));
    let w = &state.users[5];
    assert_eq!(w.id, drawn.id);
    assert_eq!(
        w.password_hash,
        "ba7816bf8f01cfea414140de5dae2223b00361a396177a9cb410ff61f20015ad"
    );
    let digest = w_hash(&state);
    let entered = login_at(&mut state, "ip", "w@example.org", &digest, T0, "w1".to_string());
    assert_eq!(entered.outcome, Ok(()));
}

fn w_hash(state: &AppState) -> String {
    state.users[5].password_hash.clone()
}
