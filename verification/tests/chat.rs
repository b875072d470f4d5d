use chatroom::accounts::{record_verification_code_sent, register_at, Registered};
use chatroom::api::{
    ApiResponse, Denial, MarkMentionsCheckedRequest, MuteUserRequest, RecallMessageRequest,
    RegisterRequest, SaveSet, SendMessageRequest, SetDeputyAdminRequest,
};
use chatroom::chat::{
    get_mention_checks, get_messages, mark_mentions_checked_at, merge_ids, recall_message_at,
    send_message, send_message_at,
};
use chatroom::admin::delete_user_at;
use chatroom::api::DeleteUserRequest;
use chatroom::moderation::{mute_user_at, set_deputy_admin_at};
use chatroom::models::MessageWithUser;
use chatroom::state::AppState;
use chatroom::websocket::Event;

const T0: i64 = 1_700_000_000_000;

fn seat(state: &mut AppState, name: &str) {
    let email = format!("{}@example.org", name);
    let ip = format!("ip-{}", name);
    record_verification_code_sent(state, &ip, &email, "123456".to_string(), T0);
    let body = RegisterRequest {
        username: name.to_string(),
        email,
        password: "secret".to_string(),
        avatar: None,
        verification_code: "123456".to_string(),
    };
    let reply = register_at(
        state,
        &ip,
        &body,
        T0,
        "h".to_string(),
        format!("id-{}", name),
        format!("token-{}", name),
    );
    assert_eq!(reply.outcome, Ok(Registered::WithSession));
}

fn new_message(outcome: Result<Event, Denial>) -> Result<MessageWithUser, Denial> {
    match outcome {
        Ok(Event::NewMessage(message)) => Ok(message),
        Ok(other) => panic!("no new message: {:?}", other),
        Err(reason) => Err(reason),
    }
}

fn recalled_message(outcome: Result<Event, Denial>) -> Result<MessageWithUser, Denial> {
    match outcome {
        Ok(Event::MessageRecalledWithData(message)) => Ok(message),
        Ok(other) => panic!("no recall: {:?}", other),
        Err(reason) => Err(reason),
    }
}

/// Admin `a`, deputy `d`, members `m` and `n`.
fn hall() -> AppState {
    let mut state = AppState::new();
    for name in ["a", "d", "m", "n"] {
        seat(&mut state, name);
    }
    let body = SetDeputyAdminRequest { user_id: "id-d".to_string(), is_deputy: true };
    assert!(set_deputy_admin_at(&mut state, Some("token-a"), &body, T0).outcome.is_ok());
    state
}

fn say(state: &mut AppState, who: &str, text: &str, id: &str, now: i64) {
    let body = SendMessageRequest { content: text.to_string() };
    let token = format!("token-{}", who);
    let reply = send_message_at(state, Some(&token), &body, now, id.to_string());
    assert!(reply.outcome.is_ok());
}

fn recall(state: &mut AppState, who: &str, id: &str) -> Result<(), Denial> {
    let body = RecallMessageRequest { message_id: id.to_string() };
    let token = format!("token-{}", who);
    recalled_message(recall_message_at(state, Some(&token), &body, T0 + 100).outcome).map(|_| ())
}

#[test]
fn a_message_is_appended_and_returned_with_its_author() {
    let mut state = hall();
    let body = SendMessageRequest { content: "hello".to_string() };
    let reply = send_message_at(&mut state, Some("token-m"), &body, T0 + 5, "msg-1".to_string());
    assert_eq!(reply.save, SaveSet { messages: true, ..SaveSet::nothing() });
    let sent = new_message(reply.outcome).expect("sent");
    assert_eq!(sent.id, "msg-1");
    assert_eq!(sent.user_id, "id-m");
    assert_eq!(sent.content, "hello");
    assert_eq!(sent.timestamp, T0 + 5);
    assert!(!sent.recalled);
    assert_eq!(sent.original_content, None);
    assert_eq!(sent.user.expect("author").username, "m");
    assert_eq!(state.messages.len(), 1);
    assert_eq!(state.messages[0].id, "msg-1");
    let nobody = send_message_at(&mut state, Some("nope"), &body, T0, "msg-2".to_string());
    assert_eq!(new_message(nobody.outcome).unwrap_err(), Denial::Unauthorized);
    assert_eq!(state.messages.len(), 1);
    let same_id = send_message_at(&mut state, Some("token-n"), &body, T0 + 6, "msg-1".to_string());
    assert_eq!(same_id.save, SaveSet::nothing());
    assert_eq!(new_message(same_id.outcome).unwrap_err(), Denial::IdentifierInUse);
    assert_eq!(state.messages.len(), 1);

    let (drawn_reply, drawn) = send_message(&mut state, Some("token-n"), &body);
    let second = new_message(drawn_reply.outcome).expect("sent");
    assert_eq!(second.id, drawn.id);
    assert_eq!(second.timestamp, drawn.now);
    assert_eq!(state.messages[1].id, drawn.id);
}

#[test]
fn a_muted_author_is_told_how_long() {
    let mut state = hall();
    let mute = MuteUserRequest { user_id: "id-m".to_string(), duration_minutes: 10 };
    assert_eq!(mute_user_at(&mut state, Some("token-a"), &mute, T0).outcome, Ok(()));
    let body = SendMessageRequest { content: "hello".to_string() };
    let early = send_message_at(&mut state, Some("token-m"), &body, T0 + 30_000, "x".to_string());
    assert_eq!(new_message(early.outcome).unwrap_err(), Denial::Muted { remaining_minutes: 9 });
    let last = send_message_at(&mut state, Some("token-m"), &body, T0 + 599_999, "x".to_string());
    assert_eq!(new_message(last.outcome).unwrap_err(), Denial::Muted { remaining_minutes: 0 });
    assert!(state.messages.is_empty());
    let free = send_message_at(&mut state, Some("token-m"), &body, T0 + 600_000, "x".to_string());
    assert!(free.outcome.is_ok());
}

#[test]
fn member_recalls_only_own_messages() {
    let mut state = hall();
    say(&mut state, "m", "mine", "m1", T0);
    say(&mut state, "n", "theirs", "n1", T0);
    say(&mut state, "a", "boss", "a1", T0);
    assert_eq!(recall(&mut state, "m", "n1"), Err(Denial::RecallForbidden));
    assert_eq!(recall(&mut state, "m", "a1"), Err(Denial::RecallForbidden));
    assert!(!state.messages[1].recalled);
    assert_eq!(recall(&mut state, "m", "m1"), Ok(()));
    assert!(state.messages[0].recalled);
}

#[test]
fn deputy_recalls_members_but_not_admin() {
    let mut state = hall();
    say(&mut state, "m", "member", "m1", T0);
    say(&mut state, "a", "boss", "a1", T0);
    say(&mut state, "d", "deputy", "d1", T0);
    assert_eq!(recall(&mut state, "d", "a1"), Err(Denial::RecallForbidden));
    assert_eq!(recall(&mut state, "d", "m1"), Ok(()));
    assert_eq!(recall(&mut state, "d", "d1"), Ok(()));
    assert!(!state.messages[1].recalled);
}

#[test]
fn deputy_does_not_recall_another_deputy() {
    let mut state = hall();
    let body = SetDeputyAdminRequest { user_id: "id-n".to_string(), is_deputy: true };
    assert!(set_deputy_admin_at(&mut state, Some("token-a"), &body, T0).outcome.is_ok());
    say(&mut state, "n", "second deputy", "n1", T0);
    assert_eq!(recall(&mut state, "d", "n1"), Err(Denial::RecallForbidden));
    assert_eq!(recall(&mut state, "a", "n1"), Ok(()));
}

#[test]
fn admin_recalls_any_message() {
    let mut state = hall();
    say(&mut state, "m", "member", "m1", T0);
    say(&mut state, "d", "deputy", "d1", T0);
    say(&mut state, "a", "boss", "a1", T0);
    assert_eq!(recall(&mut state, "a", "m1"), Ok(()));
    assert_eq!(recall(&mut state, "a", "d1"), Ok(()));
    assert_eq!(recall(&mut state, "a", "a1"), Ok(()));
    assert!(state.messages.iter().all(|m| m.recalled));
}

#[test]
fn recall_keeps_the_record_and_happens_once() {
    let mut state = hall();
    say(&mut state, "m", "first", "m1", T0 + 1);
    say(&mut state, "m", "second", "m2", T0 + 2);
    let body = RecallMessageRequest { message_id: "m1".to_string() };
    let reply = recall_message_at(&mut state, Some("token-m"), &body, T0 + 9);
    assert_eq!(reply.save, SaveSet { messages: true, ..SaveSet::nothing() });
    let shown = recalled_message(reply.outcome).expect("recalled");
    assert_eq!(shown.id, "m1");
    assert_eq!(shown.user_id, "id-m");
    assert!(shown.recalled);
    assert_eq!(shown.content, "first");
    assert_eq!(shown.original_content, Some("first".to_string()));
    assert_eq!(shown.user.expect("author").id, "id-m");
    assert_eq!(state.messages.len(), 2);
    let kept = &state.messages[0];
    assert_eq!(kept.id, "m1");
    assert_eq!(kept.user_id, "id-m");
    assert_eq!(kept.timestamp, T0 + 1);
    assert!(kept.recalled);
    assert_eq!(kept.original_content, Some("first".to_string()));
    assert!(!state.messages[1].recalled);
    assert_eq!(state.messages[1].original_content, None);

    let twice = recall_message_at(&mut state, Some("token-m"), &body, T0 + 10);
    assert_eq!(twice.save, SaveSet::nothing());
    assert_eq!(recalled_message(twice.outcome).unwrap_err(), Denial::MessageUnavailable);
    let by_admin = recall_message_at(&mut state, Some("token-a"), &body, T0 + 11);
    assert_eq!(recalled_message(by_admin.outcome).unwrap_err(), Denial::MessageUnavailable);
    let unknown = RecallMessageRequest { message_id: "none".to_string() };
    let missing = recall_message_at(&mut state, Some("token-a"), &unknown, T0 + 12);
    assert_eq!(recalled_message(missing.outcome).unwrap_err(), Denial::MessageUnavailable);
    let nobody = recall_message_at(&mut state, None, &body, T0 + 13);
    assert_eq!(recalled_message(nobody.outcome).unwrap_err(), Denial::Unauthorized);
}

#[test]
fn deputy_recalls_the_message_of_a_deleted_user() {
    let mut state = hall();
    say(&mut state, "n", "bye", "n1", T0);
    let gone = DeleteUserRequest { user_id: "id-n".to_string() };
    assert!(delete_user_at(&mut state, Some("token-a"), &gone, T0).outcome.is_ok());
    assert_eq!(recall(&mut state, "m", "n1"), Err(Denial::RecallForbidden));
    let body = RecallMessageRequest { message_id: "n1".to_string() };
    let shown =
        recalled_message(recall_message_at(&mut state, Some("token-d"), &body, T0).outcome).expect("ok");
    assert!(shown.user.is_none());
    assert_eq!(shown.user_id, "id-n");
}

#[test]
fn readers_see_the_latest_hundred_messages() {
    let mut state = hall();
    for k in 0..103 {
        say(&mut state, "m", &format!("text {}", k), &format!("msg-{}", k), T0 + k);
    }
    let shown = get_messages(&state, Some("token-n")).expect("list");
    assert_eq!(shown.len(), 100);
    assert_eq!(shown[0].id, "msg-3");
    assert_eq!(shown[99].id, "msg-102");
    assert_eq!(shown[0].user.as_ref().expect("author").id, "id-m");
    assert_eq!(get_messages(&state, Some("nope")).unwrap_err(), Denial::Unauthorized);
    assert_eq!(get_messages(&state, None).unwrap_err(), Denial::Unauthorized);
    let mut small = hall();
    say(&mut small, "a", "only", "one", T0);
    assert_eq!(get_messages(&small, Some("token-a")).expect("list").len(), 1);
}

#[test]
fn seen_mentions_are_kept_without_repeats() {
    let mut state = hall();
    assert_eq!(get_mention_checks(&state, Some("token-m")), Ok(vec![]));
    assert_eq!(get_mention_checks(&state, None), Err(Denial::Unauthorized));
    let first = MarkMentionsCheckedRequest {
        message_ids: vec!["x".to_string(), "y".to_string(), "x".to_string(), "y".to_string()],
    };
    let reply = mark_mentions_checked_at(&mut state, Some("token-m"), &first, T0 + 1);
    assert_eq!(reply.outcome, Ok(()));
    assert_eq!(reply.save, SaveSet { mention_checks: true, ..SaveSet::nothing() });
    assert_eq!(
        get_mention_checks(&state, Some("token-m")),
        Ok(vec!["x".to_string(), "y".to_string()])
    );
    let more = MarkMentionsCheckedRequest {
        message_ids: vec!["y".to_string(), "z".to_string(), "z".to_string(), "x".to_string()],
    };
    assert_eq!(mark_mentions_checked_at(&mut state, Some("token-m"), &more, T0 + 2).outcome, Ok(()));
    assert_eq!(
        get_mention_checks(&state, Some("token-m")),
        Ok(vec!["x".to_string(), "y".to_string(), "z".to_string()])
    );
    assert_eq!(state.mention_checks.len(), 1);
    assert_eq!(state.mention_checks[0].user_id, "id-m");
    assert_eq!(state.mention_checks[0].last_updated, T0 + 2);
    assert_eq!(get_mention_checks(&state, Some("token-n")), Ok(vec![]));
    let nobody = mark_mentions_checked_at(&mut state, Some("nope"), &first, T0 + 3);
    assert_eq!(nobody.outcome, Err(Denial::Unauthorized));

    let mut seen = vec!["a".to_string()];
    merge_ids(&mut seen, &vec!["b".to_string(), "a".to_string(), "b".to_string()]);
    assert_eq!(seen, vec!["a".to_string(), "b".to_string()]);
}

#[test]
fn envelope_for_success_and_error() {
    let ok = ApiResponse::success(7);
    assert!(ok.success);
    assert_eq!(ok.message, "Success");
    assert_eq!(ok.data, Some(7));
    let err: ApiResponse<i32> = ApiResponse::error("no".to_string());
    assert!(!err.success);
    assert_eq!(err.message, "no");
    assert_eq!(err.data, None);
}
