//! The room itself: the message log, which only grows, the recall of
//! messages, and the record of which mentions a user has already seen.

use crate::api::{
    refused, Denial, Drawn, MarkMentionsCheckedRequest, RecallMessageRequest, Reply, ReplyView,
    SaveSet, SendMessageRequest,
};
use crate::clock::{minutes_between, whole_units, MINUTE_MS};
use crate::models::{
    MentionCheck, MentionCheckView, Message, MessageView, MessageWithUser, MessageWithUserView,
    UserView,
};
use crate::policy::{is_permitted, permitted, Action};
use crate::seqs::{
    any_meets, first_index, first_match, is_first, lemma_first_index_is_first, lemma_first_index_none,
    lemma_first_index_some, views,
};
use crate::sessions::resolve;
use crate::state::{checked_by, cleaned, opt_str, AppState, AppStateView, Step};
use crate::text::{clone_all, contains_str, each_chars, str_eq};
use crate::trusted::{now_millis, random_id};
use crate::users::with_id;
use crate::websocket::{Event, EventView};
use vstd::prelude::*;

verus! {

/// How many of the latest messages a reader is shown.
pub const RECENT_MESSAGES: usize = 100;

/// A message joined with the record of its author, where the author is
/// still a user.
pub open spec fn with_author(users: Seq<UserView>, message: MessageView) -> MessageWithUserView {
    MessageWithUserView { message, user: first_match(users, with_id(message.user_id)) }
}

/// The latest hundred messages, oldest first, each with its author.
pub open spec fn recent_messages(s: AppStateView) -> Seq<MessageWithUserView> {
    let from = if s.messages.len() > RECENT_MESSAGES {
        s.messages.len() - RECENT_MESSAGES
    } else {
        0
    };
    Seq::new(
        (s.messages.len() - from) as nat,
        |k: int| with_author(s.users, s.messages[from + k]),
    )
}

/// What a reader with a live session is shown.
pub open spec fn messages_shown(s: AppStateView, token: Option<Seq<char>>) -> Result<
    Seq<MessageWithUserView>,
    Denial,
> {
    match token {
        Some(t) => if resolve(s.sessions, t) is Some {
            Ok(recent_messages(s))
        } else {
            Err(Denial::Unauthorized)
        },
        None => Err(Denial::Unauthorized),
    }
}

impl AppState {
    /// Joins a message with the record of its author.
    pub fn join_author(&self, message: &Message) -> (joined: MessageWithUser)
        ensures
            joined@ == with_author(self@.users, message@),
    {
        let user = match self.find_user(message.user_id.as_str()) {
            Some(i) => Some(self.users[i].clone()),
            None => None,
        };
        MessageWithUser::new(message, user)
    }
}

/// Returns the latest hundred messages, oldest first, each with its author.
pub fn get_messages(state: &AppState, token: Option<&str>) -> (r: Result<
    Vec<MessageWithUser>,
    Denial,
>)
    ensures
        crate::api::ok_views(r) == messages_shown(state@, opt_str(token)),
{
    if state.session_user(token).is_none() {
        return Err(Denial::Unauthorized);
    }
    let total = state.messages.len();
    let from: usize = if total > RECENT_MESSAGES {
        total - RECENT_MESSAGES
    } else {
        0
    };
    let ghost want = recent_messages(state@);
    let mut shown: Vec<MessageWithUser> = Vec::new();
    let mut k: usize = from;
    while k < total
        invariant
            from <= k <= total,
            total == state.messages.len(),
            want == recent_messages(state@),
            want.len() == total - from,
            views(shown@) == want.take(k - from),
        decreases total - k,
    {
        let ghost before = views(shown@);
        let joined = state.join_author(&state.messages[k]);
        shown.push(joined);
        assert(views(shown@) =~= before.push(joined@));
        assert(views(shown@) =~= want.take(k + 1 - from));
        k += 1;
    }
    assert(want.take(total - from) =~= want);
    Ok(shown)
}

/// Messages with this id.
pub open spec fn with_message_id(id: Seq<char>) -> spec_fn(MessageView) -> bool {
    |m: MessageView| m.id == id
}

/// What the sending of a message makes of the registry. A muted author is
/// told how many whole minutes the mute still lasts. An id that a message of
/// the log already has is refused. Else the message is appended to the log.
pub open spec fn send_message_step(
    before: AppStateView,
    now: i64,
    token: Option<Seq<char>>,
    content: Seq<char>,
    message_id: Seq<char>,
) -> Step<EventView> {
    let s = cleaned(before, now);
    match s.actor(token) {
        None => Step { state: s, reply: refused(Denial::Unauthorized) },
        Some(a) => {
            let author = s.users[a];
            if author.muted_until is Some && author.muted_until->0 > now {
                Step {
                    state: s,
                    reply: refused(
                        Denial::Muted {
                            remaining_minutes: whole_units(
                                author.muted_until->0 - now,
                                MINUTE_MS as int,
                            ) as i64,
                        },
                    ),
                }
            } else if any_meets(s.messages, with_message_id(message_id)) {
                Step { state: s, reply: refused(Denial::IdentifierInUse) }
            } else {
                let message = MessageView {
                    id: message_id,
                    user_id: author.id,
                    content,
                    timestamp: now,
                    recalled: false,
                    original_content: None,
                };
                Step {
                    state: AppStateView { messages: s.messages.push(message), ..s },
                    reply: ReplyView {
                        outcome: Ok(
                            EventView::NewMessage(
                                MessageWithUserView { message, user: Some(author) },
                            ),
                        ),
                        save: SaveSet { messages: true, ..SaveSet::spec_nothing() },
                    },
                }
            }
        },
    }
}

/// Whether a message of the log has this id.
pub fn id_in_log(messages: &Vec<Message>, id: &str) -> (found: bool)
    ensures
        found == any_meets(views(messages@), with_message_id(id@)),
{
    let ghost s = views(messages@);
    let mut i: usize = 0;
    while i < messages.len()
        invariant
            0 <= i <= messages.len(),
            s == views(messages@),
            forall|j: int| 0 <= j < i ==> !with_message_id(id@)(#[trigger] s[j]),
        decreases messages.len() - i,
    {
        if str_eq(messages[i].id.as_str(), id) {
            assert(with_message_id(id@)(s[i as int]));
            return true;
        }
        i += 1;
    }
    false
}

/// Sends a message at the time `now`, under the message id given.
pub fn send_message_at(
    state: &mut AppState,
    token: Option<&str>,
    body: &SendMessageRequest,
    now: i64,
    message_id: String,
) -> (reply: Reply<Event>)
    requires
        old(state)@.wf(),
    ensures
        final(state)@ == send_message_step(
            old(state)@,
            now,
            opt_str(token),
            body.content@,
            message_id@,
        ).state,
        reply@ == send_message_step(
            old(state)@,
            now,
            opt_str(token),
            body.content@,
            message_id@,
        ).reply,
        final(state)@.wf(),
{
    state.expire(now);
    let a = match state.actor(token) {
        None => {
            return Reply::refuse(Denial::Unauthorized);
        },
        Some(a) => a,
    };
    match state.users[a].muted_until {
        Some(until) => {
            if until > now {
                return Reply::refuse(
                    Denial::Muted { remaining_minutes: minutes_between(until, now) },
                );
            }
        },
        None => {},
    }
    if id_in_log(&state.messages, message_id.as_str()) {
        return Reply::refuse(Denial::IdentifierInUse);
    }
    let author = state.users[a].clone();
    let message = Message {
        id: message_id,
        user_id: author.id.clone(),
        content: body.content.clone(),
        timestamp: now,
        recalled: false,
        original_content: None,
    };
    let joined = MessageWithUser::new(&message, Some(author));
    let ghost log = state@.messages;
    state.messages.push(message);
    assert(state@.messages =~= log.push(message@));
    Reply::done(Event::NewMessage(joined), SaveSet { messages: true, ..SaveSet::nothing() })
}

/// Sends a message. Reads the clock and draws the message id; the rest is
/// `send_message_at`.
pub fn send_message(state: &mut AppState, token: Option<&str>, body: &SendMessageRequest) -> (r: (
    Reply<Event>,
    Drawn,
))
    requires
        old(state)@.wf(),
    ensures
        final(state)@ == send_message_step(
            old(state)@,
            r.1.now,
            opt_str(token),
            body.content@,
            r.1.id@,
        ).state,
        r.0@ == send_message_step(
            old(state)@,
            r.1.now,
            opt_str(token),
            body.content@,
            r.1.id@,
        ).reply,
        final(state)@.wf(),
{
    let drawn = Drawn { now: now_millis(), id: random_id(), token: String::new() };
    let reply = send_message_at(state, token, body, drawn.now, drawn.id.clone());
    (reply, drawn)
}

/// Messages with this id that have not been recalled.
pub open spec fn recallable(id: Seq<char>) -> spec_fn(MessageView) -> bool {
    |m: MessageView| m.id == id && !m.recalled
}

/// A message after its recall: flagged, with the content it had kept aside.
/// Id, author, content and time stay as they were.
pub open spec fn recalled(message: MessageView) -> MessageView {
    MessageView { recalled: true, original_content: Some(message.content), ..message }
}

/// What the recall of a message makes of the registry. The message is the
/// first one with this id that has not been recalled; whether the caller
/// may recall it is for the policy to say.
pub open spec fn recall_message_step(
    before: AppStateView,
    now: i64,
    token: Option<Seq<char>>,
    message_id: Seq<char>,
) -> Step<EventView> {
    let s = cleaned(before, now);
    match s.actor(token) {
        None => Step { state: s, reply: refused(Denial::Unauthorized) },
        Some(a) => match first_index(s.messages, recallable(message_id)) {
            None => Step { state: s, reply: refused(Denial::MessageUnavailable) },
            Some(k) => {
                let author = s.messages[k].user_id;
                if permitted(
                    Action::RecallMessage,
                    s.users[a].role,
                    s.role_of(author),
                    s.users[a].id == author,
                ) {
                    Step {
                        state: AppStateView {
                            messages: s.messages.update(k, recalled(s.messages[k])),
                            ..s
                        },
                        reply: ReplyView {
                            outcome: Ok(
                                EventView::MessageRecalledWithData(
                                    with_author(s.users, recalled(s.messages[k])),
                                ),
                            ),
                            save: SaveSet { messages: true, ..SaveSet::spec_nothing() },
                        },
                    }
                } else {
                    Step { state: s, reply: refused(Denial::RecallForbidden) }
                }
            },
        },
    }
}

/// The position of the first message with this id that has not been
/// recalled.
pub fn find_recallable(messages: &Vec<Message>, id: &str) -> (at: Option<usize>)
    ensures
        match at {
            Some(i) => first_index(views(messages@), recallable(id@)) == Some(i as int)
                && is_first(views(messages@), recallable(id@), i as int),
            None => first_index(views(messages@), recallable(id@)) is None,
        },
{
    let ghost s = views(messages@);
    let mut i: usize = 0;
    while i < messages.len()
        invariant
            0 <= i <= messages.len(),
            s == views(messages@),
            forall|j: int| 0 <= j < i ==> !recallable(id@)(#[trigger] s[j]),
        decreases messages.len() - i,
    {
        if !messages[i].recalled && str_eq(messages[i].id.as_str(), id) {
            proof {
                assert(is_first(s, recallable(id@), i as int));
                lemma_first_index_some(s, recallable(id@), i as int);
            }
            return Some(i);
        }
        i += 1;
    }
    proof {
        lemma_first_index_none(s, recallable(id@));
    }
    None
}

/// Recalls a message at the time `now`.
pub fn recall_message_at(
    state: &mut AppState,
    token: Option<&str>,
    body: &RecallMessageRequest,
    now: i64,
) -> (reply: Reply<Event>)
    requires
        old(state)@.wf(),
    ensures
        final(state)@ == recall_message_step(
            old(state)@,
            now,
            opt_str(token),
            body.message_id@,
        ).state,
        reply@ == recall_message_step(old(state)@, now, opt_str(token), body.message_id@).reply,
        final(state)@.wf(),
{
    state.expire(now);
    let a = match state.actor(token) {
        None => {
            return Reply::refuse(Denial::Unauthorized);
        },
        Some(a) => a,
    };
    let k = match find_recallable(&state.messages, body.message_id.as_str()) {
        None => {
            return Reply::refuse(Denial::MessageUnavailable);
        },
        Some(k) => k,
    };
    let own = str_eq(state.users[a].id.as_str(), state.messages[k].user_id.as_str());
    let author_role = match state.find_user(state.messages[k].user_id.as_str()) {
        Some(i) => Some(state.users[i].role),
        None => None,
    };
    if !is_permitted(Action::RecallMessage, state.users[a].role, author_role, own) {
        return Reply::refuse(Denial::RecallForbidden);
    }
    let mut message = state.messages[k].clone();
    message.recalled = true;
    message.original_content = Some(message.content.clone());
    let joined = state.join_author(&message);
    let ghost log = state@.messages;
    state.messages[k] = message;
    assert(state@.messages =~= log.update(k as int, recalled(log[k as int])));
    Reply::done(
        Event::MessageRecalledWithData(joined),
        SaveSet { messages: true, ..SaveSet::nothing() },
    )
}

/// Recalls a message. Reads the clock; the rest is `recall_message_at`.
pub fn recall_message(state: &mut AppState, token: Option<&str>, body: &RecallMessageRequest) -> (r:
    (Reply<Event>, Drawn))
    requires
        old(state)@.wf(),
    ensures
        final(state)@ == recall_message_step(
            old(state)@,
            r.1.now,
            opt_str(token),
            body.message_id@,
        ).state,
        r.0@ == recall_message_step(
            old(state)@,
            r.1.now,
            opt_str(token),
            body.message_id@,
        ).reply,
        final(state)@.wf(),
{
    let drawn = Drawn::at(now_millis());
    let reply = recall_message_at(state, token, body, drawn.now);
    (reply, drawn)
}

/// The mention record of this user.
pub open spec fn checks_of(user_id: Seq<char>) -> spec_fn(MentionCheckView) -> bool {
    |c: MentionCheckView| c.user_id == user_id
}

/// The message ids that the user behind `token` has marked as seen.
pub open spec fn mentions_seen(s: AppStateView, token: Option<Seq<char>>) -> Result<
    Seq<Seq<char>>,
    Denial,
> {
    match token {
        Some(t) => match resolve(s.sessions, t) {
            Some(user_id) => match first_index(s.mention_checks, checks_of(user_id)) {
                Some(k) => Ok(s.mention_checks[k].checked_message_ids),
                None => Ok(Seq::empty()),
            },
            None => Err(Denial::Unauthorized),
        },
        None => Err(Denial::Unauthorized),
    }
}

/// The position of the record of what `user_id` has seen.
pub fn find_checks(checks: &Vec<MentionCheck>, user_id: &str) -> (at: Option<usize>)
    ensures
        match at {
            Some(i) => first_index(views(checks@), checks_of(user_id@)) == Some(i as int)
                && is_first(views(checks@), checks_of(user_id@), i as int),
            None => first_index(views(checks@), checks_of(user_id@)) is None,
        },
{
    let ghost s = views(checks@);
    let mut i: usize = 0;
    while i < checks.len()
        invariant
            0 <= i <= checks.len(),
            s == views(checks@),
            forall|j: int| 0 <= j < i ==> !checks_of(user_id@)(#[trigger] s[j]),
        decreases checks.len() - i,
    {
        if str_eq(checks[i].user_id.as_str(), user_id) {
            proof {
                assert(is_first(s, checks_of(user_id@), i as int));
                lemma_first_index_some(s, checks_of(user_id@), i as int);
            }
            return Some(i);
        }
        i += 1;
    }
    proof {
        lemma_first_index_none(s, checks_of(user_id@));
    }
    None
}

/// Returns the message ids that the caller has marked as seen.
pub fn get_mention_checks(state: &AppState, token: Option<&str>) -> (r: Result<Vec<String>, Denial>)
    ensures
        match r {
            Ok(ids) => mentions_seen(state@, opt_str(token)) == Ok::<Seq<Seq<char>>, Denial>(
                each_chars(ids@),
            ),
            Err(reason) => mentions_seen(state@, opt_str(token)) == Err::<Seq<Seq<char>>, Denial>(
                reason,
            ),
        },
{
    match state.session_user(token) {
        Some(user_id) => match find_checks(&state.mention_checks, user_id.as_str()) {
            Some(k) => Ok(clone_all(&state.mention_checks[k].checked_message_ids)),
            None => {
                let none: Vec<String> = Vec::new();
                assert(each_chars(none@) =~= Seq::<Seq<char>>::empty());
                Ok(none)
            },
        },
        None => Err(Denial::Unauthorized),
    }
}

/// `seen` with each id of `more` added that is not in it yet, in order.
pub open spec fn merged(seen: Seq<Seq<char>>, more: Seq<Seq<char>>) -> Seq<Seq<char>>
    decreases more.len(),
{
    if more.len() == 0 {
        seen
    } else if seen.contains(more[0]) {
        merged(seen, more.drop_first())
    } else {
        merged(seen.push(more[0]), more.drop_first())
    }
}

/// Adds to `seen` each id of `more` that is not in it yet.
pub fn merge_ids(seen: &mut Vec<String>, more: &Vec<String>)
    ensures
        each_chars(final(seen)@) == merged(each_chars(old(seen)@), each_chars(more@)),
{
    let ghost all = each_chars(more@);
    let ghost want = merged(each_chars(seen@), all);
    let mut i: usize = 0;
    assert(all.skip(0) =~= all);
    while i < more.len()
        invariant
            0 <= i <= more.len(),
            all == each_chars(more@),
            merged(each_chars(seen@), all.skip(i as int)) == want,
        decreases more.len() - i,
    {
        proof {
            assert(all.skip(i as int)[0] == all[i as int]);
            assert(all.skip(i as int).drop_first() =~= all.skip(i + 1));
        }
        if !contains_str(seen, more[i].as_str()) {
            let ghost had = each_chars(seen@);
            seen.push(more[i].clone());
            assert(each_chars(seen@) =~= had.push(all[i as int]));
        }
        i += 1;
    }
}

/// What marking mentions as seen makes of the registry: the caller's record
/// grows by the ids that are new to it, each once; a first record is begun
/// from nothing in the same way.
pub open spec fn mark_mentions_checked_step(
    before: AppStateView,
    now: i64,
    token: Option<Seq<char>>,
    ids: Seq<Seq<char>>,
) -> Step<()> {
    let s = cleaned(before, now);
    let user = match token {
        Some(t) => resolve(s.sessions, t),
        None => None,
    };
    match user {
        None => Step { state: s, reply: refused(Denial::Unauthorized) },
        Some(user_id) => {
            let checks = match first_index(s.mention_checks, checks_of(user_id)) {
                Some(k) => s.mention_checks.update(
                    k,
                    MentionCheckView {
                        checked_message_ids: merged(s.mention_checks[k].checked_message_ids, ids),
                        last_updated: now,
                        ..s.mention_checks[k]
                    },
                ),
                None => s.mention_checks.push(
                    MentionCheckView {
                        user_id,
                        checked_message_ids: merged(Seq::empty(), ids),
                        last_updated: now,
                    },
                ),
            };
            Step {
                state: AppStateView { mention_checks: checks, ..s },
                reply: ReplyView {
                    outcome: Ok(()),
                    save: SaveSet { mention_checks: true, ..SaveSet::spec_nothing() },
                },
            }
        },
    }
}

/// Marks mentions as seen at the time `now`.
pub fn mark_mentions_checked_at(
    state: &mut AppState,
    token: Option<&str>,
    body: &MarkMentionsCheckedRequest,
    now: i64,
) -> (reply: Reply<()>)
    requires
        old(state)@.wf(),
    ensures
        final(state)@ == mark_mentions_checked_step(
            old(state)@,
            now,
            opt_str(token),
            each_chars(body.message_ids@),
        ).state,
        reply@ == mark_mentions_checked_step(
            old(state)@,
            now,
            opt_str(token),
            each_chars(body.message_ids@),
        ).reply,
        final(state)@.wf(),
{
    state.expire(now);
    let user_id = match state.session_user(token) {
        None => {
            return Reply::refuse(Denial::Unauthorized);
        },
        Some(user_id) => user_id,
    };
    let ghost checks = state@.mention_checks;
    match find_checks(&state.mention_checks, user_id.as_str()) {
        Some(k) => {
            let mut record = state.mention_checks[k].clone();
            merge_ids(&mut record.checked_message_ids, &body.message_ids);
            record.last_updated = now;
            state.mention_checks[k] = record;
            proof {
                let out = state@.mention_checks;
                assert(out =~= checks.update(k as int, record@));
                assert forall|a: int, b: int| 0 <= a < b < out.len() implies checked_by()(
                    #[trigger] out[a],
                ) != checked_by()(#[trigger] out[b]) by {
                    assert(checked_by()(out[a]) == checked_by()(checks[a]));
                    assert(checked_by()(out[b]) == checked_by()(checks[b]));
                }
            }
        },
        None => {
            let mut seen: Vec<String> = Vec::new();
            assert(each_chars(seen@) =~= Seq::<Seq<char>>::empty());
            merge_ids(&mut seen, &body.message_ids);
            let record = MentionCheck { user_id, checked_message_ids: seen, last_updated: now };
            state.mention_checks.push(record);
            proof {
                let out = state@.mention_checks;
                assert(out =~= checks.push(record@));
                lemma_first_index_is_first(checks, checks_of(record@.user_id));
                assert forall|a: int, b: int| 0 <= a < b < out.len() implies checked_by()(
                    #[trigger] out[a],
                ) != checked_by()(#[trigger] out[b]) by {
                    if b < checks.len() {
                        assert(out[a] == checks[a] && out[b] == checks[b]);
                    } else {
                        assert(out[a] == checks[a]);
                        assert(!checks_of(record@.user_id)(checks[a]));
                    }
                }
            }
        },
    }
    Reply::done((), SaveSet { mention_checks: true, ..SaveSet::nothing() })
}

/// Marks mentions as seen. Reads the clock; the rest is
/// `mark_mentions_checked_at`.
pub fn mark_mentions_checked(
    state: &mut AppState,
    token: Option<&str>,
    body: &MarkMentionsCheckedRequest,
) -> (r: (Reply<()>, Drawn))
    requires
        old(state)@.wf(),
    ensures
        final(state)@ == mark_mentions_checked_step(
            old(state)@,
            r.1.now,
            opt_str(token),
            each_chars(body.message_ids@),
        ).state,
        r.0@ == mark_mentions_checked_step(
            old(state)@,
            r.1.now,
            opt_str(token),
            each_chars(body.message_ids@),
        ).reply,
        final(state)@.wf(),
{
    let drawn = Drawn::at(now_millis());
    let reply = mark_mentions_checked_at(state, token, body, drawn.now);
    (reply, drawn)
}

} // verus!
