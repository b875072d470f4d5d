//! Live connections and the fan-out of events. The registry knows one
//! connection per user, the latest; a broadcast is planned here as a list of
//! deliveries, one per connection, and carried out by the caller, each
//! delivery on its own.

use crate::accounts::{DisplayNameChange, DisplayNameChangeView};
use crate::models::{Message, MessageWithUser, MessageWithUserView, UserRole};
use crate::moderation::{RoleChange, RoleChangeView};
use crate::seqs::{distinct_by, lemma_filter_distinct, lemma_filter_members, lemma_filter_next, views};
use crate::state::AppState;
use crate::text::{clone_opt, opt_chars, str_eq};
use vstd::prelude::*;
use vstd::string::*;

verus! {

/// Where a connection stands in its life.
#[derive(Debug, Clone, Copy, PartialEq, Eq, Structural)]
pub enum ConnState {
    Connecting,
    Open,
    Closed,
}

/// What happens to a connection: its session was accepted, a frame came in,
/// or the stream ended, in order or by a fault.
#[derive(Debug, Clone, Copy, PartialEq, Eq, Structural)]
pub enum WsEvent {
    Accepted,
    Text,
    Close,
    Other,
    Ended,
}

/// What the task that serves a connection does next.
#[derive(Debug, Clone, Copy, PartialEq, Eq, Structural)]
pub enum WsAction {
    /// Wait for the next frame.
    Continue,
    /// Note the text that came in, then wait for the next frame.
    Log,
    /// Stop serving the connection.
    Stop,
}

/// A registered connection: the user it belongs to, and the handle by which
/// the caller knows the channel.
#[derive(Debug)]
pub struct Connection {
    pub user_id: String,
    pub handle: u64,
}

/// A registered connection, as the contracts see it.
pub struct ConnectionView {
    pub user_id: Seq<char>,
    pub handle: u64,
}

impl View for Connection {
    type V = ConnectionView;

    open spec fn view(&self) -> ConnectionView {
        ConnectionView { user_id: self.user_id@, handle: self.handle }
    }
}

impl Clone for Connection {
    fn clone(&self) -> (r: Self)
        ensures
            r@ == self@,
    {
        Connection { user_id: self.user_id.clone(), handle: self.handle }
    }
}

/// The open connections, at most one for each user.
pub struct ConnectionRegistry {
    pub entries: Vec<Connection>,
}

impl View for ConnectionRegistry {
    type V = Seq<ConnectionView>;

    open spec fn view(&self) -> Seq<ConnectionView> {
        views(self.entries@)
    }
}

/// The user of a connection: the key under which it is found.
pub open spec fn connection_user() -> spec_fn(ConnectionView) -> Seq<char> {
    |c: ConnectionView| c.user_id
}

/// Connections of anyone else.
pub open spec fn not_of_user(user_id: Seq<char>) -> spec_fn(ConnectionView) -> bool {
    |c: ConnectionView| c.user_id != user_id
}

/// Connections with any other handle.
pub open spec fn other_handle(handle: u64) -> spec_fn(ConnectionView) -> bool {
    |c: ConnectionView| c.handle != handle
}

/// No user has two entries.
pub open spec fn registry_wf(entries: Seq<ConnectionView>) -> bool {
    distinct_by(entries, connection_user())
}

/// The registry after a connection was opened: it takes the place of any
/// earlier one of the same user.
pub open spec fn with_connection(entries: Seq<ConnectionView>, opened: ConnectionView) -> Seq<
    ConnectionView,
> {
    entries.filter(not_of_user(opened.user_id)).push(opened)
}

/// The registry without the entry of `user_id`.
pub open spec fn without_connection(entries: Seq<ConnectionView>, user_id: Seq<char>) -> Seq<
    ConnectionView,
> {
    entries.filter(not_of_user(user_id))
}

/// One step in the life of a connection of `user_id` with the given handle:
/// the registry, the state of the connection, and what its task does next.
pub open spec fn connection_step(
    entries: Seq<ConnectionView>,
    user_id: Seq<char>,
    handle: u64,
    state: ConnState,
    event: WsEvent,
) -> (Seq<ConnectionView>, ConnState, WsAction) {
    match state {
        ConnState::Connecting => match event {
            WsEvent::Accepted => (
                with_connection(entries, ConnectionView { user_id, handle }),
                ConnState::Open,
                WsAction::Continue,
            ),
            _ => (entries, ConnState::Closed, WsAction::Stop),
        },
        ConnState::Open => match event {
            WsEvent::Text => (entries, ConnState::Open, WsAction::Log),
            WsEvent::Close | WsEvent::Ended => (
                without_connection(entries, user_id),
                ConnState::Closed,
                WsAction::Stop,
            ),
            _ => (entries, ConnState::Open, WsAction::Continue),
        },
        ConnState::Closed => (entries, ConnState::Closed, WsAction::Stop),
    }
}

/// One message to one connection. Where `close_after` is set the
/// connection is closed once the message has been handed to it.
#[derive(Debug, Clone, Copy, PartialEq, Eq, Structural)]
pub struct Delivery {
    pub handle: u64,
    pub close_after: bool,
}

/// One delivery for each open connection, in the order of the registry. The
/// connection of the user named in `close`, if any, is closed afterwards.
pub open spec fn fan_out(entries: Seq<ConnectionView>, close: Option<Seq<char>>) -> Seq<Delivery> {
    Seq::new(
        entries.len(),
        |k: int|
            Delivery { handle: entries[k].handle, close_after: close == Some(entries[k].user_id) },
    )
}

/// What is announced to the room.
#[derive(Debug)]
pub enum Event {
    NewMessage(MessageWithUser),
    MessageRecalled { message_id: String },
    MessageRecalledWithData(MessageWithUser),
    RoleChanged(RoleChange),
    UserBanned { user_id: String },
    UserDeleted { user_id: String },
    DisplayNameChanged(DisplayNameChange),
}

/// An event, as the contracts see it.
pub enum EventView {
    NewMessage(MessageWithUserView),
    MessageRecalled { message_id: Seq<char> },
    MessageRecalledWithData(MessageWithUserView),
    RoleChanged(RoleChangeView),
    UserBanned { user_id: Seq<char> },
    UserDeleted { user_id: Seq<char> },
    DisplayNameChanged(DisplayNameChangeView),
}

impl View for Event {
    type V = EventView;

    open spec fn view(&self) -> EventView {
        match self {
            Event::NewMessage(m) => EventView::NewMessage(m@),
            Event::MessageRecalled { message_id } => EventView::MessageRecalled {
                message_id: message_id@,
            },
            Event::MessageRecalledWithData(m) => EventView::MessageRecalledWithData(m@),
            Event::RoleChanged(c) => EventView::RoleChanged(c@),
            Event::UserBanned { user_id } => EventView::UserBanned { user_id: user_id@ },
            Event::UserDeleted { user_id } => EventView::UserDeleted { user_id: user_id@ },
            Event::DisplayNameChanged(c) => EventView::DisplayNameChanged(c@),
        }
    }
}

/// The name under which an event travels on the wire.
pub open spec fn event_name(event: EventView) -> Seq<char> {
    match event {
        EventView::NewMessage(_) => "new_message"@,
        EventView::MessageRecalled { .. } => "message_recalled"@,
        EventView::MessageRecalledWithData(_) => "message_recalled_with_data"@,
        EventView::RoleChanged(_) => "role_changed"@,
        EventView::UserBanned { .. } => "user_banned"@,
        EventView::UserDeleted { .. } => "user_deleted"@,
        EventView::DisplayNameChanged(_) => "display_name_changed"@,
    }
}

/// The user whose connection an event closes: the one who was banned or
/// deleted.
pub open spec fn closes(event: EventView) -> Option<Seq<char>> {
    match event {
        EventView::UserBanned { user_id } => Some(user_id),
        EventView::UserDeleted { user_id } => Some(user_id),
        _ => None,
    }
}

impl Event {
    /// The name under which the event travels on the wire.
    pub fn name(&self) -> (name: &'static str)
        ensures
            name@ == event_name(self@),
    {
        match self {
            Event::NewMessage(_) => "new_message",
            Event::MessageRecalled { .. } => "message_recalled",
            Event::MessageRecalledWithData(_) => "message_recalled_with_data",
            Event::RoleChanged(_) => "role_changed",
            Event::UserBanned { .. } => "user_banned",
            Event::UserDeleted { .. } => "user_deleted",
            Event::DisplayNameChanged(_) => "display_name_changed",
        }
    }
}

/// An event, and the deliveries by which it reaches the room.
#[derive(Debug)]
pub struct Broadcast {
    pub event: Event,
    pub deliveries: Vec<Delivery>,
}

/// What a broadcast of `event` over these connections is: the event goes to
/// every open connection, and the connection of a banned or deleted user is
/// closed after it.
pub open spec fn is_broadcast(b: Broadcast, entries: Seq<ConnectionView>, event: EventView) -> bool {
    &&& b.event@ == event
    &&& b.deliveries@ == fan_out(entries, closes(event))
}

impl ConnectionRegistry {
    /// A registry without connections.
    pub fn new() -> (r: Self)
        ensures
            r@ == Seq::<ConnectionView>::empty(),
            registry_wf(r@),
    {
        let r = ConnectionRegistry { entries: Vec::new() };
        assert(r@ =~= Seq::<ConnectionView>::empty());
        r
    }

    /// Tests whether no user has two entries.
    pub fn is_well_formed(&self) -> (ok: bool)
        ensures
            ok == registry_wf(self@),
    {
        let ghost s = self@;
        let mut i: usize = 0;
        while i < self.entries.len()
            invariant
                0 <= i <= self.entries.len(),
                s == self@,
                forall|a: int, b: int|
                    0 <= a < b < i ==> connection_user()(#[trigger] s[a]) != connection_user()(
                        #[trigger] s[b],
                    ),
            decreases self.entries.len() - i,
        {
            let mut j: usize = 0;
            while j < i
                invariant
                    0 <= j <= i < self.entries.len(),
                    s == self@,
                    forall|a: int|
                        0 <= a < j ==> connection_user()(#[trigger] s[a]) != connection_user()(
                            s[i as int],
                        ),
                decreases i - j,
            {
                if str_eq(self.entries[j].user_id.as_str(), self.entries[i].user_id.as_str()) {
                    assert(connection_user()(s[j as int]) == connection_user()(s[i as int]));
                    return false;
                }
                j += 1;
            }
            i += 1;
        }
        true
    }

    /// How many connections are open.
    pub fn len(&self) -> (n: usize)
        ensures
            n == self@.len(),
    {
        self.entries.len()
    }

    /// The handle of the connection of `user_id`, if one is open.
    pub fn handle_of(&self, user_id: &str) -> (handle: Option<u64>)
        ensures
            match handle {
                Some(h) => exists|k: int|
                    0 <= k < self@.len() && (#[trigger] self@[k]).user_id == user_id@
                        && self@[k].handle == h,
                None => forall|k: int| 0 <= k < self@.len() ==> (#[trigger] self@[k]).user_id != user_id@,
            },
    {
        let mut i: usize = 0;
        while i < self.entries.len()
            invariant
                0 <= i <= self.entries.len(),
                forall|k: int| 0 <= k < i ==> (#[trigger] self@[k]).user_id != user_id@,
            decreases self.entries.len() - i,
        {
            if str_eq(self.entries[i].user_id.as_str(), user_id) {
                assert(self@[i as int].user_id == user_id@);
                return Some(self.entries[i].handle);
            }
            i += 1;
        }
        None
    }

    /// Takes the entry of `user_id` out.
    pub fn disconnect(&mut self, user_id: &str)
        requires
            registry_wf(old(self)@),
        ensures
            final(self)@ == without_connection(old(self)@, user_id@),
            registry_wf(final(self)@),
    {
        let ghost s = self@;
        let ghost keep = not_of_user(user_id@);
        let mut kept: Vec<Connection> = Vec::new();
        let mut i: usize = 0;
        while i < self.entries.len()
            invariant
                0 <= i <= self.entries.len(),
                s == self@,
                keep == not_of_user(user_id@),
                views(kept@) == s.take(i as int).filter(keep),
            decreases self.entries.len() - i,
        {
            proof {
                lemma_filter_next(s, keep, i as int);
            }
            if !str_eq(self.entries[i].user_id.as_str(), user_id) {
                let ghost before = views(kept@);
                kept.push(self.entries[i].clone());
                assert(views(kept@) =~= before.push(s[i as int]));
            }
            i += 1;
        }
        proof {
            assert(s.take(self.entries.len() as int) =~= s);
            lemma_filter_distinct(s, keep, connection_user());
        }
        self.entries = kept;
    }

    /// Enters a connection, in place of any earlier one of the same user.
    pub fn connect(&mut self, user_id: &str, handle: u64)
        requires
            registry_wf(old(self)@),
        ensures
            final(self)@ == with_connection(
                old(self)@,
                ConnectionView { user_id: user_id@, handle },
            ),
            registry_wf(final(self)@),
    {
        self.disconnect(user_id);
        let ghost rest = self@;
        let entry = Connection { user_id: user_id.to_string(), handle };
        self.entries.push(entry);
        proof {
            let out = self@;
            assert(out =~= rest.push(entry@));
            lemma_filter_members(old(self)@, not_of_user(user_id@));
            assert forall|a: int, b: int| 0 <= a < b < out.len() implies connection_user()(
                #[trigger] out[a],
            ) != connection_user()(#[trigger] out[b]) by {
                if b < rest.len() {
                    assert(out[a] == rest[a] && out[b] == rest[b]);
                } else {
                    assert(out[a] == rest[a]);
                    assert(not_of_user(user_id@)(rest[a]));
                }
            }
        }
    }

    /// Takes out the connection with this handle, after a delivery to it
    /// has failed. Nothing is sent again.
    pub fn delivery_failed(&mut self, handle: u64)
        requires
            registry_wf(old(self)@),
        ensures
            final(self)@ == old(self)@.filter(other_handle(handle)),
            registry_wf(final(self)@),
    {
        let ghost s = self@;
        let ghost keep = other_handle(handle);
        let mut kept: Vec<Connection> = Vec::new();
        let mut i: usize = 0;
        while i < self.entries.len()
            invariant
                0 <= i <= self.entries.len(),
                s == self@,
                keep == other_handle(handle),
                views(kept@) == s.take(i as int).filter(keep),
            decreases self.entries.len() - i,
        {
            proof {
                lemma_filter_next(s, keep, i as int);
            }
            if self.entries[i].handle != handle {
                let ghost before = views(kept@);
                kept.push(self.entries[i].clone());
                assert(views(kept@) =~= before.push(s[i as int]));
            }
            i += 1;
        }
        proof {
            assert(s.take(self.entries.len() as int) =~= s);
            lemma_filter_distinct(s, keep, connection_user());
        }
        self.entries = kept;
    }

    /// Plans one delivery for each open connection.
    pub fn plan(&self, close: Option<&str>) -> (deliveries: Vec<Delivery>)
        ensures
            deliveries@ == fan_out(self@, crate::state::opt_str(close)),
    {
        let ghost want = fan_out(self@, crate::state::opt_str(close));
        let mut deliveries: Vec<Delivery> = Vec::new();
        let mut i: usize = 0;
        while i < self.entries.len()
            invariant
                0 <= i <= self.entries.len(),
                want == fan_out(self@, crate::state::opt_str(close)),
                deliveries@ == want.take(i as int),
            decreases self.entries.len() - i,
        {
            let close_after = match close {
                Some(user_id) => str_eq(self.entries[i].user_id.as_str(), user_id),
                None => false,
            };
            deliveries.push(Delivery { handle: self.entries[i].handle, close_after });
            assert(deliveries@ =~= want.take(i + 1));
            i += 1;
        }
        assert(want.take(self.entries.len() as int) =~= want);
        deliveries
    }
}

/// Serves one event in the life of a connection: enters it into the registry
/// when its session was accepted, takes the user's entry out when it
/// closes or its stream ends, and says what the serving task does next.
pub fn handle_websocket(
    registry: &mut ConnectionRegistry,
    user_id: &str,
    handle: u64,
    state: ConnState,
    event: WsEvent,
) -> (next: (ConnState, WsAction))
    requires
        registry_wf(old(registry)@),
    ensures
        (final(registry)@, next.0, next.1) == connection_step(
            old(registry)@,
            user_id@,
            handle,
            state,
            event,
        ),
        registry_wf(final(registry)@),
{
    match state {
        ConnState::Connecting => match event {
            WsEvent::Accepted => {
                registry.connect(user_id, handle);
                (ConnState::Open, WsAction::Continue)
            },
            _ => (ConnState::Closed, WsAction::Stop),
        },
        ConnState::Open => match event {
            WsEvent::Text => (ConnState::Open, WsAction::Log),
            WsEvent::Close => {
                registry.disconnect(user_id);
                (ConnState::Closed, WsAction::Stop)
            },
            WsEvent::Ended => {
                registry.disconnect(user_id);
                (ConnState::Closed, WsAction::Stop)
            },
            _ => (ConnState::Open, WsAction::Continue),
        },
        ConnState::Closed => (ConnState::Closed, WsAction::Stop),
    }
}

/// Plans the broadcast of an event: it goes to every open connection, and
/// the connection of a user who was banned or deleted is closed after it.
pub fn broadcast(registry: &ConnectionRegistry, event: Event) -> (b: Broadcast)
    ensures
        is_broadcast(b, registry@, event@),
{
    let deliveries = match &event {
        Event::UserBanned { user_id } => registry.plan(Some(user_id.as_str())),
        Event::UserDeleted { user_id } => registry.plan(Some(user_id.as_str())),
        _ => registry.plan(None),
    };
    Broadcast { event, deliveries }
}

/// Announces that a message was recalled, by its id alone.
pub fn broadcast_recall(registry: &ConnectionRegistry, message_id: &str) -> (b: Broadcast)
    ensures
        is_broadcast(b, registry@, EventView::MessageRecalled { message_id: message_id@ }),
{
    Broadcast {
        event: Event::MessageRecalled { message_id: message_id.to_string() },
        deliveries: registry.plan(None),
    }
}

/// Announces that a user was banned, and closes that user's connection.
pub fn broadcast_user_banned(registry: &ConnectionRegistry, banned_user_id: &str) -> (b: Broadcast)
    ensures
        is_broadcast(b, registry@, EventView::UserBanned { user_id: banned_user_id@ }),
{
    Broadcast {
        event: Event::UserBanned { user_id: banned_user_id.to_string() },
        deliveries: registry.plan(Some(banned_user_id)),
    }
}

/// Announces that a user's role has changed.
pub fn broadcast_role_changed(
    registry: &ConnectionRegistry,
    user_id: &str,
    old_role: &UserRole,
    new_role: &UserRole,
) -> (b: Broadcast)
    ensures
        is_broadcast(
            b,
            registry@,
            EventView::RoleChanged(
                RoleChangeView { user_id: user_id@, old_role: *old_role, new_role: *new_role },
            ),
        ),
{
    Broadcast {
        event: Event::RoleChanged(
            RoleChange { user_id: user_id.to_string(), old_role: *old_role, new_role: *new_role },
        ),
        deliveries: registry.plan(None),
    }
}

/// Announces a new message, with its author.
pub fn broadcast_message_with_user(registry: &ConnectionRegistry, message: &MessageWithUser) -> (b:
    Broadcast)
    ensures
        is_broadcast(b, registry@, EventView::NewMessage(message@)),
{
    Broadcast { event: Event::NewMessage(message.clone()), deliveries: registry.plan(None) }
}

/// Announces a new message, after joining it with the record of its author.
pub fn broadcast_message(state: &AppState, registry: &ConnectionRegistry, message: &Message) -> (b:
    Broadcast)
    ensures
        is_broadcast(
            b,
            registry@,
            EventView::NewMessage(crate::chat::with_author(state@.users, message@)),
        ),
{
    let joined = state.join_author(message);
    Broadcast { event: Event::NewMessage(joined), deliveries: registry.plan(None) }
}

/// Announces that a message was recalled, with the message as it now
/// stands.
pub fn broadcast_recall_with_message(registry: &ConnectionRegistry, message: &MessageWithUser) -> (b:
    Broadcast)
    ensures
        is_broadcast(b, registry@, EventView::MessageRecalledWithData(message@)),
{
    Broadcast {
        event: Event::MessageRecalledWithData(message.clone()),
        deliveries: registry.plan(None),
    }
}

/// Announces that a user was deleted, and closes that user's connection.
pub fn broadcast_user_deleted(registry: &ConnectionRegistry, deleted_user_id: &str) -> (b: Broadcast)
    ensures
        is_broadcast(b, registry@, EventView::UserDeleted { user_id: deleted_user_id@ }),
{
    Broadcast {
        event: Event::UserDeleted { user_id: deleted_user_id.to_string() },
        deliveries: registry.plan(Some(deleted_user_id)),
    }
}

/// Announces that a user's display name has changed.
pub fn broadcast_display_name_changed(
    registry: &ConnectionRegistry,
    user_id: &str,
    old_name: &Option<String>,
    new_name: &Option<String>,
) -> (b: Broadcast)
    ensures
        is_broadcast(
            b,
            registry@,
            EventView::DisplayNameChanged(
                DisplayNameChangeView {
                    user_id: user_id@,
                    old_display_name: opt_chars(*old_name),
                    new_display_name: opt_chars(*new_name),
                },
            ),
        ),
{
    Broadcast {
        event: Event::DisplayNameChanged(
            DisplayNameChange {
                user_id: user_id.to_string(),
                old_display_name: clone_opt(old_name),
                new_display_name: clone_opt(new_name),
            },
        ),
        deliveries: registry.plan(None),
    }
}

} // verus!
