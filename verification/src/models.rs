//! The domain records, each with the mathematical view that the contracts of
//! this crate are stated over, and the shapes of requests and replies.

use crate::text::{clone_all, clone_opt, each_chars, opt_chars};
use vstd::prelude::*;

verus! {

/// The rank of a user: the administrator, a deputy, or a plain member.
#[derive(Debug, Clone, Copy, PartialEq, Eq, Structural)]
pub enum UserRole {
    Admin,
    DeputyAdmin,
    Member,
}

/// Where an account stands: waiting for approval, active, or banned.
#[derive(Debug, Clone, Copy, PartialEq, Eq, Structural)]
pub enum UserStatus {
    Pending,
    Active,
    Banned,
}

impl View for UserRole {
    type V = UserRole;

    open spec fn view(&self) -> UserRole {
        *self
    }
}

/// An account. Times are Unix milliseconds.
#[derive(Debug)]
pub struct User {
    pub id: String,
    pub username: String,
    pub email: String,
    pub password_hash: String,
    pub avatar: Option<String>,
    pub display_name: Option<String>,
    pub role: UserRole,
    pub status: UserStatus,
    pub created_at: i64,
    pub last_ips: Vec<String>,
    pub muted_until: Option<i64>,
}

/// An account, as the contracts see it.
pub struct UserView {
    pub id: Seq<char>,
    pub username: Seq<char>,
    pub email: Seq<char>,
    pub password_hash: Seq<char>,
    pub avatar: Option<Seq<char>>,
    pub display_name: Option<Seq<char>>,
    pub role: UserRole,
    pub status: UserStatus,
    pub created_at: i64,
    pub last_ips: Seq<Seq<char>>,
    pub muted_until: Option<i64>,
}

impl View for User {
    type V = UserView;

    open spec fn view(&self) -> UserView {
        UserView {
            id: self.id@,
            username: self.username@,
            email: self.email@,
            password_hash: self.password_hash@,
            avatar: opt_chars(self.avatar),
            display_name: opt_chars(self.display_name),
            role: self.role,
            status: self.status,
            created_at: self.created_at,
            last_ips: each_chars(self.last_ips@),
            muted_until: self.muted_until,
        }
    }
}

impl Clone for User {
    fn clone(&self) -> (r: Self)
        ensures
            r@ == self@,
    {
        User {
            id: self.id.clone(),
            username: self.username.clone(),
            email: self.email.clone(),
            password_hash: self.password_hash.clone(),
            avatar: clone_opt(&self.avatar),
            display_name: clone_opt(&self.display_name),
            role: self.role,
            status: self.status,
            created_at: self.created_at,
            last_ips: clone_all(&self.last_ips),
            muted_until: self.muted_until,
        }
    }
}

/// What the administrator has set.
#[derive(Debug, Clone, Copy, PartialEq, Eq, Structural)]
pub struct Settings {
    pub registration_open: bool,
    pub require_approval: bool,
}

impl View for Settings {
    type V = Settings;

    open spec fn view(&self) -> Settings {
        *self
    }
}

/// The settings that anyone may see.
#[derive(Debug, Clone, Copy, PartialEq, Eq, Structural)]
pub struct PublicSettings {
    pub registration_open: bool,
    pub require_approval: bool,
}

impl View for PublicSettings {
    type V = PublicSettings;

    open spec fn view(&self) -> PublicSettings {
        *self
    }
}

/// A login: the token that stands for a user, and when it was issued.
#[derive(Debug)]
pub struct Session {
    pub token: String,
    pub user_id: String,
    pub created_at: i64,
}

/// A session, as the contracts see it.
pub struct SessionView {
    pub token: Seq<char>,
    pub user_id: Seq<char>,
    pub created_at: i64,
}

impl View for Session {
    type V = SessionView;

    open spec fn view(&self) -> SessionView {
        SessionView { token: self.token@, user_id: self.user_id@, created_at: self.created_at }
    }
}

impl Clone for Session {
    fn clone(&self) -> (r: Self)
        ensures
            r@ == self@,
    {
        Session {
            token: self.token.clone(),
            user_id: self.user_id.clone(),
            created_at: self.created_at,
        }
    }
}

/// A code that was mailed to an address and waits to be used.
#[derive(Debug)]
pub struct VerificationCode {
    pub email: String,
    pub code: String,
    pub created_at: i64,
}

/// A pending code, as the contracts see it.
pub struct VerificationCodeView {
    pub email: Seq<char>,
    pub code: Seq<char>,
    pub created_at: i64,
}

impl View for VerificationCode {
    type V = VerificationCodeView;

    open spec fn view(&self) -> VerificationCodeView {
        VerificationCodeView { email: self.email@, code: self.code@, created_at: self.created_at }
    }
}

impl Clone for VerificationCode {
    fn clone(&self) -> (r: Self)
        ensures
            r@ == self@,
    {
        VerificationCode {
            email: self.email.clone(),
            code: self.code.clone(),
            created_at: self.created_at,
        }
    }
}

/// An address that is barred until a given time.
#[derive(Debug)]
pub struct IpBlacklist {
    pub ip: String,
    pub reason: String,
    pub until: i64,
}

/// A blacklist entry, as the contracts see it.
pub struct IpBlacklistView {
    pub ip: Seq<char>,
    pub reason: Seq<char>,
    pub until: i64,
}

impl View for IpBlacklist {
    type V = IpBlacklistView;

    open spec fn view(&self) -> IpBlacklistView {
        IpBlacklistView { ip: self.ip@, reason: self.reason@, until: self.until }
    }
}

impl Clone for IpBlacklist {
    fn clone(&self) -> (r: Self)
        ensures
            r@ == self@,
    {
        IpBlacklist { ip: self.ip.clone(), reason: self.reason.clone(), until: self.until }
    }
}

/// One counted event of a rate limiter: who, and when.
pub struct AttemptView {
    pub ip: Seq<char>,
    pub timestamp: i64,
}

/// A registration that went through the rate limiter, kept for its window.
#[derive(Debug)]
pub struct RegistrationAttempt {
    pub ip: String,
    pub timestamp: i64,
}

impl View for RegistrationAttempt {
    type V = AttemptView;

    open spec fn view(&self) -> AttemptView {
        AttemptView { ip: self.ip@, timestamp: self.timestamp }
    }
}

impl Clone for RegistrationAttempt {
    fn clone(&self) -> (r: Self)
        ensures
            r@ == self@,
    {
        RegistrationAttempt { ip: self.ip.clone(), timestamp: self.timestamp }
    }
}

/// A verification code that went out, kept for its windows.
#[derive(Debug)]
pub struct VerificationCodeAttempt {
    pub ip: String,
    pub timestamp: i64,
}

impl View for VerificationCodeAttempt {
    type V = AttemptView;

    open spec fn view(&self) -> AttemptView {
        AttemptView { ip: self.ip@, timestamp: self.timestamp }
    }
}

impl Clone for VerificationCodeAttempt {
    fn clone(&self) -> (r: Self)
        ensures
            r@ == self@,
    {
        VerificationCodeAttempt { ip: self.ip.clone(), timestamp: self.timestamp }
    }
}

/// The mentions that a user has marked as seen.
#[derive(Debug)]
pub struct MentionCheck {
    pub user_id: String,
    pub checked_message_ids: Vec<String>,
    pub last_updated: i64,
}

/// A mention record, as the contracts see it.
pub struct MentionCheckView {
    pub user_id: Seq<char>,
    pub checked_message_ids: Seq<Seq<char>>,
    pub last_updated: i64,
}

impl View for MentionCheck {
    type V = MentionCheckView;

    open spec fn view(&self) -> MentionCheckView {
        MentionCheckView {
            user_id: self.user_id@,
            checked_message_ids: each_chars(self.checked_message_ids@),
            last_updated: self.last_updated,
        }
    }
}

impl Clone for MentionCheck {
    fn clone(&self) -> (r: Self)
        ensures
            r@ == self@,
    {
        MentionCheck {
            user_id: self.user_id.clone(),
            checked_message_ids: clone_all(&self.checked_message_ids),
            last_updated: self.last_updated,
        }
    }
}

/// A message of the log. A recalled message stays, flagged, with the
/// content it had kept aside.
#[derive(Debug)]
pub struct Message {
    pub id: String,
    pub user_id: String,
    pub content: String,
    pub timestamp: i64,
    pub recalled: bool,
    pub original_content: Option<String>,
}

/// A message, as the contracts see it.
pub struct MessageView {
    pub id: Seq<char>,
    pub user_id: Seq<char>,
    pub content: Seq<char>,
    pub timestamp: i64,
    pub recalled: bool,
    pub original_content: Option<Seq<char>>,
}

impl View for Message {
    type V = MessageView;

    open spec fn view(&self) -> MessageView {
        MessageView {
            id: self.id@,
            user_id: self.user_id@,
            content: self.content@,
            timestamp: self.timestamp,
            recalled: self.recalled,
            original_content: opt_chars(self.original_content),
        }
    }
}

impl Clone for Message {
    fn clone(&self) -> (r: Self)
        ensures
            r@ == self@,
    {
        Message {
            id: self.id.clone(),
            user_id: self.user_id.clone(),
            content: self.content.clone(),
            timestamp: self.timestamp,
            recalled: self.recalled,
            original_content: clone_opt(&self.original_content),
        }
    }
}

/// A message together with the record of its author, where the author is
/// still known.
#[derive(Debug)]
pub struct MessageWithUser {
    pub id: String,
    pub user_id: String,
    pub content: String,
    pub timestamp: i64,
    pub recalled: bool,
    pub user: Option<User>,
    pub original_content: Option<String>,
}

/// A message with its author, as the contracts see it.
pub struct MessageWithUserView {
    pub message: MessageView,
    pub user: Option<UserView>,
}

impl View for MessageWithUser {
    type V = MessageWithUserView;

    open spec fn view(&self) -> MessageWithUserView {
        MessageWithUserView {
            message: MessageView {
                id: self.id@,
                user_id: self.user_id@,
                content: self.content@,
                timestamp: self.timestamp,
                recalled: self.recalled,
                original_content: opt_chars(self.original_content),
            },
            user: match self.user {
                Some(u) => Some(u@),
                None => None,
            },
        }
    }
}

impl Clone for MessageWithUser {
    fn clone(&self) -> (r: Self)
        ensures
            r@ == self@,
    {
        MessageWithUser {
            id: self.id.clone(),
            user_id: self.user_id.clone(),
            content: self.content.clone(),
            timestamp: self.timestamp,
            recalled: self.recalled,
            user: match &self.user {
                Some(u) => Some(u.clone()),
                None => None,
            },
            original_content: clone_opt(&self.original_content),
        }
    }
}

impl MessageWithUser {
    /// Joins a message with the record of its author.
    pub fn new(message: &Message, user: Option<User>) -> (r: Self)
        ensures
            r@.message == message@,
            r@.user == match user {
                Some(u) => Some(u@),
                None => None,
            },
    {
        MessageWithUser {
            id: message.id.clone(),
            user_id: message.user_id.clone(),
            content: message.content.clone(),
            timestamp: message.timestamp,
            recalled: message.recalled,
            user,
            original_content: clone_opt(&message.original_content),
        }
    }
}

} // verus!
