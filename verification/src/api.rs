//! What callers send in and get back: the request bodies, the reasons for
//! which a request is turned down, and the reply envelope.

use vstd::prelude::*;

verus! {

#[derive(Debug)]
pub struct RegisterRequest {
    pub username: String,
    pub email: String,
    pub password: String,
    pub avatar: Option<String>,
    pub verification_code: String,
}

#[derive(Debug)]
pub struct LoginRequest {
    pub email: String,
    pub password: String,
}

#[derive(Debug)]
pub struct SendVerificationCodeRequest {
    pub email: String,
}

#[derive(Debug)]
pub struct ApproveRejectRequest {
    pub user_id: String,
}

#[derive(Debug)]
pub struct AddUserRequest {
    pub username: String,
    pub email: String,
    pub password: String,
    pub avatar: Option<String>,
}

#[derive(Debug)]
pub struct DeleteUserRequest {
    pub user_id: String,
}

#[derive(Debug)]
pub struct UpdateSettingsRequest {
    pub registration_open: bool,
    pub require_approval: bool,
}

#[derive(Debug)]
pub struct SendMessageRequest {
    pub content: String,
}

#[derive(Debug)]
pub struct RecallMessageRequest {
    pub message_id: String,
}

#[derive(Debug)]
pub struct SetDeputyAdminRequest {
    pub user_id: String,
    pub is_deputy: bool,
}

#[derive(Debug)]
pub struct MuteUserRequest {
    pub user_id: String,
    pub duration_minutes: i64,
}

#[derive(Debug)]
pub struct UnmuteUserRequest {
    pub user_id: String,
}

#[derive(Debug)]
pub struct BanUserRequest {
    pub user_id: String,
}

#[derive(Debug)]
pub struct MarkMentionsCheckedRequest {
    pub message_ids: Vec<String>,
}

#[derive(Debug)]
pub struct UpdateDisplayNameRequest {
    pub display_name: Option<String>,
}

#[derive(Debug)]
pub struct UpdateUserDisplayNameRequest {
    pub user_id: String,
    pub display_name: Option<String>,
}

/// The envelope in which every answer travels to the client.
#[derive(Debug)]
pub struct ApiResponse<T> {
    pub success: bool,
    pub message: String,
    pub data: Option<T>,
}

impl<T> ApiResponse<T> {
    /// A successful answer that carries `data`.
    pub fn success(data: T) -> (r: Self)
        ensures
            r.success,
            r.message@ == "Success"@,
            r.data == Some(data),
    {
        Self { success: true, message: "Success".to_string(), data: Some(data) }
    }

    /// A failed answer that carries `message` and no data.
    pub fn error(message: String) -> (r: Self)
        ensures
            !r.success,
            r.message == message,
            r.data is None,
    {
        Self { success: false, message, data: None }
    }
}

/// The three families that the reasons for a refusal fall into.
#[derive(Debug, Clone, Copy, PartialEq, Eq, Structural)]
pub enum ErrorKind {
    /// The request itself is unacceptable: malformed, a duplicate, a wrong code.
    Validation,
    /// The request is well formed but the caller may not make it, or not now.
    PolicyDenied,
    /// The request names something that is not there.
    NotFound,
}

/// Why a request was turned down.
#[derive(Debug, Clone, Copy, PartialEq, Eq, Structural)]
pub enum Denial {
    /// No valid session, or the session's user may not do this.
    Unauthorized,
    /// The caller's address is on the blacklist.
    IpBlacklisted,
    /// Too many registrations from this address within the hour. The address
    /// has been blacklisted for a day.
    RegistrationRateExceeded,
    RegistrationClosed,
    EmailBlacklisted,
    EmailTaken,
    UsernameTaken,
    /// No verification code is pending for this email.
    NoVerificationCode,
    WrongVerificationCode,
    /// A freshly drawn identifier or token is already in use.
    IdentifierInUse,
    BadCredentials,
    AccountPending,
    AccountBanned,
    InvalidEmail,
    /// A code was sent to this address less than a minute ago.
    SendTooFrequent { retry_after_seconds: i64 },
    HourlySendLimit,
    DailySendLimit,
    UserNotFound,
    /// The user is not waiting for approval.
    UserNotPending,
    CannotDeleteSelf,
    CannotBanSelf,
    /// The author is muted for this many more whole minutes.
    Muted { remaining_minutes: i64 },
    /// No message with this id that has not been recalled yet.
    MessageUnavailable,
    RecallForbidden,
    /// The administrator cannot delete their own account.
    AdminAccountProtected,
    DisplayNameForbidden,
}

impl View for Denial {
    type V = Denial;

    open spec fn view(&self) -> Denial {
        *self
    }
}

impl Denial {
    /// The family this reason belongs to.
    pub open spec fn spec_kind(self) -> ErrorKind {
        match self {
            Denial::EmailTaken
            | Denial::UsernameTaken
            | Denial::NoVerificationCode
            | Denial::WrongVerificationCode
            | Denial::IdentifierInUse
            | Denial::InvalidEmail
            | Denial::UserNotPending => ErrorKind::Validation,
            Denial::UserNotFound | Denial::MessageUnavailable => ErrorKind::NotFound,
            _ => ErrorKind::PolicyDenied,
        }
    }

    /// The family this reason belongs to.
    #[verifier::when_used_as_spec(spec_kind)]
    pub fn kind(self) -> (k: ErrorKind)
        ensures
            k == self.spec_kind(),
    {
        match self {
            Denial::EmailTaken
            | Denial::UsernameTaken
            | Denial::NoVerificationCode
            | Denial::WrongVerificationCode
            | Denial::IdentifierInUse
            | Denial::InvalidEmail
            | Denial::UserNotPending => ErrorKind::Validation,
            Denial::UserNotFound | Denial::MessageUnavailable => ErrorKind::NotFound,
            _ => ErrorKind::PolicyDenied,
        }
    }

    /// After how many seconds the same request may succeed, where that is known.
    pub open spec fn spec_retry_after_seconds(self) -> Option<i64> {
        match self {
            Denial::SendTooFrequent { retry_after_seconds } => Some(retry_after_seconds),
            Denial::RegistrationRateExceeded => Some(86_400i64),
            _ => None,
        }
    }

    /// After how many seconds the same request may succeed, where that is known.
    #[verifier::when_used_as_spec(spec_retry_after_seconds)]
    pub fn retry_after_seconds(self) -> (hint: Option<i64>)
        ensures
            hint == self.spec_retry_after_seconds(),
    {
        match self {
            Denial::SendTooFrequent { retry_after_seconds } => Some(retry_after_seconds),
            Denial::RegistrationRateExceeded => Some(86_400i64),
            _ => None,
        }
    }
}

/// Which collections a request has changed and the caller must now save.
#[derive(Debug, Clone, Copy, PartialEq, Eq, Structural)]
pub struct SaveSet {
    pub users: bool,
    pub messages: bool,
    pub settings: bool,
    pub sessions: bool,
    pub blacklist: bool,
    pub verification_attempts: bool,
    pub mention_checks: bool,
}

impl SaveSet {
    /// Nothing to save.
    pub open spec fn spec_nothing() -> SaveSet {
        SaveSet {
            users: false,
            messages: false,
            settings: false,
            sessions: false,
            blacklist: false,
            verification_attempts: false,
            mention_checks: false,
        }
    }

    /// Nothing to save.
    #[verifier::when_used_as_spec(spec_nothing)]
    pub fn nothing() -> (r: SaveSet)
        ensures
            r == SaveSet::spec_nothing(),
    {
        SaveSet {
            users: false,
            messages: false,
            settings: false,
            sessions: false,
            blacklist: false,
            verification_attempts: false,
            mention_checks: false,
        }
    }
}

/// The answer to a request: what came of it, and what has to be saved.
#[derive(Debug)]
pub struct Reply<T> {
    pub outcome: Result<T, Denial>,
    pub save: SaveSet,
}

/// A reply, with the view of what it carries.
pub struct ReplyView<V> {
    pub outcome: Result<V, Denial>,
    pub save: SaveSet,
}

impl<T: View> View for Reply<T> {
    type V = ReplyView<T::V>;

    open spec fn view(&self) -> ReplyView<T::V> {
        ReplyView {
            outcome: match self.outcome {
                Ok(t) => Ok(t@),
                Err(d) => Err(d),
            },
            save: self.save,
        }
    }
}

/// The outcome of a request that only reads, over views.
pub open spec fn ok_view<T: View>(r: Result<T, Denial>) -> Result<T::V, Denial> {
    match r {
        Ok(t) => Ok(t@),
        Err(d) => Err(d),
    }
}

/// The outcome of a request that reads a list, over views.
pub open spec fn ok_views<T: View>(r: Result<Vec<T>, Denial>) -> Result<Seq<T::V>, Denial> {
    match r {
        Ok(list) => Ok(crate::seqs::views(list@)),
        Err(d) => Err(d),
    }
}

/// What a request drew from outside while it was served: the reading of the
/// clock, and the random identifier and token where it needed them (empty
/// where it did not).
#[derive(Debug)]
pub struct Drawn {
    pub now: i64,
    pub id: String,
    pub token: String,
}

impl Drawn {
    /// A reading of the clock and nothing else.
    pub fn at(now: i64) -> (d: Drawn)
        ensures
            d.now == now,
            d.id@ == Seq::<char>::empty(),
            d.token@ == Seq::<char>::empty(),
    {
        Drawn { now, id: String::new(), token: String::new() }
    }
}

/// A refusal that changed nothing worth saving.
pub open spec fn refused<V>(reason: Denial) -> ReplyView<V> {
    ReplyView { outcome: Err(reason), save: SaveSet::spec_nothing() }
}

impl<T: View> Reply<T> {
    /// A refusal that changed nothing worth saving.
    pub fn refuse(reason: Denial) -> (r: Self)
        ensures
            r@ == refused::<T::V>(reason),
    {
        Reply { outcome: Err(reason), save: SaveSet::nothing() }
    }

    /// A success, with the collections to save.
    pub fn done(value: T, save: SaveSet) -> (r: Self)
        ensures
            r@ == (ReplyView { outcome: Ok(value@), save }),
    {
        Reply { outcome: Ok(value), save }
    }
}

} // verus!
