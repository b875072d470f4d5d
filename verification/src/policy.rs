//! Who may do what to whom. One rule for every moderation action, decided
//! from the role of the one who acts, the role of the one acted upon, and
//! whether the two are the same person.

use crate::models::UserRole;
use vstd::prelude::*;

verus! {

/// What one user may want to do to another, or to the message of another.
#[derive(Debug, Clone, Copy, PartialEq, Eq, Structural)]
pub enum Action {
    RecallMessage,
    SetDeputyAdmin,
    Mute,
    Unmute,
    Ban,
    DeleteUser,
    EditDisplayName,
}

/// Whether a user of role `actor` may moderate a user of role `target`: the
/// administrator anyone who exists, a deputy plain members only, a member
/// nobody.
pub open spec fn outranks(actor: UserRole, target: Option<UserRole>) -> bool {
    match actor {
        UserRole::Admin => target is Some,
        UserRole::DeputyAdmin => target == Some(UserRole::Member),
        UserRole::Member => false,
    }
}

/// Whether `actor` may take `action` on a user (or on the message of a user)
/// with role `target`. `target` is `None` where that user no longer exists;
/// `own` says that actor and target are the same person.
pub open spec fn permitted(action: Action, actor: UserRole, target: Option<UserRole>, own: bool) -> bool {
    match action {
        Action::RecallMessage => own || match actor {
            UserRole::Admin => true,
            UserRole::DeputyAdmin => target is None || target == Some(UserRole::Member),
            UserRole::Member => false,
        },
        Action::SetDeputyAdmin => actor == UserRole::Admin && target is Some && target != Some(
            UserRole::Admin,
        ),
        Action::Mute | Action::Unmute => outranks(actor, target),
        Action::Ban => !own && outranks(actor, target),
        Action::DeleteUser => !own && actor == UserRole::Admin && target is Some,
        Action::EditDisplayName => own || match actor {
            UserRole::Admin => target == Some(UserRole::DeputyAdmin) || target == Some(
                UserRole::Member,
            ),
            UserRole::DeputyAdmin => target == Some(UserRole::Member),
            UserRole::Member => false,
        },
    }
}

fn outranks_exec(actor: UserRole, target: Option<UserRole>) -> (ok: bool)
    ensures
        ok == outranks(actor, target),
{
    match actor {
        UserRole::Admin => target.is_some(),
        UserRole::DeputyAdmin => match target {
            Some(UserRole::Member) => true,
            _ => false,
        },
        UserRole::Member => false,
    }
}

/// Decides whether `actor` may take `action`.
pub fn is_permitted(action: Action, actor: UserRole, target: Option<UserRole>, own: bool) -> (ok:
    bool)
    ensures
        ok == permitted(action, actor, target, own),
{
    match action {
        Action::RecallMessage => own || match actor {
            UserRole::Admin => true,
            UserRole::DeputyAdmin => match target {
                None => true,
                Some(UserRole::Member) => true,
                _ => false,
            },
            UserRole::Member => false,
        },
        Action::SetDeputyAdmin => match (actor, target) {
            (UserRole::Admin, Some(UserRole::DeputyAdmin)) => true,
            (UserRole::Admin, Some(UserRole::Member)) => true,
            _ => false,
        },
        Action::Mute => outranks_exec(actor, target),
        Action::Unmute => outranks_exec(actor, target),
        Action::Ban => !own && outranks_exec(actor, target),
        Action::DeleteUser => !own && match actor {
            UserRole::Admin => target.is_some(),
            _ => false,
        },
        Action::EditDisplayName => own || match (actor, target) {
            (UserRole::Admin, Some(UserRole::DeputyAdmin)) => true,
            (UserRole::Admin, Some(UserRole::Member)) => true,
            (UserRole::DeputyAdmin, Some(UserRole::Member)) => true,
            _ => false,
        },
    }
}

} // verus!
