//! The user directory: records in order of arrival, found by id, by email
//! or by name. No id occurs twice, and each record remembers at most the
//! thirty most recent addresses its owner came from.

use crate::models::{User, UserRole, UserStatus, UserView};
use crate::seqs::{
    any_meets, count, distinct_by, first_index, is_first, lemma_filter_next,
    lemma_first_index_is_first, lemma_first_index_none, lemma_first_index_some, views,
};
use crate::text::{each_chars, str_eq};
use vstd::prelude::*;

verus! {

/// How many recent addresses a user record keeps.
pub const MAX_RECENT_IPS: usize = 30;

/// Users with this id.
pub open spec fn with_id(id: Seq<char>) -> spec_fn(UserView) -> bool {
    |u: UserView| u.id == id
}

/// Users with this email.
pub open spec fn with_email(email: Seq<char>) -> spec_fn(UserView) -> bool {
    |u: UserView| u.email == email
}

/// Users with this name.
pub open spec fn with_name(name: Seq<char>) -> spec_fn(UserView) -> bool {
    |u: UserView| u.username == name
}

/// Users with this status.
pub open spec fn with_status(status: UserStatus) -> spec_fn(UserView) -> bool {
    |u: UserView| u.status == status
}

/// The active user with this id.
pub open spec fn active_with_id(id: Seq<char>) -> spec_fn(UserView) -> bool {
    |u: UserView| u.id == id && u.status == UserStatus::Active
}

/// The id of a user: the key under which the record is found.
pub open spec fn id_of() -> spec_fn(UserView) -> Seq<char> {
    |u: UserView| u.id
}

/// The administrator.
pub open spec fn is_admin() -> spec_fn(UserView) -> bool {
    |u: UserView| u.role == UserRole::Admin
}

/// How many administrators a directory holds.
pub open spec fn admins(users: Seq<UserView>) -> nat {
    count(users, is_admin())
}

/// Once anyone has registered there is exactly one administrator.
pub open spec fn one_admin(users: Seq<UserView>) -> bool {
    users.len() > 0 ==> admins(users) == 1
}

/// Beside the administrator nobody is an administrator.
pub proof fn lemma_nobody_else_is_admin(users: Seq<UserView>, a: int, i: int)
    requires
        one_admin(users),
        0 <= a < users.len(),
        0 <= i < users.len(),
        a != i,
        users[a].role == UserRole::Admin,
    ensures
        users[i].role != UserRole::Admin,
{
    if users[i].role == UserRole::Admin {
        crate::seqs::lemma_two_meet(users, is_admin(), a, i);
    }
}

/// No id occurs twice, and no record keeps more than thirty addresses.
pub open spec fn users_wf(users: Seq<UserView>) -> bool {
    &&& distinct_by(users, id_of())
    &&& forall|i: int| 0 <= i < users.len() ==> (#[trigger] users[i]).last_ips.len() <= MAX_RECENT_IPS
}

/// The recent addresses after one more visit: the oldest makes room where
/// thirty are already kept.
pub open spec fn with_ip(ips: Seq<Seq<char>>, ip: Seq<char>) -> Seq<Seq<char>> {
    if ips.len() >= MAX_RECENT_IPS {
        ips.drop_first().push(ip)
    } else {
        ips.push(ip)
    }
}

/// The position of the user with this id.
pub fn find_by_id(users: &Vec<User>, id: &str) -> (at: Option<usize>)
    ensures
        match at {
            Some(i) => first_index(views(users@), with_id(id@)) == Some(i as int) && is_first(views(users@), with_id(id@), i as int),
            None => first_index(views(users@), with_id(id@)) is None,
        },
{
    let ghost s = views(users@);
    let mut i: usize = 0;
    while i < users.len()
        invariant
            0 <= i <= users.len(),
            s == views(users@),
            forall|j: int| 0 <= j < i ==> !with_id(id@)(#[trigger] s[j]),
        decreases users.len() - i,
    {
        if str_eq(users[i].id.as_str(), id) {
            proof {
                assert(is_first(s, with_id(id@), i as int));
                lemma_first_index_some(s, with_id(id@), i as int);
            }
            return Some(i);
        }
        i += 1;
    }
    proof {
        lemma_first_index_none(s, with_id(id@));
    }
    None
}

/// The position of the first user with this email.
pub fn find_by_email(users: &Vec<User>, email: &str) -> (at: Option<usize>)
    ensures
        match at {
            Some(i) => first_index(views(users@), with_email(email@)) == Some(i as int) && is_first(views(users@), with_email(email@), i as int),
            None => first_index(views(users@), with_email(email@)) is None,
        },
{
    let ghost s = views(users@);
    let mut i: usize = 0;
    while i < users.len()
        invariant
            0 <= i <= users.len(),
            s == views(users@),
            forall|j: int| 0 <= j < i ==> !with_email(email@)(#[trigger] s[j]),
        decreases users.len() - i,
    {
        if str_eq(users[i].email.as_str(), email) {
            proof {
                assert(is_first(s, with_email(email@), i as int));
                lemma_first_index_some(s, with_email(email@), i as int);
            }
            return Some(i);
        }
        i += 1;
    }
    proof {
        lemma_first_index_none(s, with_email(email@));
    }
    None
}

/// Whether some user goes by this name.
pub fn name_taken(users: &Vec<User>, name: &str) -> (taken: bool)
    ensures
        taken == any_meets(views(users@), with_name(name@)),
{
    let ghost s = views(users@);
    let mut i: usize = 0;
    while i < users.len()
        invariant
            0 <= i <= users.len(),
            s == views(users@),
            forall|j: int| 0 <= j < i ==> !with_name(name@)(#[trigger] s[j]),
        decreases users.len() - i,
    {
        if str_eq(users[i].username.as_str(), name) {
            assert(with_name(name@)(s[i as int]));
            return true;
        }
        i += 1;
    }
    false
}

/// The users with the given status, in order of arrival.
pub fn select_by_status(users: &Vec<User>, status: UserStatus) -> (chosen: Vec<User>)
    ensures
        views(chosen@) == views(users@).filter(with_status(status)),
{
    let ghost s = views(users@);
    let ghost keep = with_status(status);
    let mut chosen: Vec<User> = Vec::new();
    let mut i: usize = 0;
    while i < users.len()
        invariant
            0 <= i <= users.len(),
            s == views(users@),
            keep == with_status(status),
            views(chosen@) == s.take(i as int).filter(keep),
        decreases users.len() - i,
    {
        proof {
            lemma_filter_next(s, keep, i as int);
        }
        if users[i].status == status {
            let ghost before = views(chosen@);
            chosen.push(users[i].clone());
            assert(views(chosen@) =~= before.push(s[i as int]));
        }
        i += 1;
    }
    assert(s.take(users.len() as int) =~= s);
    chosen
}

/// Remembers one more address in a list of recent ones.
pub fn remember_ip(ips: &mut Vec<String>, ip: &str)
    requires
        old(ips)@.len() <= MAX_RECENT_IPS,
    ensures
        each_chars(final(ips)@) == with_ip(each_chars(old(ips)@), ip@),
        final(ips)@.len() <= MAX_RECENT_IPS,
{
    let ghost before = each_chars(ips@);
    if ips.len() >= MAX_RECENT_IPS {
        let _ = ips.remove(0);
        assert(each_chars(ips@) =~= before.drop_first());
    }
    let ghost room = each_chars(ips@);
    ips.push(ip.to_string());
    assert(each_chars(ips@) =~= room.push(ip@));
}

/// Whether the user with this id exists and is active.
pub fn is_active_user(users: &Vec<User>, user_id: &str) -> (yes: bool)
    requires
        users_wf(views(users@)),
    ensures
        yes == any_meets(views(users@), active_with_id(user_id@)),
{
    let ghost s = views(users@);
    match find_by_id(users, user_id) {
        Some(i) => {
            let yes = match users[i].status {
                UserStatus::Active => true,
                _ => false,
            };
            proof {
                if yes {
                    assert(active_with_id(user_id@)(s[i as int]));
                } else {
                    assert forall|k: int| 0 <= k < s.len() implies !active_with_id(user_id@)(
                        #[trigger] s[k],
                    ) by {
                        if k < i {
                            assert(id_of()(s[k]) != id_of()(s[i as int]));
                        } else if k > i {
                            assert(id_of()(s[i as int]) != id_of()(s[k]));
                        }
                    }
                }
            }
            yes
        },
        None => {
            proof {
                lemma_first_index_is_first(s, with_id(user_id@));
                assert forall|k: int| 0 <= k < s.len() implies !active_with_id(user_id@)(
                    #[trigger] s[k],
                ) by {
                    assert(!with_id(user_id@)(s[k]));
                }
            }
            false
        },
    }
}

/// Tests whether a directory is well formed.
pub fn well_formed(users: &Vec<User>) -> (ok: bool)
    ensures
        ok == users_wf(views(users@)),
{
    let ghost s = views(users@);
    let mut i: usize = 0;
    while i < users.len()
        invariant
            0 <= i <= users.len(),
            s == views(users@),
            forall|a: int, b: int| 0 <= a < b < i ==> id_of()(#[trigger] s[a]) != id_of()(#[trigger] s[b]),
            forall|k: int| 0 <= k < i ==> (#[trigger] s[k]).last_ips.len() <= MAX_RECENT_IPS,
        decreases users.len() - i,
    {
        if users[i].last_ips.len() > MAX_RECENT_IPS {
            assert(s[i as int].last_ips.len() > MAX_RECENT_IPS);
            return false;
        }
        let mut j: usize = 0;
        while j < i
            invariant
                0 <= j <= i < users.len(),
                s == views(users@),
                forall|a: int| 0 <= a < j ==> id_of()(#[trigger] s[a]) != id_of()(s[i as int]),
            decreases i - j,
        {
            if str_eq(users[j].id.as_str(), users[i].id.as_str()) {
                assert(id_of()(s[j as int]) == id_of()(s[i as int]));
                return false;
            }
            j += 1;
        }
        i += 1;
    }
    true
}

/// How many administrators a directory holds.
pub fn count_admins(users: &Vec<User>) -> (n: usize)
    ensures
        n == admins(views(users@)),
{
    let ghost s = views(users@);
    let ghost p = is_admin();
    let mut n: usize = 0;
    let mut i: usize = 0;
    while i < users.len()
        invariant
            0 <= i <= users.len(),
            s == views(users@),
            p == is_admin(),
            n == count(s.take(i as int), p),
            n <= i,
        decreases users.len() - i,
    {
        proof {
            lemma_filter_next(s, p, i as int);
        }
        match users[i].role {
            UserRole::Admin => {
                n += 1;
            },
            _ => {},
        }
        i += 1;
    }
    assert(s.take(users.len() as int) =~= s);
    n
}

/// Tests whether a directory is empty or holds exactly one administrator.
pub fn has_one_admin(users: &Vec<User>) -> (ok: bool)
    ensures
        ok == one_admin(views(users@)),
{
    users.len() == 0 || count_admins(users) == 1
}

} // verus!
