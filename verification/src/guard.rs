//! The abuse guard: sliding-window counters per address, the address
//! blacklist, and the pending verification codes. Expired records are pruned
//! when the state is next touched; a refused request is never counted.

use crate::api::Denial;
use crate::clock::{is_within, later, seconds_between, whole_units, clamp_i64, DAY_MS, HOUR_MS, MINUTE_MS, SECOND_MS};
use crate::models::{
    AttemptView, IpBlacklist, IpBlacklistView, RegistrationAttempt, VerificationCode,
    VerificationCodeAttempt, VerificationCodeView,
};
use crate::seqs::{
    any_meets, count, distinct_by, first_index, is_first, lemma_filter_distinct,
    lemma_filter_next, lemma_first_index_none, lemma_first_index_some, views,
};
use crate::text::str_eq;
use vstd::prelude::*;

verus! {

/// Registrations allowed per address within one hour.
pub const REGISTRATIONS_PER_HOUR: usize = 3;

/// Verification codes that may be sent to one address within a minute, an
/// hour and a day.
pub const SENDS_PER_MINUTE: usize = 1;

pub const SENDS_PER_HOUR: usize = 6;

pub const SENDS_PER_DAY: usize = 12;

/// How long a verification code stays valid.
pub const CODE_LIFETIME_MS: i64 = 600_000;

/// How long an address stays blacklisted after too many registrations.
pub const BLACKLIST_SPAN_MS: i64 = 86_400_000;

/// The reason recorded with a blacklist entry made by the rate limiter.
pub open spec fn rate_ban_reason() -> Seq<char> {
    "注册频率过高"@
}

/// Attempts from `ip` less than `window` milliseconds before `now`.
pub open spec fn recent_from(ip: Seq<char>, now: i64, window: i64) -> spec_fn(AttemptView) -> bool {
    |a: AttemptView| a.ip == ip && now - a.timestamp < window
}

/// Attempts less than `window` milliseconds before `now`, from anyone.
pub open spec fn recent(now: i64, window: i64) -> spec_fn(AttemptView) -> bool {
    |a: AttemptView| now - a.timestamp < window
}

/// Blacklist entries that have not run out at `now`.
pub open spec fn in_force(now: i64) -> spec_fn(IpBlacklistView) -> bool {
    |b: IpBlacklistView| b.until > now
}

/// Blacklist entries that bar `ip` at `now`.
pub open spec fn bars(ip: Seq<char>, now: i64) -> spec_fn(IpBlacklistView) -> bool {
    |b: IpBlacklistView| b.ip == ip && b.until > now
}

/// Codes that are still valid at `now`.
pub open spec fn code_fresh(now: i64) -> spec_fn(VerificationCodeView) -> bool {
    |c: VerificationCodeView| now - c.created_at < CODE_LIFETIME_MS
}

/// The code for this email.
pub open spec fn code_for(email: Seq<char>) -> spec_fn(VerificationCodeView) -> bool {
    |c: VerificationCodeView| c.email == email
}

/// Codes for any other email.
pub open spec fn code_not_for(email: Seq<char>) -> spec_fn(VerificationCodeView) -> bool {
    |c: VerificationCodeView| c.email != email
}

/// The email of a code: the key under which it is found.
pub open spec fn code_email() -> spec_fn(VerificationCodeView) -> Seq<char> {
    |c: VerificationCodeView| c.email
}

/// Whether `ip` is barred at `now`.
pub open spec fn is_blacklisted(list: Seq<IpBlacklistView>, ip: Seq<char>, now: i64) -> bool {
    any_meets(list, bars(ip, now))
}

/// The entry that the rate limiter adds for `ip` at `now`: a day long.
pub open spec fn rate_ban(ip: Seq<char>, now: i64) -> IpBlacklistView {
    IpBlacklistView { ip, reason: rate_ban_reason(), until: clamp_i64(now + BLACKLIST_SPAN_MS) }
}

/// What the registration limiter says of one more attempt from `ip`.
pub open spec fn registration_verdict(
    list: Seq<IpBlacklistView>,
    attempts: Seq<AttemptView>,
    ip: Seq<char>,
    now: i64,
) -> Result<(), Denial> {
    if is_blacklisted(list, ip, now) {
        Err(Denial::IpBlacklisted)
    } else if count(attempts, recent_from(ip, now, HOUR_MS)) >= REGISTRATIONS_PER_HOUR {
        Err(Denial::RegistrationRateExceeded)
    } else {
        Ok(())
    }
}

/// The blacklist after the registration limiter has spoken: it grows by one
/// entry exactly when the rate was exceeded.
pub open spec fn blacklist_after_verdict(
    list: Seq<IpBlacklistView>,
    attempts: Seq<AttemptView>,
    ip: Seq<char>,
    now: i64,
) -> Seq<IpBlacklistView> {
    if registration_verdict(list, attempts, ip, now) == Err::<(), Denial>(
        Denial::RegistrationRateExceeded,
    ) {
        list.push(rate_ban(ip, now))
    } else {
        list
    }
}

/// Whether `t` is the time of the latest attempt that meets `p`.
pub open spec fn is_latest(attempts: Seq<AttemptView>, p: spec_fn(AttemptView) -> bool, t: i64) -> bool {
    &&& exists|i: int| 0 <= i < attempts.len() && p(#[trigger] attempts[i]) && attempts[i].timestamp == t
    &&& forall|i: int| 0 <= i < attempts.len() && p(#[trigger] attempts[i]) ==> attempts[i].timestamp <= t
}

/// The time of the latest attempt that meets `p`.
pub open spec fn latest(attempts: Seq<AttemptView>, p: spec_fn(AttemptView) -> bool) -> i64 {
    choose|t: i64| is_latest(attempts, p, t)
}

/// The seconds to wait after an attempt at `last` before the next may be
/// made at `now`: a minute, less the whole seconds already gone.
pub open spec fn seconds_to_wait(now: i64, last: i64) -> int {
    60 - whole_units(now - last, SECOND_MS as int)
}

/// What the send limiter says of one more verification code for `ip`. The
/// three windows are tried in order, the shortest first.
pub open spec fn send_verdict(attempts: Seq<AttemptView>, ip: Seq<char>, now: i64) -> Result<
    (),
    Denial,
> {
    if count(attempts, recent_from(ip, now, MINUTE_MS)) >= SENDS_PER_MINUTE {
        Err(
            Denial::SendTooFrequent {
                retry_after_seconds: seconds_to_wait(
                    now,
                    latest(attempts, recent_from(ip, now, MINUTE_MS)),
                ) as i64,
            },
        )
    } else if count(attempts, recent_from(ip, now, HOUR_MS)) >= SENDS_PER_HOUR {
        Err(Denial::HourlySendLimit)
    } else if count(attempts, recent_from(ip, now, DAY_MS)) >= SENDS_PER_DAY {
        Err(Denial::DailySendLimit)
    } else {
        Ok(())
    }
}

/// The pending code for `email`, if there is one.
pub open spec fn pending_code(codes: Seq<VerificationCodeView>, email: Seq<char>) -> Option<
    Seq<char>,
> {
    match first_index(codes, code_for(email)) {
        Some(i) => Some(codes[i].code),
        None => None,
    }
}

/// The codes after one was sent to `code.email`: it takes the place of any
/// earlier one for that address.
pub open spec fn with_code(codes: Seq<VerificationCodeView>, code: VerificationCodeView) -> Seq<
    VerificationCodeView,
> {
    codes.filter(code_not_for(code.email)).push(code)
}

/// The latest attempt is the one that none comes after.
pub proof fn lemma_latest_is(attempts: Seq<AttemptView>, p: spec_fn(AttemptView) -> bool, t: i64)
    requires
        is_latest(attempts, p, t),
    ensures
        latest(attempts, p) == t,
{
    let c = latest(attempts, p);
    assert(is_latest(attempts, p, c));
}

/// The wait is at least a second and fits the reply.
pub proof fn lemma_wait_fits(now: i64, last: i64)
    requires
        now - last < MINUTE_MS,
    ensures
        1 <= seconds_to_wait(now, last) <= 0x4000_0000_0000_0000,
{
    let span = now - last;
    if span >= 0 {
        assert(0 <= span / 1000 <= 59) by (nonlinear_arith)
            requires
                0 <= span < 60000,
        ;
    } else {
        assert(0 <= (-span) / 1000 <= 0x1_0000_0000_0000_0000) by (nonlinear_arith)
            requires
                0 < -span <= 0x1_0000_0000_0000_0000,
        ;
    }
}

/// Whether `ip` is barred at `now`.
pub fn check_blacklist(list: &Vec<IpBlacklist>, ip: &str, now: i64) -> (barred: bool)
    ensures
        barred == is_blacklisted(views(list@), ip@, now),
{
    let ghost s = views(list@);
    let mut i: usize = 0;
    while i < list.len()
        invariant
            0 <= i <= list.len(),
            s == views(list@),
            forall|j: int| 0 <= j < i ==> !bars(ip@, now)(#[trigger] s[j]),
        decreases list.len() - i,
    {
        if list[i].until > now && str_eq(list[i].ip.as_str(), ip) {
            assert(bars(ip@, now)(s[i as int]));
            return true;
        }
        i += 1;
    }
    false
}

/// How many registrations from `ip` fall into the `window` before `now`.
pub fn count_registrations(attempts: &Vec<RegistrationAttempt>, ip: &str, now: i64, window: i64) -> (n:
    usize)
    ensures
        n == count(views(attempts@), recent_from(ip@, now, window)),
{
    let ghost s = views(attempts@);
    let ghost p = recent_from(ip@, now, window);
    let mut n: usize = 0;
    let mut i: usize = 0;
    while i < attempts.len()
        invariant
            0 <= i <= attempts.len(),
            s == views(attempts@),
            p == recent_from(ip@, now, window),
            n == count(s.take(i as int), p),
            n <= i,
        decreases attempts.len() - i,
    {
        proof {
            lemma_filter_next(s, p, i as int);
        }
        if is_within(now, attempts[i].timestamp, window) && str_eq(attempts[i].ip.as_str(), ip) {
            assert(p(s[i as int]));
            n += 1;
        }
        i += 1;
    }
    assert(s.take(attempts.len() as int) =~= s);
    n
}

/// How many verification codes sent for `ip` fall into the `window` before
/// `now`.
pub fn count_sends(attempts: &Vec<VerificationCodeAttempt>, ip: &str, now: i64, window: i64) -> (n:
    usize)
    ensures
        n == count(views(attempts@), recent_from(ip@, now, window)),
{
    let ghost s = views(attempts@);
    let ghost p = recent_from(ip@, now, window);
    let mut n: usize = 0;
    let mut i: usize = 0;
    while i < attempts.len()
        invariant
            0 <= i <= attempts.len(),
            s == views(attempts@),
            p == recent_from(ip@, now, window),
            n == count(s.take(i as int), p),
            n <= i,
        decreases attempts.len() - i,
    {
        proof {
            lemma_filter_next(s, p, i as int);
        }
        if is_within(now, attempts[i].timestamp, window) && str_eq(attempts[i].ip.as_str(), ip) {
            assert(p(s[i as int]));
            n += 1;
        }
        i += 1;
    }
    assert(s.take(attempts.len() as int) =~= s);
    n
}

/// Asks the registration limiter about one more attempt from `ip`. Where the
/// rate is exceeded the address is blacklisted for a day. Nothing is counted
/// here: the caller records every attempt that was allowed with
/// `record_registration`.
pub fn check_registration(
    list: &mut Vec<IpBlacklist>,
    attempts: &Vec<RegistrationAttempt>,
    ip: &str,
    now: i64,
) -> (verdict: Result<(), Denial>)
    ensures
        verdict == registration_verdict(views(old(list)@), views(attempts@), ip@, now),
        views(final(list)@) == blacklist_after_verdict(
            views(old(list)@),
            views(attempts@),
            ip@,
            now,
        ),
{
    if check_blacklist(list, ip, now) {
        return Err(Denial::IpBlacklisted);
    }
    if count_registrations(attempts, ip, now, HOUR_MS) >= REGISTRATIONS_PER_HOUR {
        let entry = IpBlacklist {
            ip: ip.to_string(),
            reason: "注册频率过高".to_string(),
            until: later(now, BLACKLIST_SPAN_MS),
        };
        let ghost before = views(list@);
        list.push(entry);
        assert(views(list@) =~= before.push(rate_ban(ip@, now)));
        return Err(Denial::RegistrationRateExceeded);
    }
    Ok(())
}

/// Counts one registration from `ip` at `now`.
pub fn record_registration(attempts: &mut Vec<RegistrationAttempt>, ip: &str, now: i64)
    ensures
        views(final(attempts)@) == views(old(attempts)@).push(
            AttemptView { ip: ip@, timestamp: now },
        ),
{
    let ghost before = views(attempts@);
    attempts.push(RegistrationAttempt { ip: ip.to_string(), timestamp: now });
    assert(views(attempts@) =~= before.push(AttemptView { ip: ip@, timestamp: now }));
}

/// Asks the send limiter about one more verification code for `ip`. Nothing
/// is counted here: a send is recorded by `record_send` once the code has
/// gone out.
pub fn check_send(attempts: &Vec<VerificationCodeAttempt>, ip: &str, now: i64) -> (verdict: Result<
    (),
    Denial,
>)
    ensures
        verdict == send_verdict(views(attempts@), ip@, now),
{
    let ghost s = views(attempts@);
    let ghost p = recent_from(ip@, now, MINUTE_MS);
    let mut found = false;
    let mut last: i64 = 0;
    let mut n: usize = 0;
    let mut i: usize = 0;
    while i < attempts.len()
        invariant
            0 <= i <= attempts.len(),
            s == views(attempts@),
            p == recent_from(ip@, now, MINUTE_MS),
            n == count(s.take(i as int), p),
            n <= i,
            found == (n > 0),
            found ==> is_latest(s.take(i as int), p, last),
        decreases attempts.len() - i,
    {
        proof {
            lemma_filter_next(s, p, i as int);
        }
        let ghost prefix = s.take(i as int);
        let ghost next = s.take(i + 1);
        if is_within(now, attempts[i].timestamp, MINUTE_MS) && str_eq(attempts[i].ip.as_str(), ip) {
            assert(p(s[i as int]));
            let ghost old_last = last;
            let was_found = found;
            if !found || attempts[i].timestamp >= last {
                last = attempts[i].timestamp;
            }
            found = true;
            n += 1;
            proof {
                assert(next[i as int] == s[i as int]);
                assert forall|j: int| 0 <= j < next.len() && p(#[trigger] next[j]) implies next[j].timestamp
                    <= last by {
                    if j < i {
                        assert(next[j] == prefix[j]);
                        if !was_found {
                            crate::seqs::lemma_filter_members(prefix, p);
                            assert(prefix.contains(prefix[j]));
                            assert(prefix.filter(p).contains(prefix[j]));
                        }
                    }
                }
                if last == s[i as int].timestamp {
                    assert(p(next[i as int]) && next[i as int].timestamp == last);
                } else {
                    let w = choose|w: int|
                        0 <= w < prefix.len() && p(#[trigger] prefix[w]) && prefix[w].timestamp
                            == old_last;
                    assert(next[w] == prefix[w]);
                }
            }
        } else {
            proof {
                if found {
                    let w = choose|w: int|
                        0 <= w < prefix.len() && p(#[trigger] prefix[w]) && prefix[w].timestamp
                            == last;
                    assert(next[w] == prefix[w]);
                    assert forall|j: int| 0 <= j < next.len() && p(#[trigger] next[j]) implies next[j].timestamp
                        <= last by {
                        if j < i {
                            assert(next[j] == prefix[j]);
                        }
                    }
                }
            }
        }
        i += 1;
    }
    assert(s.take(attempts.len() as int) =~= s);
    if n >= SENDS_PER_MINUTE {
        proof {
            lemma_latest_is(s, p, last);
            let w = choose|w: int| 0 <= w < s.len() && p(#[trigger] s[w]) && s[w].timestamp == last;
            lemma_wait_fits(now, last);
        }
        let gone = seconds_between(now, last);
        return Err(Denial::SendTooFrequent { retry_after_seconds: 60 - gone });
    }
    if count_sends(attempts, ip, now, HOUR_MS) >= SENDS_PER_HOUR {
        return Err(Denial::HourlySendLimit);
    }
    if count_sends(attempts, ip, now, DAY_MS) >= SENDS_PER_DAY {
        return Err(Denial::DailySendLimit);
    }
    Ok(())
}

/// Counts one verification code sent for `ip` at `now`.
pub fn record_send(attempts: &mut Vec<VerificationCodeAttempt>, ip: &str, now: i64)
    ensures
        views(final(attempts)@) == views(old(attempts)@).push(
            AttemptView { ip: ip@, timestamp: now },
        ),
{
    let ghost before = views(attempts@);
    attempts.push(VerificationCodeAttempt { ip: ip.to_string(), timestamp: now });
    assert(views(attempts@) =~= before.push(AttemptView { ip: ip@, timestamp: now }));
}

/// Drops the blacklist entries that have run out at `now`.
pub fn prune_blacklist(list: &mut Vec<IpBlacklist>, now: i64)
    ensures
        views(final(list)@) == views(old(list)@).filter(in_force(now)),
{
    let ghost s = views(list@);
    let ghost keep = in_force(now);
    let mut kept: Vec<IpBlacklist> = Vec::new();
    let mut i: usize = 0;
    while i < list.len()
        invariant
            0 <= i <= list.len(),
            s == views(list@),
            keep == in_force(now),
            views(kept@) == s.take(i as int).filter(keep),
        decreases list.len() - i,
    {
        proof {
            lemma_filter_next(s, keep, i as int);
        }
        if list[i].until > now {
            let ghost before = views(kept@);
            kept.push(list[i].clone());
            assert(views(kept@) =~= before.push(s[i as int]));
        }
        i += 1;
    }
    assert(s.take(list.len() as int) =~= s);
    *list = kept;
}

/// Drops the registrations that lie `window` milliseconds or more before `now`.
pub fn prune_registrations(attempts: &mut Vec<RegistrationAttempt>, now: i64, window: i64)
    ensures
        views(final(attempts)@) == views(old(attempts)@).filter(recent(now, window)),
{
    let ghost s = views(attempts@);
    let ghost keep = recent(now, window);
    let mut kept: Vec<RegistrationAttempt> = Vec::new();
    let mut i: usize = 0;
    while i < attempts.len()
        invariant
            0 <= i <= attempts.len(),
            s == views(attempts@),
            keep == recent(now, window),
            views(kept@) == s.take(i as int).filter(keep),
        decreases attempts.len() - i,
    {
        proof {
            lemma_filter_next(s, keep, i as int);
        }
        if is_within(now, attempts[i].timestamp, window) {
            let ghost before = views(kept@);
            kept.push(attempts[i].clone());
            assert(views(kept@) =~= before.push(s[i as int]));
        }
        i += 1;
    }
    assert(s.take(attempts.len() as int) =~= s);
    *attempts = kept;
}

/// Drops the sends that lie `window` milliseconds or more before `now`.
pub fn prune_sends(attempts: &mut Vec<VerificationCodeAttempt>, now: i64, window: i64)
    ensures
        views(final(attempts)@) == views(old(attempts)@).filter(recent(now, window)),
{
    let ghost s = views(attempts@);
    let ghost keep = recent(now, window);
    let mut kept: Vec<VerificationCodeAttempt> = Vec::new();
    let mut i: usize = 0;
    while i < attempts.len()
        invariant
            0 <= i <= attempts.len(),
            s == views(attempts@),
            keep == recent(now, window),
            views(kept@) == s.take(i as int).filter(keep),
        decreases attempts.len() - i,
    {
        proof {
            lemma_filter_next(s, keep, i as int);
        }
        if is_within(now, attempts[i].timestamp, window) {
            let ghost before = views(kept@);
            kept.push(attempts[i].clone());
            assert(views(kept@) =~= before.push(s[i as int]));
        }
        i += 1;
    }
    assert(s.take(attempts.len() as int) =~= s);
    *attempts = kept;
}

/// Drops the verification codes that are ten minutes old or older at `now`.
pub fn prune_codes(codes: &mut Vec<VerificationCode>, now: i64)
    requires
        distinct_by(views(old(codes)@), code_email()),
    ensures
        views(final(codes)@) == views(old(codes)@).filter(code_fresh(now)),
        distinct_by(views(final(codes)@), code_email()),
{
    let ghost s = views(codes@);
    let ghost keep = code_fresh(now);
    let mut kept: Vec<VerificationCode> = Vec::new();
    let mut i: usize = 0;
    while i < codes.len()
        invariant
            0 <= i <= codes.len(),
            s == views(codes@),
            keep == code_fresh(now),
            views(kept@) == s.take(i as int).filter(keep),
        decreases codes.len() - i,
    {
        proof {
            lemma_filter_next(s, keep, i as int);
        }
        if is_within(now, codes[i].created_at, CODE_LIFETIME_MS) {
            let ghost before = views(kept@);
            kept.push(codes[i].clone());
            assert(views(kept@) =~= before.push(s[i as int]));
        }
        i += 1;
    }
    proof {
        assert(s.take(codes.len() as int) =~= s);
        lemma_filter_distinct(s, keep, code_email());
    }
    *codes = kept;
}

/// The position of the pending code for `email`.
pub fn find_code(codes: &Vec<VerificationCode>, email: &str) -> (at: Option<usize>)
    ensures
        match at {
            Some(i) => first_index(views(codes@), code_for(email@)) == Some(i as int) && is_first(views(codes@), code_for(email@), i as int),
            None => first_index(views(codes@), code_for(email@)) is None,
        },
{
    let ghost s = views(codes@);
    let mut i: usize = 0;
    while i < codes.len()
        invariant
            0 <= i <= codes.len(),
            s == views(codes@),
            forall|j: int| 0 <= j < i ==> !code_for(email@)(#[trigger] s[j]),
        decreases codes.len() - i,
    {
        if str_eq(codes[i].email.as_str(), email) {
            proof {
                assert(is_first(s, code_for(email@), i as int));
                lemma_first_index_some(s, code_for(email@), i as int);
            }
            return Some(i);
        }
        i += 1;
    }
    proof {
        lemma_first_index_none(s, code_for(email@));
    }
    None
}

/// Drops the pending code for `email`, if there is one.
pub fn discard_code(codes: &mut Vec<VerificationCode>, email: &str)
    requires
        distinct_by(views(old(codes)@), code_email()),
    ensures
        views(final(codes)@) == views(old(codes)@).filter(code_not_for(email@)),
        distinct_by(views(final(codes)@), code_email()),
{
    let ghost s = views(codes@);
    let ghost keep = code_not_for(email@);
    let mut kept: Vec<VerificationCode> = Vec::new();
    let mut i: usize = 0;
    while i < codes.len()
        invariant
            0 <= i <= codes.len(),
            s == views(codes@),
            keep == code_not_for(email@),
            views(kept@) == s.take(i as int).filter(keep),
        decreases codes.len() - i,
    {
        proof {
            lemma_filter_next(s, keep, i as int);
        }
        if !str_eq(codes[i].email.as_str(), email) {
            let ghost before = views(kept@);
            kept.push(codes[i].clone());
            assert(views(kept@) =~= before.push(s[i as int]));
        }
        i += 1;
    }
    proof {
        assert(s.take(codes.len() as int) =~= s);
        lemma_filter_distinct(s, keep, code_email());
    }
    *codes = kept;
}

/// Stores a code, in place of any earlier one for the same address.
pub fn store_code(codes: &mut Vec<VerificationCode>, code: VerificationCode)
    requires
        distinct_by(views(old(codes)@), code_email()),
    ensures
        views(final(codes)@) == with_code(views(old(codes)@), code@),
        distinct_by(views(final(codes)@), code_email()),
{
    discard_code(codes, code.email.as_str());
    let ghost rest = views(codes@);
    codes.push(code);
    proof {
        assert(views(codes@) =~= rest.push(code@));
        crate::seqs::lemma_filter_members(views(old(codes)@), code_not_for(code@.email));
        let out = views(codes@);
        assert forall|a: int, b: int| 0 <= a < b < out.len() implies code_email()(#[trigger] out[a])
            != code_email()(#[trigger] out[b]) by {
            if b < rest.len() {
                assert(out[a] == rest[a] && out[b] == rest[b]);
            } else {
                assert(out[a] == rest[a]);
                assert(code_not_for(code@.email)(rest[a]));
            }
        }
    }
}

/// Tests whether no two pending codes are for the same email.
pub fn codes_distinct(codes: &Vec<VerificationCode>) -> (ok: bool)
    ensures
        ok == distinct_by(views(codes@), code_email()),
{
    let ghost s = views(codes@);
    let mut i: usize = 0;
    while i < codes.len()
        invariant
            0 <= i <= codes.len(),
            s == views(codes@),
            forall|a: int, b: int|
                0 <= a < b < i ==> code_email()(#[trigger] s[a]) != code_email()(#[trigger] s[b]),
        decreases codes.len() - i,
    {
        let mut j: usize = 0;
        while j < i
            invariant
                0 <= j <= i < codes.len(),
                s == views(codes@),
                forall|a: int| 0 <= a < j ==> code_email()(#[trigger] s[a]) != code_email()(s[i as int]),
            decreases i - j,
        {
            if str_eq(codes[j].email.as_str(), codes[i].email.as_str()) {
                assert(code_email()(s[j as int]) == code_email()(s[i as int]));
                return false;
            }
            j += 1;
        }
        i += 1;
    }
    true
}

} // verus!
