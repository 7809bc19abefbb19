//! A host-side policy: an allow-list of capabilities, grants that expire,
//! and an audit log.
//!
//! Times are nanoseconds since the policy was made. The functions that take
//! a time as an argument are exact; those that read the clock say what holds
//! whatever time it is.

use vstd::prelude::*;
use vstd::string::StringExecFns;
use std::time::{Duration, Instant};
use crate::error::{spec_decimal, with_decimal};

verus! {

/// A point on the monotonic clock of `std::time`. Nothing is known of it but
/// what the functions below return.
#[verifier::external_type_specification]
#[verifier::external_body]
pub struct ExInstant(std::time::Instant);

/// `Instant::now`: the present point on the monotonic clock. Nothing is
/// claimed of it.
#[verifier::external_body]
fn clock_now() -> (now: Instant) {
    Instant::now()
}

/// `Instant::saturating_duration_since`: the time from `earlier` to `later`,
/// zero if `later` is the earlier one. Nothing is claimed of it.
#[verifier::external_body]
fn duration_between(earlier: &Instant, later: &Instant) -> (d: Duration) {
    later.saturating_duration_since(*earlier)
}

/// `Duration::as_secs`: the whole seconds of a duration. Nothing is claimed
/// of them.
#[verifier::external_body]
fn duration_secs(d: &Duration) -> (secs: u64) {
    d.as_secs()
}

/// `Duration::subsec_nanos`: the part of a duration below the second, in
/// nanoseconds. Nothing is claimed of it.
#[verifier::external_body]
fn duration_subsec_nanos(d: &Duration) -> (nanos: u32) {
    d.subsec_nanos()
}

/// The `Debug` form of a duration, as `format!` writes it. Nothing is
/// claimed of the text.
#[verifier::external_body]
fn duration_text(d: &Duration) -> (text: String) {
    format!("{:?}", d)
}

/// The largest time that a clock reading or a duration can come to: the
/// largest count of seconds and the largest part below the second that
/// their types hold.
pub const MAX_CLOCK_NANOS: u128 = 18_446_744_073_709_551_619_294_967_295;

/// The length of a duration in nanoseconds.
fn nanos_of(d: &Duration) -> (nanos: u128)
    ensures
        nanos <= MAX_CLOCK_NANOS,
{
    let secs = duration_secs(d);
    let sub = duration_subsec_nanos(d);
    secs as u128 * 1_000_000_000 + sub as u128
}

/// The time at which a grant made at `now` for the time `ttl` expires: their
/// sum, held at the largest time if it would pass it.
pub open spec fn spec_expiry(now: u128, ttl: u128) -> u128 {
    if now + ttl > u128::MAX {
        u128::MAX
    } else {
        (now + ttl) as u128
    }
}

/// The audit entry for a grant of `cap` for a duration that is shown as
/// `shown`.
pub open spec fn spec_ttl_entry(cap: u8, shown: Seq<char>) -> Seq<char> {
    "granted cap "@ + spec_decimal(cap as nat) + " with ttl "@ + shown
}

/// Allow-list, expiring grants and audit log.
pub struct Policy {
    allow_list: Vec<u8>,
    audit: Vec<String>,
    ttl_grants: Vec<(u8, u128)>,
    started: Instant,
}

impl Policy {
    /// The capabilities that are always allowed.
    pub closed spec fn allow_list(&self) -> Seq<u8> {
        self.allow_list@
    }

    /// The grants that expire: capability and time of expiry.
    pub closed spec fn grants(&self) -> Seq<(u8, u128)> {
        self.ttl_grants@
    }

    /// The audit entries, oldest first.
    pub closed spec fn audit(&self) -> Seq<Seq<char>> {
        Seq::new(self.audit@.len(), |i: int| self.audit@[i]@)
    }

    /// Whether a grant for `cap` is still running at time `now`.
    pub open spec fn spec_granted_by_ttl_at(&self, cap: u8, now: u128) -> bool {
        exists|i: int|
            0 <= i < self.grants().len() && (#[trigger] self.grants()[i]).0 == cap
                && self.grants()[i].1 > now
    }

    /// Whether `cap` is allowed at time `now`: by a running grant or by the
    /// allow-list.
    pub open spec fn spec_allows_at(&self, cap: u8, now: u128) -> bool {
        self.spec_granted_by_ttl_at(cap, now) || self.allow_list().contains(cap)
    }

    /// A policy with the given allow-list, no grant and an empty log.
    pub fn new(allow_list: Vec<u8>) -> (p: Policy)
        ensures
            p.allow_list() == allow_list@,
            p.grants() == Seq::<(u8, u128)>::empty(),
            p.audit() == Seq::<Seq<char>>::empty(),
    {
        let p = Policy {
            allow_list,
            audit: Vec::new(),
            ttl_grants: Vec::new(),
            started: clock_now(),
        };
        assert(p.audit() =~= Seq::<Seq<char>>::empty());
        p
    }

    /// Appends an entry to the audit log.
    pub fn record(&mut self, entry: String)
        ensures
            final(self).audit() == old(self).audit().push(entry@),
            final(self).allow_list() == old(self).allow_list(),
            final(self).grants() == old(self).grants(),
    {
        self.audit.push(entry);
        assert(self.audit() =~= old(self).audit().push(entry@));
    }

    /// A copy of the audit log.
    pub fn audit_log(&self) -> (log: Vec<String>)
        ensures
            log@.len() == self.audit().len(),
            forall|i: int| 0 <= i < log@.len() ==> (#[trigger] log@[i])@ == self.audit()[i],
    {
        let mut log: Vec<String> = Vec::new();
        let mut i: usize = 0;
        while i < self.audit.len()
            invariant
                i <= self.audit@.len(),
                log@.len() == i,
                forall|j: int| 0 <= j < i ==> (#[trigger] log@[j])@ == self.audit@[j]@,
            decreases self.audit@.len() - i,
        {
            log.push(self.audit[i].clone());
            i += 1;
        }
        log
    }

    /// The present time, in nanoseconds since the policy was made.
    fn now(&self) -> (now: u128)
        ensures
            now <= MAX_CLOCK_NANOS,
    {
        let present = clock_now();
        let d = duration_between(&self.started, &present);
        nanos_of(&d)
    }

    /// Grants `cap` until time `expiry`.
    pub fn grant_until(&mut self, cap: u8, expiry: u128)
        ensures
            final(self).grants() == old(self).grants().push((cap, expiry)),
            final(self).allow_list() == old(self).allow_list(),
            final(self).audit() == old(self).audit(),
    {
        self.ttl_grants.push((cap, expiry));
    }

    /// Whether `self` is `before` after a grant of `cap`, made at time `now`
    /// for the time `ttl` and recorded with the duration shown as `shown`:
    /// the grant is the last of the grants, its entry the last of the log,
    /// and nothing else has changed.
    pub open spec fn spec_after_grant(
        &self,
        before: Policy,
        cap: u8,
        now: u128,
        ttl: u128,
        shown: Seq<char>,
    ) -> bool {
        &&& self.grants() == before.grants().push((cap, spec_expiry(now, ttl)))
        &&& self.allow_list() == before.allow_list()
        &&& self.audit() == before.audit().push(spec_ttl_entry(cap, shown))
    }

    /// Grants `cap` from time `now` for the time `ttl`, and records the grant
    /// with the duration shown as `shown`.
    pub fn grant_from(&mut self, cap: u8, now: u128, ttl: u128, shown: &str)
        ensures
            final(self).spec_after_grant(*old(self), cap, now, ttl, shown@),
    {
        let expiry: u128 = if ttl > u128::MAX - now {
            u128::MAX
        } else {
            now + ttl
        };
        self.grant_until(cap, expiry);
        let mut entry = with_decimal("granted cap ", cap as usize);
        entry.append(" with ttl ");
        entry.append(shown);
        assert(entry@ =~= spec_ttl_entry(cap, shown@));
        self.record(entry);
    }

    /// Grants `cap` for the time `dur` from now and records the grant, with
    /// the duration in its `Debug` form. The expiry is the present time plus
    /// the duration; no clock reading and no duration is so large that the
    /// sum would pass the largest time.
    pub fn grant_with_ttl(&mut self, cap: u8, dur: Duration)
        ensures
            exists|now: u128, ttl: u128, shown: Seq<char>|
                now <= MAX_CLOCK_NANOS && ttl <= MAX_CLOCK_NANOS && spec_expiry(now, ttl) == now
                    + ttl && #[trigger] final(self).spec_after_grant(
                    *old(self),
                    cap,
                    now,
                    ttl,
                    shown,
                ),
    {
        let now = self.now();
        let ttl = nanos_of(&dur);
        let shown = duration_text(&dur);
        self.grant_from(cap, now, ttl, shown.as_str());
        assert(self.spec_after_grant(*old(self), cap, now, ttl, shown@));
    }

    /// Whether a grant for `cap` is still running at time `now`.
    pub fn is_granted_by_ttl_at(&self, cap: u8, now: u128) -> (res: bool)
        ensures
            res == self.spec_granted_by_ttl_at(cap, now),
    {
        let mut i: usize = 0;
        while i < self.ttl_grants.len()
            invariant
                i <= self.ttl_grants@.len(),
                forall|j: int|
                    0 <= j < i ==> !((#[trigger] self.ttl_grants@[j]).0 == cap
                        && self.ttl_grants@[j].1 > now),
            decreases self.ttl_grants@.len() - i,
        {
            let g = self.ttl_grants[i];
            if g.0 == cap && g.1 > now {
                assert(self.grants()[i as int].0 == cap && self.grants()[i as int].1 > now);
                return true;
            }
            i += 1;
        }
        false
    }

    /// Whether a grant for `cap` is running now.
    pub fn is_granted_by_ttl(&self, cap: u8) -> (res: bool)
        ensures
            exists|now: u128| res == #[trigger] self.spec_granted_by_ttl_at(cap, now),
    {
        let now = self.now();
        self.is_granted_by_ttl_at(cap, now)
    }

    /// Whether `cap` is allowed at time `now`.
    pub fn allows_at(&self, cap: u8, now: u128) -> (res: bool)
        ensures
            res == self.spec_allows_at(cap, now),
    {
        if self.is_granted_by_ttl_at(cap, now) {
            return true;
        }
        let mut i: usize = 0;
        while i < self.allow_list.len()
            invariant
                i <= self.allow_list@.len(),
                forall|j: int| 0 <= j < i ==> self.allow_list@[j] != cap,
            decreases self.allow_list@.len() - i,
        {
            if self.allow_list[i] == cap {
                return true;
            }
            i += 1;
        }
        false
    }

    /// Whether `cap` is allowed now. A capability on the allow-list is
    /// allowed at any time; one that is neither listed nor was ever granted
    /// is allowed at none.
    pub fn allows(&self, cap: u8) -> (res: bool)
        ensures
            exists|now: u128| res == #[trigger] self.spec_allows_at(cap, now),
            self.allow_list().contains(cap) ==> res,
    {
        let now = self.now();
        self.allows_at(cap, now)
    }
}

/// The window of a grant. After a grant of `cap` at time `now` for the time
/// `ttl`, `cap` is allowed at every time before the expiry; from the expiry
/// on it is allowed exactly where it was before the grant; and for every
/// other capability nothing changes at any time.
pub proof fn lemma_grant_window(
    before: Policy,
    after: Policy,
    cap: u8,
    now: u128,
    ttl: u128,
    shown: Seq<char>,
    other: u8,
    t: u128,
)
    requires
        after.spec_after_grant(before, cap, now, ttl, shown),
    ensures
        t < spec_expiry(now, ttl) ==> after.spec_allows_at(cap, t),
        t >= spec_expiry(now, ttl) ==> after.spec_allows_at(cap, t) == before.spec_allows_at(cap, t),
        other != cap ==> after.spec_allows_at(other, t) == before.spec_allows_at(other, t),
        after.audit().last() == spec_ttl_entry(cap, shown),
{
    let n = before.grants().len() as int;
    let e = spec_expiry(now, ttl);
    assert(after.grants()[n] == (cap, e));
    assert forall|c: u8| #![auto] (c != cap || t >= e) implies after.spec_granted_by_ttl_at(c, t)
        == before.spec_granted_by_ttl_at(c, t) by {
        if before.spec_granted_by_ttl_at(c, t) {
            let i = choose|i: int|
                0 <= i < before.grants().len() && (#[trigger] before.grants()[i]).0 == c
                    && before.grants()[i].1 > t;
            assert(after.grants()[i] == before.grants()[i]);
        }
        if after.spec_granted_by_ttl_at(c, t) {
            let i = choose|i: int|
                0 <= i < after.grants().len() && (#[trigger] after.grants()[i]).0 == c
                    && after.grants()[i].1 > t;
            assert(i < n);
            assert(after.grants()[i] == before.grants()[i]);
        }
    }
}

} // verus!
