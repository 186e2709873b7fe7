//! The background sweeps that restore the invariants that time breaks: expired
//! unverified listings are deleted, stuck verifications and lapsed leases are
//! returned to the pool.
use crate::exchange::{intents_wf, lemma_update_same_key, minutes_before, minutes_before_now, tickets_wf, compatible, Exchange};
use crate::models::ticket::{moved, released, Ticket, TicketStatus};
use vstd::prelude::*;

verus! {

/// An unverified listing whose transfer deadline has passed.
pub open spec fn is_garbage(t: Ticket, now: i64) -> bool {
    t.status == TicketStatus::Unverified && t.transfer_deadline <= now
}

/// A claim that has not moved since before `cutoff`.
pub open spec fn is_stuck(t: Ticket, cutoff: int) -> bool {
    t.status == TicketStatus::Verifying && t.updated_at < cutoff
}

/// A lease granted before `cutoff`.
pub open spec fn is_expired_lease(t: Ticket, cutoff: int) -> bool {
    t.status == TicketStatus::Reserved && (t.reserved_at matches Some(at) && at < cutoff)
}

/// The rows that the deadline sweep keeps.
pub open spec fn without_garbage(s: Seq<Ticket>, now: i64) -> Seq<Ticket> {
    s.filter(|t: Ticket| !is_garbage(t, now))
}

/// `x` is one of the first `n` rows of `s`.
pub open spec fn drawn_from(x: Ticket, s: Seq<Ticket>, n: int) -> bool {
    exists|j: int| 0 <= j < n && x == s[j]
}

/// A row after the sweep of stuck claims.
pub open spec fn unstuck(t: Ticket, now: i64, cutoff: int) -> Ticket {
    if is_stuck(t, cutoff) {
        moved(t, TicketStatus::Unverified, now)
    } else {
        t
    }
}

/// A row after the sweep of lapsed leases.
pub open spec fn unleased(t: Ticket, now: i64, cutoff: int) -> Ticket {
    if is_expired_lease(t, cutoff) {
        released(t, now)
    } else {
        t
    }
}

/// The rows after the sweep of stuck claims.
pub open spec fn after_unstick(s: Seq<Ticket>, now: i64, timeout_minutes: i64) -> Seq<Ticket> {
    Seq::new(s.len(), |i: int| unstuck(s[i], now, minutes_before(now, timeout_minutes)))
}

/// The rows after the sweep of lapsed leases.
pub open spec fn after_unlease(s: Seq<Ticket>, now: i64, window_minutes: i64) -> Seq<Ticket> {
    Seq::new(s.len(), |i: int| unleased(s[i], now, minutes_before(now, window_minutes)))
}

/// The number of stuck claims.
pub open spec fn stuck_count(s: Seq<Ticket>, cutoff: int) -> nat
    decreases s.len(),
{
    if s.len() == 0 {
        0
    } else {
        stuck_count(s.drop_last(), cutoff) + if is_stuck(s.last(), cutoff) {
            1nat
        } else {
            0nat
        }
    }
}

/// The number of lapsed leases.
pub open spec fn expired_count(s: Seq<Ticket>, cutoff: int) -> nat
    decreases s.len(),
{
    if s.len() == 0 {
        0
    } else {
        expired_count(s.drop_last(), cutoff) + if is_expired_lease(s.last(), cutoff) {
            1nat
        } else {
            0nat
        }
    }
}

/// One cycle of the three sweeps at `now`, in their order: deadlines, claims, leases.
pub open spec fn after_reaper_cycle(
    s: Seq<Ticket>,
    now: i64,
    timeout_minutes: i64,
    window_minutes: i64,
) -> Seq<Ticket> {
    after_unlease(
        after_unstick(without_garbage(s, now), now, timeout_minutes),
        now,
        window_minutes,
    )
}

/// What one cycle of the sweeps did.
#[derive(Debug, Clone, Copy, PartialEq, Eq, Structural)]
pub struct ReapReport {
    pub deleted: usize,
    pub unstuck: usize,
    pub released: usize,
}

impl Exchange {
    /// Deletes the unverified listings whose transfer deadline has passed.
    pub fn reap_expired_unverified(&mut self, now: i64) -> (r: usize)
        requires
            old(self).wf(),
        ensures
            final(self).wf(),
            final(self).intents@ == old(self).intents@,
            final(self).tickets@ == without_garbage(old(self).tickets@, now),
            r == old(self).tickets@.len() - final(self).tickets@.len(),
    {
        let ghost s = self.tickets@;
        let mut out: Vec<Ticket> = Vec::new();
        let mut i: usize = 0;
        while i < self.tickets.len()
            invariant
                s == self.tickets@,
                i <= s.len(),
                out@ == without_garbage(s.subrange(0, i as int), now),
                out@.len() <= i,
                tickets_wf(s),
                tickets_wf(out@),
                forall|k: int| 0 <= k < out@.len() ==> drawn_from(#[trigger] out@[k], s, i as int),
            decreases s.len() - i,
        {
            proof {
                reveal(Seq::filter);
                assert(s.subrange(0, i + 1).drop_last() =~= s.subrange(0, i as int));
            }
            let t = &self.tickets[i];
            if !(t.status == TicketStatus::Unverified && t.transfer_deadline <= now) {
                let c = t.clone();
                let ghost before = out@;
                out.push(c);
                proof {
                    let u = out@;
                    assert forall|a: int, b: int| 0 <= a < b < u.len() implies compatible(
                        #[trigger] u[a],
                        #[trigger] u[b],
                    ) by {
                        if b == before.len() {
                            assert(drawn_from(before[a], s, i as int));
                            let j = choose|j: int| 0 <= j < i && before[a] == s[j];
                            assert(compatible(s[j], s[i as int]));
                        } else {
                            assert(compatible(before[a], before[b]));
                        }
                    }
                    assert forall|k: int| 0 <= k < u.len() implies drawn_from(
                        #[trigger] u[k],
                        s,
                        i + 1,
                    ) by {
                        if k == before.len() {
                            assert(u[k] == s[i as int]);
                        } else {
                            assert(u[k] == before[k]);
                            assert(drawn_from(before[k], s, i as int));
                        }
                    }
                }
            }
            i = i + 1;
        }
        assert(s.subrange(0, s.len() as int) =~= s);
        let deleted = self.tickets.len() - out.len();
        self.tickets = out;
        deleted
    }

    /// Returns claims that have not moved for `timeout_minutes` to `Unverified`.
    pub fn reap_stuck_verifying(&mut self, now: i64, timeout_minutes: i64) -> (r: usize)
        requires
            old(self).wf(),
        ensures
            final(self).wf(),
            final(self).intents@ == old(self).intents@,
            final(self).tickets@ == after_unstick(old(self).tickets@, now, timeout_minutes),
            r == stuck_count(old(self).tickets@, minutes_before(now, timeout_minutes)),
    {
        let ghost s = self.tickets@;
        let ghost cut = minutes_before(now, timeout_minutes);
        let cutoff = minutes_before_now(now, timeout_minutes);
        let mut count: usize = 0;
        let mut i: usize = 0;
        while i < self.tickets.len()
            invariant
                self.tickets@.len() == s.len(),
                self.intents@ == old(self).intents@,
                intents_wf(self.intents@),
                cutoff == cut,
                i <= s.len(),
                count <= i,
                count == stuck_count(s.subrange(0, i as int), cut),
                tickets_wf(self.tickets@),
                forall|j: int| 0 <= j < i ==> self.tickets@[j] == unstuck(s[j], now, cut),
                forall|j: int| i <= j < s.len() ==> self.tickets@[j] == s[j],
            decreases s.len() - i,
        {
            proof {
                assert(s.subrange(0, i + 1).drop_last() =~= s.subrange(0, i as int));
            }
            let t = &self.tickets[i];
            if t.status == TicketStatus::Verifying && (t.updated_at as i128) < cutoff {
                let mut u = t.clone();
                u.status = TicketStatus::Unverified;
                u.updated_at = now;
                proof {
                    lemma_update_same_key(self.tickets@, i as int, u);
                }
                self.tickets.set(i, u);
                count = count + 1;
            }
            i = i + 1;
        }
        proof {
            assert(s.subrange(0, s.len() as int) =~= s);
            assert(self.tickets@ =~= after_unstick(s, now, timeout_minutes));
        }
        count
    }

    /// Returns leases older than `window_minutes` to `Verified`, clearing the lease.
    pub fn reap_expired_reservations(&mut self, now: i64, window_minutes: i64) -> (r: usize)
        requires
            old(self).wf(),
        ensures
            final(self).wf(),
            final(self).intents@ == old(self).intents@,
            final(self).tickets@ == after_unlease(old(self).tickets@, now, window_minutes),
            r == expired_count(old(self).tickets@, minutes_before(now, window_minutes)),
    {
        let ghost s = self.tickets@;
        let ghost cut = minutes_before(now, window_minutes);
        let cutoff = minutes_before_now(now, window_minutes);
        let mut count: usize = 0;
        let mut i: usize = 0;
        while i < self.tickets.len()
            invariant
                self.tickets@.len() == s.len(),
                self.intents@ == old(self).intents@,
                intents_wf(self.intents@),
                cutoff == cut,
                i <= s.len(),
                count <= i,
                count == expired_count(s.subrange(0, i as int), cut),
                tickets_wf(self.tickets@),
                forall|j: int| 0 <= j < i ==> self.tickets@[j] == unleased(s[j], now, cut),
                forall|j: int| i <= j < s.len() ==> self.tickets@[j] == s[j],
            decreases s.len() - i,
        {
            proof {
                assert(s.subrange(0, i + 1).drop_last() =~= s.subrange(0, i as int));
            }
            let t = &self.tickets[i];
            let lapsed = match t.reserved_at {
                Some(at) => (at as i128) < cutoff,
                None => false,
            };
            if t.status == TicketStatus::Reserved && lapsed {
                let mut u = t.clone();
                u.status = TicketStatus::Verified;
                u.reserved_at = None;
                u.reserved_by = None;
                u.price_at_reservation = None;
                u.updated_at = now;
                proof {
                    lemma_update_same_key(self.tickets@, i as int, u);
                }
                self.tickets.set(i, u);
                count = count + 1;
            }
            i = i + 1;
        }
        proof {
            assert(s.subrange(0, s.len() as int) =~= s);
            assert(self.tickets@ =~= after_unlease(s, now, window_minutes));
        }
        count
    }

    /// One cycle of the three sweeps at `now`: deadlines, then claims, then leases;
    /// the report counts the rows each sweep deleted or restored.
    pub fn run_reapers(&mut self, now: i64, timeout_minutes: i64, window_minutes: i64) -> (r:
        ReapReport)
        requires
            old(self).wf(),
        ensures
            final(self).wf(),
            final(self).intents@ == old(self).intents@,
            final(self).tickets@ == after_reaper_cycle(
                old(self).tickets@,
                now,
                timeout_minutes,
                window_minutes,
            ),
            r.deleted == old(self).tickets@.len() - without_garbage(old(self).tickets@, now).len(),
            r.unstuck == stuck_count(
                without_garbage(old(self).tickets@, now),
                minutes_before(now, timeout_minutes),
            ),
            r.released == expired_count(
                after_unstick(without_garbage(old(self).tickets@, now), now, timeout_minutes),
                minutes_before(now, window_minutes),
            ),
    {
        let deleted = self.reap_expired_unverified(now);
        let unstuck = self.reap_stuck_verifying(now, timeout_minutes);
        let released = self.reap_expired_reservations(now, window_minutes);
        ReapReport { deleted, unstuck, released }
    }
}

} // verus!
