//! Properties of the lifecycle that hold for every history of operations. Each
//! public mutating method of `Exchange` keeps `Exchange::wf`, and `Exchange::new`
//! establishes it, so what is proved here of well-formed rows holds of every state
//! the store can reach.
use crate::exchange::{
    after_cancel, after_claim, after_create, after_reprice, after_reserve, after_unclaim,
    after_verify, claim_winner, compatible, has_ticket, index_of, is_claim_winner,
    lemma_claim_winner_unique, lemma_index_of, Actor, active_leases, holds_fresh_lease, lemma_update_same_key, minutes_before, tickets_wf,
};
use crate::gatekeeper::{after_webhook, event_action, has_intent, EventAction, WebhookOutcome};
use crate::models::game::Game;
use crate::models::payment_intent::{PaymentIntent, StripeWebhookEvent};
use crate::models::ticket::{
    is_live, leased, moved, seat_of, ClaimTicketRequest, CreateTicketRequest, Ticket, TicketStatus,
};
use crate::reaper::{
    after_reaper_cycle, after_unlease, after_unstick, is_expired_lease, is_garbage, is_stuck,
    unleased, unstuck, without_garbage,
};
use vstd::prelude::*;

verus! {

/// A status in which the seat has been paid for.
pub open spec fn is_sold_or_paid(s: TicketStatus) -> bool {
    s == TicketStatus::Paid || s == TicketStatus::Sold
}

/// No double sale: of two distinct rows for one seat, at most one is paid or sold.
pub proof fn lemma_no_double_sell(s: Seq<Ticket>, i: int, j: int)
    requires
        tickets_wf(s),
        0 <= i < s.len(),
        0 <= j < s.len(),
        i != j,
        seat_of(s[i]) == seat_of(s[j]),
    ensures
        !(is_sold_or_paid(s[i].status) && is_sold_or_paid(s[j].status)),
{
    if i < j {
        assert(compatible(s[i], s[j]));
    } else {
        assert(compatible(s[j], s[i]));
    }
}

/// Lease exclusivity: at any instant, one ticket id has at most one fresh `Reserved` row.
pub proof fn lemma_lease_exclusive(s: Seq<Ticket>, now: i64, window_minutes: i64, i: int, j: int)
    requires
        tickets_wf(s),
        0 <= i < s.len(),
        0 <= j < s.len(),
        s[i].id == s[j].id,
        s[i].status == TicketStatus::Reserved,
        s[j].status == TicketStatus::Reserved,
        s[i].reserved_at matches Some(at) && at > minutes_before(now, window_minutes),
        s[j].reserved_at matches Some(at) && at > minutes_before(now, window_minutes),
    ensures
        i == j,
{
    if i < j {
        assert(compatible(s[i], s[j]));
    } else if j < i {
        assert(compatible(s[j], s[i]));
    }
}

/// Between `a` and `b`, every ticket that is `Reserved` in both kept its price snapshot.
pub open spec fn snapshots_kept(a: Seq<Ticket>, b: Seq<Ticket>) -> bool {
    forall|i: int, j: int|
        0 <= i < a.len() && 0 <= j < b.len() && (#[trigger] a[i]).id == (#[trigger] b[j]).id
            && a[i].status == TicketStatus::Reserved && b[j].status == TicketStatus::Reserved
            ==> a[i].price_at_reservation == b[j].price_at_reservation
}

/// As `snapshots_kept`, for the tickets whose lease in `a` was granted after `cutoff`.
pub open spec fn fresh_snapshots_kept(a: Seq<Ticket>, b: Seq<Ticket>, cutoff: int) -> bool {
    forall|i: int, j: int|
        0 <= i < a.len() && 0 <= j < b.len() && (#[trigger] a[i]).id == (#[trigger] b[j]).id
            && a[i].status == TicketStatus::Reserved && b[j].status == TicketStatus::Reserved && (
        a[i].reserved_at matches Some(at) && at > cutoff) ==> a[i].price_at_reservation
            == b[j].price_at_reservation
}

proof fn lemma_update_snapshots(s: Seq<Ticket>, i: int, t: Ticket)
    requires
        tickets_wf(s),
        0 <= i < s.len(),
        t.id == s[i].id,
        s[i].status == TicketStatus::Reserved && t.status == TicketStatus::Reserved
            ==> s[i].price_at_reservation == t.price_at_reservation,
    ensures
        snapshots_kept(s, s.update(i, t)),
{
    let u = s.update(i, t);
    assert forall|a: int, b: int|
        0 <= a < s.len() && 0 <= b < u.len() && (#[trigger] s[a]).id == (#[trigger] u[b]).id
            && s[a].status == TicketStatus::Reserved && u[b].status == TicketStatus::Reserved
            implies s[a].price_at_reservation == u[b].price_at_reservation by {
        let k = if b == i {
            i
        } else {
            b
        };
        lemma_index_of(s, a);
        lemma_index_of(s, k);
    }
}

/// Snapshot immutability under the edges of bots and sellers: a price edit, a claim,
/// a verification, an unclaim, a cancellation or a new listing never changes the price
/// snapshot of a `Reserved` ticket.
pub proof fn lemma_snapshots_kept_by_listing_edges(
    s: Seq<Ticket>,
    id: u128,
    caller: u128,
    actor: Actor,
    price: i32,
    req: ClaimTicketRequest,
    game: Option<Game>,
    listing: CreateTicketRequest,
    hours: i64,
    now: i64,
)
    requires
        tickets_wf(s),
    ensures
        after_reprice(s, id, actor, price, now) matches Ok(u) ==> snapshots_kept(s, u),
        after_claim(s, req, now) matches Ok(u) ==> snapshots_kept(s, u),
        after_verify(s, id, now) matches Ok(u) ==> snapshots_kept(s, u),
        after_unclaim(s, id, now) matches Ok(u) ==> snapshots_kept(s, u),
        after_cancel(s, id, actor, now) matches Ok(u) ==> snapshots_kept(s, u),
        after_create(s, id, caller, game, listing, now, hours) matches Ok(u) ==> snapshots_kept(
            s,
            u,
        ),
{
    let k = index_of(s, id);
    if has_ticket(s, id) {
        lemma_update_snapshots(s, k, Ticket { price: price, updated_at: now, ..s[k] });
        lemma_update_snapshots(s, k, moved(s[k], TicketStatus::Verified, now));
        lemma_update_snapshots(s, k, moved(s[k], TicketStatus::Unverified, now));
        lemma_update_snapshots(s, k, moved(s[k], TicketStatus::Cancelled, now));
    }
    if exists|w: int| is_claim_winner(s, req, now, w) {
        let w = claim_winner(s, req, now);
        lemma_update_snapshots(s, w, moved(s[w], TicketStatus::Verifying, now));
    }
    if let Ok(u) = after_create(s, id, caller, game, listing, now, hours) {
        assert forall|a: int, b: int|
            0 <= a < s.len() && 0 <= b < u.len() && (#[trigger] s[a]).id == (#[trigger] u[b]).id
                && s[a].status == TicketStatus::Reserved && u[b].status == TicketStatus::Reserved
                implies s[a].price_at_reservation == u[b].price_at_reservation by {
            lemma_index_of(s, a);
            lemma_index_of(s, b);
        }
    }
}

/// Snapshot immutability under leasing: a reservation changes the snapshot of no
/// ticket whose lease is still fresh; only a stale lease is overwritten.
pub proof fn lemma_snapshots_kept_by_reserve(
    s: Seq<Ticket>,
    id: u128,
    buyer: u128,
    now: i64,
    window_minutes: i64,
    max: i64,
)
    requires
        tickets_wf(s),
    ensures
        after_reserve(s, id, buyer, now, window_minutes, max) matches Ok(u) ==> fresh_snapshots_kept(
            s,
            u,
            minutes_before(now, window_minutes),
        ),
{
    if let Ok(u) = after_reserve(s, id, buyer, now, window_minutes, max) {
        let k = index_of(s, id);
        assert forall|a: int, b: int|
            0 <= a < s.len() && 0 <= b < u.len() && (#[trigger] s[a]).id == (#[trigger] u[b]).id
                && s[a].status == TicketStatus::Reserved && u[b].status == TicketStatus::Reserved
                && (s[a].reserved_at matches Some(at) && at > minutes_before(now, window_minutes))
                implies s[a].price_at_reservation == u[b].price_at_reservation by {
            lemma_index_of(s, a);
            if b != k {
                lemma_index_of(s, b);
            }
        }
    }
}

/// Snapshot immutability under the gatekeeper and the sweeps: an event delivery, a
/// deadline sweep, a claim sweep or a lease sweep never changes the price snapshot of
/// a ticket that stays `Reserved`.
pub proof fn lemma_snapshots_kept_by_gatekeeper_and_reapers(
    s: Seq<Ticket>,
    intents: Seq<PaymentIntent>,
    ev: StripeWebhookEvent,
    now: i64,
    timeout_minutes: i64,
    window_minutes: i64,
)
    requires
        tickets_wf(s),
    ensures
        snapshots_kept(s, after_webhook(s, intents, ev, now, window_minutes).0),
        snapshots_kept(s, without_garbage(s, now)),
        snapshots_kept(s, after_unstick(s, now, timeout_minutes)),
        snapshots_kept(s, after_unlease(s, now, window_minutes)),
{
    let w = after_webhook(s, intents, ev, now, window_minutes).0;
    if let EventAction::Record { ticket_id, buyer_id } = event_action(ev) {
        if has_ticket(s, ticket_id) {
            let k = index_of(s, ticket_id);
            lemma_update_snapshots(s, k, moved(s[k], TicketStatus::Paid, now));
        }
    }
    let g = without_garbage(s, now);
    assert forall|a: int, b: int|
        0 <= a < s.len() && 0 <= b < g.len() && (#[trigger] s[a]).id == (#[trigger] g[b]).id
            && s[a].status == TicketStatus::Reserved && g[b].status == TicketStatus::Reserved
            implies s[a].price_at_reservation == g[b].price_at_reservation by {
        lemma_filter_drawn(s, now, b);
        let j = choose|j: int| 0 <= j < s.len() && g[b] == s[j];
        lemma_index_of(s, a);
        lemma_index_of(s, j);
    }
    let tc = minutes_before(now, timeout_minutes);
    let wc = minutes_before(now, window_minutes);
    let m = after_unstick(s, now, timeout_minutes);
    assert forall|a: int, b: int|
        0 <= a < s.len() && 0 <= b < m.len() && (#[trigger] s[a]).id == (#[trigger] m[b]).id
            && s[a].status == TicketStatus::Reserved && m[b].status == TicketStatus::Reserved
            implies s[a].price_at_reservation == m[b].price_at_reservation by {
        assert(m[b] == unstuck(s[b], now, tc));
        lemma_index_of(s, a);
        lemma_index_of(s, b);
    }
    let l = after_unlease(s, now, window_minutes);
    assert forall|a: int, b: int|
        0 <= a < s.len() && 0 <= b < l.len() && (#[trigger] s[a]).id == (#[trigger] l[b]).id
            && s[a].status == TicketStatus::Reserved && l[b].status == TicketStatus::Reserved
            implies s[a].price_at_reservation == l[b].price_at_reservation by {
        assert(l[b] == unleased(s[b], now, wc));
        lemma_index_of(s, a);
        lemma_index_of(s, b);
    }
}

/// The rows an event delivery leaves, and whether it asked for a processor call.
pub open spec fn deliveries(
    tickets: Seq<Ticket>,
    intents: Seq<PaymentIntent>,
    ev: StripeWebhookEvent,
    times: Seq<i64>,
    window_minutes: i64,
) -> (Seq<Ticket>, Seq<PaymentIntent>, nat)
    decreases times.len(),
{
    if times.len() == 0 {
        (tickets, intents, 0)
    } else {
        let before = deliveries(tickets, intents, ev, times.drop_last(), window_minutes);
        let after = after_webhook(before.0, before.1, ev, times.last(), window_minutes);
        (
            after.0,
            after.1,
            before.2 + if after.2 is Capture || after.2 is Release {
                1nat
            } else {
                0nat
            },
        )
    }
}

proof fn lemma_delivery_records(
    tickets: Seq<Ticket>,
    intents: Seq<PaymentIntent>,
    ev: StripeWebhookEvent,
    now: i64,
    window_minutes: i64,
)
    ensures
        event_action(ev) is Record ==> has_intent(
            after_webhook(tickets, intents, ev, now, window_minutes).1,
            ev.data.object.id@,
        ),
{
    let r = after_webhook(tickets, intents, ev, now, window_minutes);
    if event_action(ev) is Record && !has_intent(intents, ev.data.object.id@) {
        assert(r.1[r.1.len() - 1].id@ == ev.data.object.id@);
    }
}

/// Idempotent webhook: any number of deliveries of one event, at any times, leave the
/// rows that the first delivery left, and ask for at most one capture or cancel.
pub proof fn lemma_webhook_idempotent(
    tickets: Seq<Ticket>,
    intents: Seq<PaymentIntent>,
    ev: StripeWebhookEvent,
    times: Seq<i64>,
    window_minutes: i64,
)
    requires
        times.len() >= 1,
    ensures
        deliveries(tickets, intents, ev, times, window_minutes).0 == after_webhook(
            tickets,
            intents,
            ev,
            times[0],
            window_minutes,
        ).0,
        deliveries(tickets, intents, ev, times, window_minutes).1 == after_webhook(
            tickets,
            intents,
            ev,
            times[0],
            window_minutes,
        ).1,
        deliveries(tickets, intents, ev, times, window_minutes).2 <= 1,
    decreases times.len(),
{
    let first = after_webhook(tickets, intents, ev, times[0], window_minutes);
    lemma_delivery_records(tickets, intents, ev, times[0], window_minutes);
    if times.len() == 1 {
        assert(times.drop_last().len() == 0);
        assert(deliveries(tickets, intents, ev, times.drop_last(), window_minutes) == (
            tickets,
            intents,
            0nat,
        ));
        assert(times.last() == times[0]);
    } else {
        lemma_webhook_idempotent(tickets, intents, ev, times.drop_last(), window_minutes);
        assert(times.drop_last()[0] == times[0]);
        let before = deliveries(tickets, intents, ev, times.drop_last(), window_minutes);
        assert(before.0 == first.0 && before.1 == first.1);
        let after = after_webhook(before.0, before.1, ev, times.last(), window_minutes);
        match event_action(ev) {
            EventAction::Record { .. } => {
                assert(has_intent(before.1, ev.data.object.id@));
                assert(after.2 is Duplicate);
            },
            _ => {},
        }
        assert(after.0 == first.0 && after.1 == first.1);
    }
}

proof fn lemma_filter_drawn(s: Seq<Ticket>, now: i64, k: int)
    requires
        0 <= k < without_garbage(s, now).len(),
    ensures
        exists|j: int| 0 <= j < s.len() && without_garbage(s, now)[k] == s[j],
        !is_garbage(without_garbage(s, now)[k], now),
    decreases s.len(),
{
    reveal(Seq::filter);
    let f = without_garbage(s, now);
    let g = without_garbage(s.drop_last(), now);
    assert(f == if !is_garbage(s.last(), now) {
        g.push(s.last())
    } else {
        g
    });
    if k < g.len() {
        lemma_filter_drawn(s.drop_last(), now, k);
        let j = choose|j: int| 0 <= j < s.drop_last().len() && g[k] == s.drop_last()[j];
        assert(f[k] == s[j]);
    } else {
        assert(f[k] == s[s.len() - 1]);
    }
}

/// Reaper convergence: with no new traffic, after two cycles of the sweeps at `now`
/// no lapsed lease, no stuck claim and no expired unverified listing is left.
pub proof fn lemma_reaper_convergence(
    s: Seq<Ticket>,
    now: i64,
    timeout_minutes: i64,
    window_minutes: i64,
)
    ensures
        forall|i: int|
            #![trigger after_reaper_cycle(after_reaper_cycle(s, now, timeout_minutes, window_minutes), now, timeout_minutes, window_minutes)[i]]
            0 <= i < after_reaper_cycle(
                after_reaper_cycle(s, now, timeout_minutes, window_minutes),
                now,
                timeout_minutes,
                window_minutes,
            ).len() ==> {
                let t = after_reaper_cycle(
                    after_reaper_cycle(s, now, timeout_minutes, window_minutes),
                    now,
                    timeout_minutes,
                    window_minutes,
                )[i];
                &&& !is_garbage(t, now)
                &&& !is_stuck(t, minutes_before(now, timeout_minutes))
                &&& !is_expired_lease(t, minutes_before(now, window_minutes))
            },
{
    let tc = minutes_before(now, timeout_minutes);
    let wc = minutes_before(now, window_minutes);
    let c1 = after_reaper_cycle(s, now, timeout_minutes, window_minutes);
    let g = without_garbage(c1, now);
    let c2 = after_reaper_cycle(c1, now, timeout_minutes, window_minutes);
    assert forall|i: int| 0 <= i < c1.len() implies !is_stuck(#[trigger] c1[i], tc)
        && !is_expired_lease(c1[i], wc) by {
        let m = after_unstick(without_garbage(s, now), now, timeout_minutes);
        assert(c1[i] == unleased(m[i], now, wc));
        assert(m[i] == unstuck(without_garbage(s, now)[i], now, tc));
    }
    assert forall|i: int| 0 <= i < c2.len() implies !is_garbage(#[trigger] c2[i], now) && !is_stuck(
        c2[i],
        tc,
    ) && !is_expired_lease(c2[i], wc) by {
        lemma_filter_drawn(c1, now, i);
        let j = choose|j: int| 0 <= j < c1.len() && g[i] == c1[j];
        let m = after_unstick(g, now, timeout_minutes);
        assert(m[i] == unstuck(g[i], now, tc));
        assert(c2[i] == unleased(m[i], now, wc));
    }
}

/// Round trip: a claim followed by an unclaim of the claimed row leaves every row as
/// it was, but for the claimed row's update time.
pub proof fn lemma_claim_unclaim_round_trip(
    s: Seq<Ticket>,
    req: ClaimTicketRequest,
    claimed_at: i64,
    unclaimed_at: i64,
)
    requires
        tickets_wf(s),
        after_claim(s, req, claimed_at) is Ok,
    ensures
        ({
            let w = claim_winner(s, req, claimed_at);
            let s1 = after_claim(s, req, claimed_at)->Ok_0;
            after_unclaim(s1, s[w].id, unclaimed_at) == Ok::<Seq<Ticket>, crate::error::AppError>(
                s.update(w, Ticket { updated_at: unclaimed_at, ..s[w] }),
            )
        }),
{
    let w = claim_winner(s, req, claimed_at);
    let t1 = moved(s[w], TicketStatus::Verifying, claimed_at);
    let s1 = s.update(w, t1);
    lemma_update_same_key(s, w, t1);
    lemma_index_of(s1, w);
    assert(moved(t1, TicketStatus::Unverified, unclaimed_at) == Ticket {
        updated_at: unclaimed_at,
        ..s[w]
    });
    assert(s1.update(w, moved(t1, TicketStatus::Unverified, unclaimed_at)) =~= s.update(
        w,
        Ticket { updated_at: unclaimed_at, ..s[w] },
    ));
}

proof fn lemma_active_leases_update(s: Seq<Ticket>, i: int, t: Ticket, buyer: u128, cutoff: int)
    requires
        0 <= i < s.len(),
        holds_fresh_lease(s[i], buyer, cutoff) == holds_fresh_lease(t, buyer, cutoff),
    ensures
        active_leases(s.update(i, t), buyer, cutoff) == active_leases(s, buyer, cutoff),
    decreases s.len(),
{
    let u = s.update(i, t);
    if i == s.len() - 1 {
        assert(u.drop_last() =~= s.drop_last());
    } else {
        assert(u.drop_last() =~= s.drop_last().update(i, t));
        lemma_active_leases_update(s.drop_last(), i, t, buyer, cutoff);
    }
}

/// Contended reservation: when two buyers reserve one ticket at one instant, the one
/// served second finds it taken, and the ticket is one `Reserved` row leased to the
/// first. A window of zero minutes or more is assumed: with a negative window a
/// lease is stale as soon as it is granted.
pub proof fn lemma_contended_reservation(
    s: Seq<Ticket>,
    id: u128,
    first: u128,
    second: u128,
    now: i64,
    window_minutes: i64,
    max: i64,
)
    requires
        tickets_wf(s),
        window_minutes >= 0,
        first != second,
        after_reserve(s, id, first, now, window_minutes, max) is Ok,
        active_leases(s, second, minutes_before(now, window_minutes)) < max,
    ensures
        ({
            let s1 = after_reserve(s, id, first, now, window_minutes, max)->Ok_0;
            &&& after_reserve(s1, id, second, now, window_minutes, max) == Err::<
                Seq<Ticket>,
                crate::error::AppError,
            >(crate::error::AppError::TicketUnavailable)
            &&& s1[index_of(s1, id)].status == TicketStatus::Reserved
            &&& s1[index_of(s1, id)].reserved_by == Some(first)
            &&& forall|j: int| 0 <= j < s1.len() && s1[j].id == id ==> j == index_of(s1, id)
        }),
{
    let cutoff = minutes_before(now, window_minutes);
    let i = index_of(s, id);
    let t = leased(s[i], first, now);
    let s1 = s.update(i, t);
    lemma_update_same_key(s, i, t);
    lemma_index_of(s1, i);
    lemma_active_leases_update(s, i, t, second, cutoff);
    assert forall|j: int| 0 <= j < s1.len() && s1[j].id == id implies j == index_of(s1, id) by {
        lemma_index_of(s1, j);
    }
}

} // verus!
