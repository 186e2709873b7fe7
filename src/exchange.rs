//! The ticket store and its lifecycle engine. Every primitive is one atomic step
//! on the store: it checks its guard against the current rows and either applies
//! its edge to one row or fails and leaves the store untouched.
use crate::error::AppError;
use crate::models::payment_intent::PaymentIntent;
use crate::calls::trim_of;
use crate::models::game::Game;
use crate::models::ticket::{
    is_live, lease_consistent, leased, moved, repriced, seat_of, ClaimTicketRequest,
    ClaimTicketResponse, CreateTicketRequest, ReserveTicketResponse, Ticket, TicketStatus,
    TicketStatusResponse,
};
use crate::ordering::{sort_tickets, sorted_by, ListingOrder};
use crate::text::is_blank;
use vstd::prelude::*;

verus! {

/// The rows of the store: tickets and payment intents.
pub struct Exchange {
    pub tickets: Vec<Ticket>,
    pub intents: Vec<PaymentIntent>,
}

/// Two rows may stand side by side: distinct ids, and not both live on one seat.
pub open spec fn compatible(a: Ticket, b: Ticket) -> bool {
    a.id != b.id && !(is_live(a.status) && is_live(b.status) && seat_of(a) == seat_of(b))
}

/// The invariants of the ticket rows.
pub open spec fn tickets_wf(s: Seq<Ticket>) -> bool {
    &&& forall|i: int, j: int|
        0 <= i < j < s.len() ==> compatible(#[trigger] s[i], #[trigger] s[j])
    &&& forall|i: int| 0 <= i < s.len() ==> lease_consistent(#[trigger] s[i])
}

/// Payment intent ids are unique.
pub open spec fn intents_wf(s: Seq<PaymentIntent>) -> bool {
    forall|i: int, j: int|
        0 <= i < j < s.len() ==> (#[trigger] s[i]).id@ != (#[trigger] s[j]).id@
}

/// A row with this id exists.
pub open spec fn has_ticket(s: Seq<Ticket>, id: u128) -> bool {
    exists|i: int| 0 <= i < s.len() && s[i].id == id
}

/// The position of the row with this id.
pub open spec fn index_of(s: Seq<Ticket>, id: u128) -> int {
    choose|i: int| 0 <= i < s.len() && s[i].id == id
}

/// A live row holds this seat.
pub open spec fn seat_taken(
    s: Seq<Ticket>,
    seat: (Seq<char>, Seq<char>, Seq<char>, Seq<char>),
) -> bool {
    exists|i: int| 0 <= i < s.len() && is_live(s[i].status) && seat_of(s[i]) == seat
}

pub proof fn lemma_index_of(s: Seq<Ticket>, i: int)
    requires
        tickets_wf(s),
        0 <= i < s.len(),
    ensures
        has_ticket(s, s[i].id),
        index_of(s, s[i].id) == i,
{
    let id = s[i].id;
    assert(has_ticket(s, id));
    let j = index_of(s, id);
    if j < i {
        assert(compatible(s[j], s[i]));
    } else if i < j {
        assert(compatible(s[i], s[j]));
    }
}

/// Replacing a row by one with the same id that conflicts with no other row keeps
/// the invariants.
pub proof fn lemma_update_wf(s: Seq<Ticket>, i: int, t: Ticket)
    requires
        tickets_wf(s),
        0 <= i < s.len(),
        t.id == s[i].id,
        lease_consistent(t),
        is_live(t.status) ==> !seat_taken(s.remove(i), seat_of(t)),
    ensures
        tickets_wf(s.update(i, t)),
{
    let u = s.update(i, t);
    assert forall|a: int, b: int| 0 <= a < b < u.len() implies compatible(
        #[trigger] u[a],
        #[trigger] u[b],
    ) by {
        if a == i {
            assert(compatible(s[a], s[b]));
            if is_live(t.status) && is_live(s[b].status) && seat_of(t) == seat_of(s[b]) {
                assert(s.remove(i)[b - 1] == s[b]);
            }
        } else if b == i {
            assert(compatible(s[a], s[b]));
            if is_live(t.status) && is_live(s[a].status) && seat_of(t) == seat_of(s[a]) {
                assert(s.remove(i)[a] == s[a]);
            }
        } else {
            assert(compatible(s[a], s[b]));
        }
    }
}

/// Replacing a row by one with the same id, seat and liveness keeps the invariants.
pub proof fn lemma_update_same_key(s: Seq<Ticket>, i: int, t: Ticket)
    requires
        tickets_wf(s),
        0 <= i < s.len(),
        t.id == s[i].id,
        seat_of(t) == seat_of(s[i]),
        is_live(t.status) == is_live(s[i].status),
        lease_consistent(t),
    ensures
        tickets_wf(s.update(i, t)),
{
    if is_live(t.status) && seat_taken(s.remove(i), seat_of(t)) {
        let k = choose|k: int|
            0 <= k < s.remove(i).len() && is_live(s.remove(i)[k].status) && seat_of(
                s.remove(i)[k],
            ) == seat_of(t);
        if k < i {
            assert(compatible(s[k], s[i]));
        } else {
            assert(s.remove(i)[k] == s[k + 1]);
            assert(compatible(s[i], s[k + 1]));
        }
    }
    lemma_update_wf(s, i, t);
}

impl Exchange {
    /// The store's invariants.
    pub open spec fn wf(&self) -> bool {
        tickets_wf(self.tickets@) && intents_wf(self.intents@)
    }

    /// An empty store.
    pub fn new() -> (r: Exchange)
        ensures
            r.wf(),
            r.tickets@.len() == 0,
            r.intents@.len() == 0,
    {
        Exchange { tickets: Vec::new(), intents: Vec::new() }
    }

    /// The position of the ticket with this id.
    pub fn find_ticket(&self, id: u128) -> (r: Option<usize>)
        ensures
            match r {
                Some(i) => i < self.tickets@.len() && self.tickets@[i as int].id == id,
                None => !has_ticket(self.tickets@, id),
            },
    {
        let mut i: usize = 0;
        while i < self.tickets.len()
            invariant
                i <= self.tickets@.len(),
                forall|j: int| 0 <= j < i ==> self.tickets@[j].id != id,
            decreases self.tickets@.len() - i,
        {
            if self.tickets[i].id == id {
                return Some(i);
            }
            i = i + 1;
        }
        None
    }

    /// Whether a live ticket other than the one at `skip` holds the seat of `t`.
    fn live_rival(&self, t: &Ticket, skip: usize) -> (r: bool)
        requires
            skip < self.tickets@.len(),
        ensures
            r == seat_taken(self.tickets@.remove(skip as int), seat_of(*t)),
    {
        let ghost rest = self.tickets@.remove(skip as int);
        let mut i: usize = 0;
        while i < self.tickets.len()
            invariant
                skip < self.tickets@.len(),
                rest == self.tickets@.remove(skip as int),
                i <= self.tickets@.len(),
                forall|j: int|
                    0 <= j < i && j != skip ==> !(is_live(self.tickets@[j].status) && seat_of(
                        self.tickets@[j],
                    ) == seat_of(*t)),
            decreases self.tickets@.len() - i,
        {
            if i != skip {
                let u = &self.tickets[i];
                if is_live_status(u.status) && u.event_name == t.event_name && u.seat_section
                    == t.seat_section && u.seat_row == t.seat_row && u.seat_number
                    == t.seat_number {
                    proof {
                        let k = if (i as int) < (skip as int) {
                            i as int
                        } else {
                            i - 1
                        };
                        assert(rest[k] == self.tickets@[i as int]);
                    }
                    return true;
                }
            }
            i = i + 1;
        }
        proof {
            if seat_taken(rest, seat_of(*t)) {
                let k = choose|k: int|
                    0 <= k < rest.len() && is_live(rest[k].status) && seat_of(rest[k]) == seat_of(
                        *t,
                    );
                if k < skip {
                    assert(rest[k] == self.tickets@[k]);
                } else {
                    assert(rest[k] == self.tickets@[k + 1]);
                }
            }
        }
        false
    }

    /// Moves a claimed ticket to `Verified` once its seat is confirmed.
    pub fn verify_ticket(&mut self, id: u128, now: i64) -> (r: Result<
        TicketStatusResponse,
        AppError,
    >)
        requires
            old(self).wf(),
        ensures
            final(self).wf(),
            final(self).intents@ == old(self).intents@,
            match after_verify(old(self).tickets@, id, now) {
                Ok(s) => final(self).tickets@ == s && r == Ok::<TicketStatusResponse, AppError>(
                    TicketStatusResponse { ticket_id: id, status: TicketStatus::Verified },
                ),
                Err(e) => final(self).tickets@ == old(self).tickets@ && r == Err::<
                    TicketStatusResponse,
                    AppError,
                >(e),
            },
    {
        let found = self.find_ticket(id);
        let i = match found {
            Some(i) => i,
            None => {
                return Err(AppError::NotVerifying);
            },
        };
        proof {
            lemma_index_of(self.tickets@, i as int);
        }
        if self.tickets[i].status != TicketStatus::Verifying {
            return Err(AppError::NotVerifying);
        }
        let mut t = self.tickets[i].clone();
        if self.live_rival(&t, i) {
            return Err(AppError::SeatAlreadyLive);
        }
        t.status = TicketStatus::Verified;
        t.updated_at = now;
        proof {
            lemma_update_wf(self.tickets@, i as int, t);
        }
        self.tickets.set(i, t);
        Ok(TicketStatusResponse { ticket_id: id, status: TicketStatus::Verified })
    }

    /// Hands a claimed ticket back to the pool of unverified listings.
    pub fn unclaim_ticket(&mut self, id: u128, now: i64) -> (r: Result<
        TicketStatusResponse,
        AppError,
    >)
        requires
            old(self).wf(),
        ensures
            final(self).wf(),
            final(self).intents@ == old(self).intents@,
            match after_unclaim(old(self).tickets@, id, now) {
                Ok(s) => final(self).tickets@ == s && r == Ok::<TicketStatusResponse, AppError>(
                    TicketStatusResponse { ticket_id: id, status: TicketStatus::Unverified },
                ),
                Err(e) => final(self).tickets@ == old(self).tickets@ && r == Err::<
                    TicketStatusResponse,
                    AppError,
                >(e),
            },
    {
        let found = self.find_ticket(id);
        let i = match found {
            Some(i) => i,
            None => {
                return Err(AppError::NotVerifying);
            },
        };
        proof {
            lemma_index_of(self.tickets@, i as int);
        }
        if self.tickets[i].status != TicketStatus::Verifying {
            return Err(AppError::NotVerifying);
        }
        let mut t = self.tickets[i].clone();
        t.status = TicketStatus::Unverified;
        t.updated_at = now;
        proof {
            lemma_update_same_key(self.tickets@, i as int, t);
        }
        self.tickets.set(i, t);
        Ok(TicketStatusResponse { ticket_id: id, status: TicketStatus::Unverified })
    }
}

/// Whether a status holds its seat.
pub fn is_live_status(s: TicketStatus) -> (r: bool)
    ensures
        r == is_live(s),
{
    match s {
        TicketStatus::Verified | TicketStatus::Reserved | TicketStatus::Paid
        | TicketStatus::Sold => true,
        _ => false,
    }
}

/// Edge `Verifying → Verified`: the ticket must be claimed, and no other live row may
/// hold its seat.
pub open spec fn after_verify(s: Seq<Ticket>, id: u128, now: i64) -> Result<Seq<Ticket>, AppError> {
    if !has_ticket(s, id) || s[index_of(s, id)].status != TicketStatus::Verifying {
        Err(AppError::NotVerifying)
    } else if seat_taken(s.remove(index_of(s, id)), seat_of(s[index_of(s, id)])) {
        Err(AppError::SeatAlreadyLive)
    } else {
        Ok(s.update(index_of(s, id), moved(s[index_of(s, id)], TicketStatus::Verified, now)))
    }
}

/// Edge `Verifying → Unverified`, by the bot that claimed the ticket.
pub open spec fn after_unclaim(s: Seq<Ticket>, id: u128, now: i64) -> Result<
    Seq<Ticket>,
    AppError,
> {
    if !has_ticket(s, id) || s[index_of(s, id)].status != TicketStatus::Verifying {
        Err(AppError::NotVerifying)
    } else {
        Ok(s.update(index_of(s, id), moved(s[index_of(s, id)], TicketStatus::Unverified, now)))
    }
}


/// A row that a bot may claim for this seat request at `now`.
pub open spec fn claimable(t: Ticket, req: ClaimTicketRequest, now: i64) -> bool {
    &&& t.status == TicketStatus::Unverified
    &&& t.event_name@ == req.event_name@
    &&& t.seat_section@ == req.seat_section@
    &&& t.seat_row@ == req.seat_row@
    &&& t.seat_number@ == req.seat_number@
    &&& t.transfer_deadline > now
}

/// Row `w` is the oldest claimable row, the first of equally old ones.
pub open spec fn is_claim_winner(s: Seq<Ticket>, req: ClaimTicketRequest, now: i64, w: int) -> bool {
    &&& 0 <= w < s.len()
    &&& claimable(s[w], req, now)
    &&& forall|j: int|
        0 <= j < s.len() && claimable(#[trigger] s[j], req, now) ==> s[w].created_at
            < s[j].created_at || (s[w].created_at == s[j].created_at && w <= j)
}

pub open spec fn claim_winner(s: Seq<Ticket>, req: ClaimTicketRequest, now: i64) -> int {
    choose|w: int| is_claim_winner(s, req, now, w)
}

/// Edge `Unverified → Verifying` on the oldest claimable row.
pub open spec fn after_claim(s: Seq<Ticket>, req: ClaimTicketRequest, now: i64) -> Result<
    Seq<Ticket>,
    AppError,
> {
    if exists|w: int| is_claim_winner(s, req, now, w) {
        let w = claim_winner(s, req, now);
        Ok(s.update(w, moved(s[w], TicketStatus::Verifying, now)))
    } else {
        Err(AppError::NoClaimableTicket)
    }
}

/// The answer to a bot about the row it claimed.
pub open spec fn claim_answer(r: ClaimTicketResponse, t: Ticket) -> bool {
    &&& r.ticket_id == t.id
    &&& r.seller_id == t.seller_id
    &&& r.event_name@ == t.event_name@
    &&& r.seat_section@ == t.seat_section@
    &&& r.seat_row@ == t.seat_row@
    &&& r.seat_number@ == t.seat_number@
    &&& r.status == TicketStatus::Verifying
}

pub proof fn lemma_claim_winner_unique(s: Seq<Ticket>, req: ClaimTicketRequest, now: i64, a: int, b: int)
    requires
        is_claim_winner(s, req, now, a),
        is_claim_winner(s, req, now, b),
    ensures
        a == b,
{
    assert(claimable(s[a], req, now));
    assert(claimable(s[b], req, now));
}

/// The instant `minutes` minutes before `now`: a lease granted after
/// `minutes_before(now, window)` is fresh.
pub open spec fn minutes_before(now: i64, minutes: i64) -> int {
    now - minutes * 60
}

/// The row is a lease of `buyer` granted after `cutoff`.
pub open spec fn holds_fresh_lease(t: Ticket, buyer: u128, cutoff: int) -> bool {
    &&& t.status == TicketStatus::Reserved
    &&& t.reserved_by == Some(buyer)
    &&& t.reserved_at matches Some(at) && at > cutoff
}

/// The number of fresh leases that `buyer` holds.
pub open spec fn active_leases(s: Seq<Ticket>, buyer: u128, cutoff: int) -> nat
    decreases s.len(),
{
    if s.len() == 0 {
        0
    } else {
        active_leases(s.drop_last(), buyer, cutoff) + if holds_fresh_lease(s.last(), buyer, cutoff) {
            1nat
        } else {
            0nat
        }
    }
}

/// A row that a buyer may lease: on sale, or leased before `cutoff` (a stale lease).
pub open spec fn reservable(t: Ticket, cutoff: int) -> bool {
    t.status == TicketStatus::Verified || (t.status == TicketStatus::Reserved
        && (t.reserved_at matches Some(at) && at < cutoff))
}

/// The quota rule: a buyer holding `max` fresh leases or more gets no other.
pub open spec fn quota_check(active: int, max: i64) -> Result<(), AppError> {
    if active >= max {
        Err(AppError::QuotaExceeded(max))
    } else {
        Ok(())
    }
}

/// Edges `Verified → Reserved` and stale `Reserved → Reserved`, after the quota check.
pub open spec fn after_reserve(
    s: Seq<Ticket>,
    id: u128,
    buyer: u128,
    now: i64,
    window_minutes: i64,
    max: i64,
) -> Result<Seq<Ticket>, AppError> {
    let cutoff = minutes_before(now, window_minutes);
    if quota_check(active_leases(s, buyer, cutoff) as int, max) is Err {
        Err(AppError::QuotaExceeded(max))
    } else if !has_ticket(s, id) || !reservable(s[index_of(s, id)], cutoff) {
        Err(AppError::TicketUnavailable)
    } else {
        Ok(s.update(index_of(s, id), leased(s[index_of(s, id)], buyer, now)))
    }
}

/// The checks on a new listing's own fields.
pub open spec fn listing_check(req: CreateTicketRequest) -> Result<(), AppError> {
    if req.price < 0 {
        Err(AppError::NegativePrice)
    } else if trim_of(req.level@).len() == 0 || trim_of(req.seat_section@).len() == 0 || trim_of(
        req.seat_row@,
    ).len() == 0 || trim_of(req.seat_number@).len() == 0 {
        Err(AppError::EmptySeatDetails)
    } else {
        Ok(())
    }
}

/// The transfer deadline of a listing created at `now`.
pub open spec fn transfer_deadline_of(now: i64, hours: i64) -> int {
    now + hours * 3600
}

/// The row of a new listing.
pub open spec fn new_listing(
    id: u128,
    seller: u128,
    game: Game,
    req: CreateTicketRequest,
    now: i64,
    deadline: i64,
) -> Ticket {
    Ticket {
        id: id,
        seller_id: seller,
        game_id: req.game_id,
        event_name: game.name,
        event_date: game.game_time,
        level: req.level,
        seat_section: req.seat_section,
        seat_row: req.seat_row,
        seat_number: req.seat_number,
        price: req.price,
        status: TicketStatus::Unverified,
        transfer_deadline: deadline,
        price_at_reservation: None,
        reserved_at: None,
        reserved_by: None,
        created_at: now,
        updated_at: now,
    }
}

/// Edge `– → Unverified`: a seller lists a seat of an existing game that no live row holds.
pub open spec fn after_create(
    s: Seq<Ticket>,
    id: u128,
    seller: u128,
    game: Option<Game>,
    req: CreateTicketRequest,
    now: i64,
    hours: i64,
) -> Result<Seq<Ticket>, AppError> {
    if let Err(e) = listing_check(req) {
        Err(e)
    } else {
        match game {
            None => Err(AppError::GameNotFound),
            Some(g) => {
                let deadline = transfer_deadline_of(now, hours);
                if has_ticket(s, id) {
                    Err(AppError::DuplicateTicketId)
                } else if seat_taken(
                    s,
                    (g.name@, req.seat_section@, req.seat_row@, req.seat_number@),
                ) {
                    Err(AppError::SeatAlreadyLive)
                } else if !(i64::MIN <= deadline <= i64::MAX) {
                    Err(AppError::Internal)
                } else {
                    Ok(s.push(new_listing(id, seller, g, req, now, deadline as i64)))
                }
            },
        }
    }
}

/// Who edits a listing: its seller, or an admin, who may edit any listing.
#[derive(Debug, Clone, Copy, PartialEq, Eq, Structural)]
pub enum Actor {
    Seller(u128),
    Admin,
}

/// The actor may edit the ticket.
pub open spec fn may_edit(actor: Actor, t: Ticket) -> bool {
    match actor {
        Actor::Seller(u) => t.seller_id == u,
        Actor::Admin => true,
    }
}

/// Edge `Unverified | Verified → Cancelled`, by the owning seller or an admin.
pub open spec fn after_cancel(s: Seq<Ticket>, id: u128, actor: Actor, now: i64) -> Result<
    Seq<Ticket>,
    AppError,
> {
    if !has_ticket(s, id) {
        Err(AppError::TicketNotFound)
    } else if !may_edit(actor, s[index_of(s, id)]) {
        Err(AppError::Forbidden)
    } else if !(s[index_of(s, id)].status == TicketStatus::Unverified || s[index_of(
        s,
        id,
    )].status == TicketStatus::Verified) {
        Err(AppError::NotCancellable)
    } else {
        Ok(s.update(index_of(s, id), moved(s[index_of(s, id)], TicketStatus::Cancelled, now)))
    }
}

/// A price edit by the owning seller or an admin, on a ticket that is not in a
/// terminal state. A lease keeps the price it snapshotted.
pub open spec fn after_reprice(s: Seq<Ticket>, id: u128, actor: Actor, price: i32, now: i64) -> Result<
    Seq<Ticket>,
    AppError,
> {
    if price < 0 {
        Err(AppError::NegativePrice)
    } else if !has_ticket(s, id) {
        Err(AppError::TicketNotFound)
    } else if !may_edit(actor, s[index_of(s, id)]) {
        Err(AppError::Forbidden)
    } else if s[index_of(s, id)].status == TicketStatus::Sold || s[index_of(s, id)].status
        == TicketStatus::Cancelled {
        Err(AppError::TicketClosed)
    } else {
        Ok(s.update(index_of(s, id), repriced(s[index_of(s, id)], price, now)))
    }
}

/// Checks a new listing's price and seat fields.
pub fn validate_listing(req: &CreateTicketRequest) -> (r: Result<(), AppError>)
    ensures
        r == listing_check(*req),
{
    if req.price < 0 {
        return Err(AppError::NegativePrice);
    }
    if is_blank(req.level.as_str()) || is_blank(req.seat_section.as_str()) || is_blank(
        req.seat_row.as_str(),
    ) || is_blank(req.seat_number.as_str()) {
        return Err(AppError::EmptySeatDetails);
    }
    Ok(())
}

/// Applies the quota rule to a buyer's count of fresh leases.
pub fn check_quota(active: usize, max: i64) -> (r: Result<(), AppError>)
    ensures
        r == quota_check(active as int, max),
{
    if active as i128 >= max as i128 {
        Err(AppError::QuotaExceeded(max))
    } else {
        Ok(())
    }
}

/// The instant `minutes` minutes before `now`.
pub fn minutes_before_now(now: i64, window_minutes: i64) -> (r: i128)
    ensures
        r == minutes_before(now, window_minutes),
{
    now as i128 - window_minutes as i128 * 60
}

proof fn lemma_active_leases_step(s: Seq<Ticket>, buyer: u128, cutoff: int, i: int)
    requires
        0 <= i < s.len(),
    ensures
        active_leases(s.subrange(0, i + 1), buyer, cutoff) == active_leases(
            s.subrange(0, i),
            buyer,
            cutoff,
        ) + if holds_fresh_lease(s[i], buyer, cutoff) {
            1nat
        } else {
            0nat
        },
{
    assert(s.subrange(0, i + 1).drop_last() =~= s.subrange(0, i));
}

impl Exchange {
    /// The number of fresh leases that `buyer` holds.
    pub fn count_active_leases(&self, buyer: u128, cutoff: i128) -> (r: usize)
        ensures
            r == active_leases(self.tickets@, buyer, cutoff as int),
    {
        let mut count: usize = 0;
        let mut i: usize = 0;
        while i < self.tickets.len()
            invariant
                i <= self.tickets@.len(),
                count <= i,
                count == active_leases(self.tickets@.subrange(0, i as int), buyer, cutoff as int),
            decreases self.tickets@.len() - i,
        {
            proof {
                lemma_active_leases_step(self.tickets@, buyer, cutoff as int, i as int);
            }
            let t = &self.tickets[i];
            let fresh = match t.reserved_at {
                Some(at) => at as i128 > cutoff,
                None => false,
            };
            if t.status == TicketStatus::Reserved && t.reserved_by == Some(buyer) && fresh {
                count = count + 1;
            }
            i = i + 1;
        }
        assert(self.tickets@.subrange(0, i as int) =~= self.tickets@);
        count
    }

    /// Bot claim: moves the oldest unverified listing of the requested seat whose
    /// transfer deadline is still ahead to `Verifying`.
    pub fn claim_ticket(&mut self, req: &ClaimTicketRequest, now: i64) -> (r: Result<
        ClaimTicketResponse,
        AppError,
    >)
        requires
            old(self).wf(),
        ensures
            final(self).wf(),
            final(self).intents@ == old(self).intents@,
            match after_claim(old(self).tickets@, *req, now) {
                Ok(s) => final(self).tickets@ == s && (r matches Ok(resp) && claim_answer(
                    resp,
                    old(self).tickets@[claim_winner(old(self).tickets@, *req, now)],
                )),
                Err(e) => final(self).tickets@ == old(self).tickets@ && r == Err::<
                    ClaimTicketResponse,
                    AppError,
                >(e),
            },
    {
        let ghost s = self.tickets@;
        let mut best: Option<usize> = None;
        let mut i: usize = 0;
        while i < self.tickets.len()
            invariant
                s == self.tickets@,
                i <= s.len(),
                match best {
                    Some(b) => b < i && claimable(s[b as int], *req, now) && forall|j: int|
                        0 <= j < i && claimable(#[trigger] s[j], *req, now) ==> s[b as int].created_at
                            < s[j].created_at || (s[b as int].created_at == s[j].created_at && b
                            <= j),
                    None => forall|j: int| 0 <= j < i ==> !claimable(#[trigger] s[j], *req, now),
                },
            decreases s.len() - i,
        {
            let t = &self.tickets[i];
            if t.status == TicketStatus::Unverified && t.event_name == req.event_name
                && t.seat_section == req.seat_section && t.seat_row == req.seat_row
                && t.seat_number == req.seat_number && t.transfer_deadline > now {
                let better = match best {
                    None => true,
                    Some(b) => t.created_at < self.tickets[b].created_at,
                };
                if better {
                    best = Some(i);
                }
            }
            i = i + 1;
        }
        let w = match best {
            None => {
                return Err(AppError::NoClaimableTicket);
            },
            Some(w) => w,
        };
        proof {
            assert(is_claim_winner(s, *req, now, w as int));
            lemma_claim_winner_unique(s, *req, now, w as int, claim_winner(s, *req, now));
        }
        let mut t = self.tickets[w].clone();
        t.status = TicketStatus::Verifying;
        t.updated_at = now;
        let resp = ClaimTicketResponse {
            ticket_id: t.id,
            seller_id: t.seller_id,
            event_name: t.event_name.clone(),
            seat_section: t.seat_section.clone(),
            seat_row: t.seat_row.clone(),
            seat_number: t.seat_number.clone(),
            status: TicketStatus::Verifying,
        };
        proof {
            lemma_update_same_key(s, w as int, t);
        }
        self.tickets.set(w, t);
        Ok(resp)
    }

    /// Grants `buyer` a lease on a ticket that is on sale or whose lease went stale,
    /// unless the buyer already holds `max` fresh leases.
    pub fn reserve_ticket(
        &mut self,
        id: u128,
        buyer: u128,
        now: i64,
        window_minutes: i64,
        max: i64,
    ) -> (r: Result<ReserveTicketResponse, AppError>)
        requires
            old(self).wf(),
        ensures
            final(self).wf(),
            final(self).intents@ == old(self).intents@,
            match after_reserve(old(self).tickets@, id, buyer, now, window_minutes, max) {
                Ok(s) => final(self).tickets@ == s && r == Ok::<ReserveTicketResponse, AppError>(
                    ReserveTicketResponse {
                        ticket_id: id,
                        status: TicketStatus::Reserved,
                        price_at_reservation: old(self).tickets@[index_of(
                            old(self).tickets@,
                            id,
                        )].price,
                        reserved_at: now,
                    },
                ),
                Err(e) => final(self).tickets@ == old(self).tickets@ && r == Err::<
                    ReserveTicketResponse,
                    AppError,
                >(e),
            },
    {
        let cutoff = minutes_before_now(now, window_minutes);
        let active = self.count_active_leases(buyer, cutoff);
        if let Err(e) = check_quota(active, max) {
            return Err(e);
        }
        let i = match self.find_ticket(id) {
            Some(i) => i,
            None => {
                return Err(AppError::TicketUnavailable);
            },
        };
        proof {
            lemma_index_of(self.tickets@, i as int);
        }
        let status = self.tickets[i].status;
        let stale = match self.tickets[i].reserved_at {
            Some(at) => (at as i128) < cutoff,
            None => false,
        };
        if !(status == TicketStatus::Verified || (status == TicketStatus::Reserved && stale)) {
            return Err(AppError::TicketUnavailable);
        }
        let mut t = self.tickets[i].clone();
        let price = t.price;
        t.status = TicketStatus::Reserved;
        t.reserved_at = Some(now);
        t.reserved_by = Some(buyer);
        t.price_at_reservation = Some(price);
        t.updated_at = now;
        proof {
            lemma_update_same_key(self.tickets@, i as int, t);
        }
        self.tickets.set(i, t);
        Ok(
            ReserveTicketResponse {
                ticket_id: id,
                status: TicketStatus::Reserved,
                price_at_reservation: price,
                reserved_at: now,
            },
        )
    }

    /// Seller listing: adds an `Unverified` row for a seat of `game` that no live row
    /// holds, with a transfer deadline `deadline_hours` ahead.
    pub fn create_ticket(
        &mut self,
        id: u128,
        seller_id: u128,
        game: Option<&Game>,
        req: &CreateTicketRequest,
        now: i64,
        deadline_hours: i64,
    ) -> (r: Result<Ticket, AppError>)
        requires
            old(self).wf(),
        ensures
            final(self).wf(),
            final(self).intents@ == old(self).intents@,
            match after_create(
                old(self).tickets@,
                id,
                seller_id,
                match game {
                    Some(g) => Some(*g),
                    None => None,
                },
                *req,
                now,
                deadline_hours,
            ) {
                Ok(s) => final(self).tickets@ == s && r == Ok::<Ticket, AppError>(s.last()),
                Err(e) => final(self).tickets@ == old(self).tickets@ && r == Err::<Ticket, AppError>(
                    e,
                ),
            },
    {
        if let Err(e) = validate_listing(req) {
            return Err(e);
        }
        let g = match game {
            None => {
                return Err(AppError::GameNotFound);
            },
            Some(g) => g,
        };
        if self.find_ticket(id).is_some() {
            return Err(AppError::DuplicateTicketId);
        }
        let mut t = Ticket {
            id: id,
            seller_id: seller_id,
            game_id: req.game_id,
            event_name: g.name.clone(),
            event_date: g.game_time,
            level: req.level.clone(),
            seat_section: req.seat_section.clone(),
            seat_row: req.seat_row.clone(),
            seat_number: req.seat_number.clone(),
            price: req.price,
            status: TicketStatus::Unverified,
            transfer_deadline: now,
            price_at_reservation: None,
            reserved_at: None,
            reserved_by: None,
            created_at: now,
            updated_at: now,
        };
        if self.seat_is_live(&t) {
            return Err(AppError::SeatAlreadyLive);
        }
        let deadline = now as i128 + deadline_hours as i128 * 3600;
        if deadline < i64::MIN as i128 || deadline > i64::MAX as i128 {
            return Err(AppError::Internal);
        }
        t.transfer_deadline = deadline as i64;
        let ghost s = self.tickets@;
        let result = t.clone();
        self.tickets.push(t);
        proof {
            let u = self.tickets@;
            assert(u == s.push(result));
            assert forall|a: int, b: int| 0 <= a < b < u.len() implies compatible(
                #[trigger] u[a],
                #[trigger] u[b],
            ) by {
                if b == s.len() {
                    assert(u[a] == s[a]);
                    assert(s[a].id != id);
                } else {
                    assert(compatible(s[a], s[b]));
                }
            }
        }
        Ok(result)
    }

    /// Whether a live row holds the seat of `t`.
    fn seat_is_live(&self, t: &Ticket) -> (r: bool)
        ensures
            r == seat_taken(self.tickets@, seat_of(*t)),
    {
        let mut i: usize = 0;
        while i < self.tickets.len()
            invariant
                i <= self.tickets@.len(),
                forall|j: int|
                    0 <= j < i ==> !(is_live(self.tickets@[j].status) && seat_of(self.tickets@[j])
                        == seat_of(*t)),
            decreases self.tickets@.len() - i,
        {
            let u = &self.tickets[i];
            if is_live_status(u.status) && u.event_name == t.event_name && u.seat_section
                == t.seat_section && u.seat_row == t.seat_row && u.seat_number == t.seat_number {
                return true;
            }
            i = i + 1;
        }
        false
    }

    /// Cancellation of an unverified or verified listing by its seller or an admin.
    pub fn cancel_ticket(&mut self, id: u128, actor: Actor, now: i64) -> (r: Result<
        TicketStatusResponse,
        AppError,
    >)
        requires
            old(self).wf(),
        ensures
            final(self).wf(),
            final(self).intents@ == old(self).intents@,
            match after_cancel(old(self).tickets@, id, actor, now) {
                Ok(s) => final(self).tickets@ == s && r == Ok::<TicketStatusResponse, AppError>(
                    TicketStatusResponse { ticket_id: id, status: TicketStatus::Cancelled },
                ),
                Err(e) => final(self).tickets@ == old(self).tickets@ && r == Err::<
                    TicketStatusResponse,
                    AppError,
                >(e),
            },
    {
        let i = match self.find_ticket(id) {
            Some(i) => i,
            None => {
                return Err(AppError::TicketNotFound);
            },
        };
        proof {
            lemma_index_of(self.tickets@, i as int);
        }
        let allowed = match actor {
            Actor::Seller(u) => self.tickets[i].seller_id == u,
            Actor::Admin => true,
        };
        if !allowed {
            return Err(AppError::Forbidden);
        }
        let status = self.tickets[i].status;
        if !(status == TicketStatus::Unverified || status == TicketStatus::Verified) {
            return Err(AppError::NotCancellable);
        }
        let mut t = self.tickets[i].clone();
        t.status = TicketStatus::Cancelled;
        t.updated_at = now;
        proof {
            lemma_update_wf(self.tickets@, i as int, t);
        }
        self.tickets.set(i, t);
        Ok(TicketStatusResponse { ticket_id: id, status: TicketStatus::Cancelled })
    }

    /// Price edit by the seller or an admin; a lease keeps its snapshot.
    pub fn update_price(&mut self, id: u128, actor: Actor, price: i32, now: i64) -> (r: Result<
        (),
        AppError,
    >)
        requires
            old(self).wf(),
        ensures
            final(self).wf(),
            final(self).intents@ == old(self).intents@,
            match after_reprice(old(self).tickets@, id, actor, price, now) {
                Ok(s) => final(self).tickets@ == s && r is Ok,
                Err(e) => final(self).tickets@ == old(self).tickets@ && r == Err::<(), AppError>(e),
            },
    {
        if price < 0 {
            return Err(AppError::NegativePrice);
        }
        let i = match self.find_ticket(id) {
            Some(i) => i,
            None => {
                return Err(AppError::TicketNotFound);
            },
        };
        proof {
            lemma_index_of(self.tickets@, i as int);
        }
        let allowed = match actor {
            Actor::Seller(u) => self.tickets[i].seller_id == u,
            Actor::Admin => true,
        };
        if !allowed {
            return Err(AppError::Forbidden);
        }
        let status = self.tickets[i].status;
        if status == TicketStatus::Sold || status == TicketStatus::Cancelled {
            return Err(AppError::TicketClosed);
        }
        let mut t = self.tickets[i].clone();
        t.price = price;
        t.updated_at = now;
        proof {
            lemma_update_same_key(self.tickets@, i as int, t);
        }
        self.tickets.set(i, t);
        Ok(())
    }
}

/// The rows on sale.
pub open spec fn on_sale(s: Seq<Ticket>) -> Seq<Ticket> {
    s.filter(|t: Ticket| t.status == TicketStatus::Verified)
}

/// A seller's rows, of one status where one is given.
pub open spec fn listed_by(s: Seq<Ticket>, seller: u128, status: Option<TicketStatus>) -> Seq<
    Ticket,
> {
    s.filter(
        |t: Ticket|
            t.seller_id == seller && match status {
                Some(st) => t.status == st,
                None => true,
            },
    )
}

impl Exchange {
    /// The public listing: every ticket on sale, each once, earliest event first and
    /// then oldest listing first.
    pub fn list_tickets(&self) -> (r: Vec<Ticket>)
        ensures
            r@.to_multiset() == on_sale(self.tickets@).to_multiset(),
            sorted_by(r@, ListingOrder::ByEventThenAge),
    {
        let ghost s = self.tickets@;
        let mut out: Vec<Ticket> = Vec::new();
        let mut i: usize = 0;
        while i < self.tickets.len()
            invariant
                s == self.tickets@,
                i <= s.len(),
                out@ == on_sale(s.subrange(0, i as int)),
            decreases s.len() - i,
        {
            proof {
                reveal(Seq::filter);
                assert(s.subrange(0, i + 1).drop_last() =~= s.subrange(0, i as int));
            }
            if self.tickets[i].status == TicketStatus::Verified {
                out.push(self.tickets[i].clone());
            }
            i = i + 1;
        }
        assert(s.subrange(0, s.len() as int) =~= s);
        sort_tickets(&out, ListingOrder::ByEventThenAge)
    }

    /// A seller's own listings, filtered by status where one is given, each once,
    /// newest first.
    pub fn my_listings(&self, seller: u128, status: Option<TicketStatus>) -> (r: Vec<Ticket>)
        ensures
            r@.to_multiset() == listed_by(self.tickets@, seller, status).to_multiset(),
            sorted_by(r@, ListingOrder::NewestFirst),
    {
        let ghost s = self.tickets@;
        let mut out: Vec<Ticket> = Vec::new();
        let mut i: usize = 0;
        while i < self.tickets.len()
            invariant
                s == self.tickets@,
                i <= s.len(),
                out@ == listed_by(s.subrange(0, i as int), seller, status),
            decreases s.len() - i,
        {
            proof {
                reveal(Seq::filter);
                assert(s.subrange(0, i + 1).drop_last() =~= s.subrange(0, i as int));
            }
            let t = &self.tickets[i];
            let wanted = match status {
                Some(st) => t.status == st,
                None => true,
            };
            if t.seller_id == seller && wanted {
                out.push(t.clone());
            }
            i = i + 1;
        }
        assert(s.subrange(0, s.len() as int) =~= s);
        sort_tickets(&out, ListingOrder::NewestFirst)
    }
}

} // verus!
