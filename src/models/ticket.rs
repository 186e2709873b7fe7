use vstd::prelude::*;

verus! {

/// Where a ticket stands in its lifecycle.
#[derive(Debug, Clone, Copy, PartialEq, Eq, Structural)]
pub enum TicketStatus {
    Unverified,
    Verifying,
    Verified,
    Reserved,
    Paid,
    Sold,
    Refunding,
    Cancelled,
}

/// A listing. Times are Unix seconds, prices minor currency units.
#[derive(Debug, PartialEq, Eq)]
pub struct Ticket {
    pub id: u128,
    pub seller_id: u128,
    pub game_id: u128,
    pub event_name: String,
    pub event_date: i64,
    pub level: String,
    pub seat_section: String,
    pub seat_row: String,
    pub seat_number: String,
    pub price: i32,
    pub status: TicketStatus,
    pub transfer_deadline: i64,
    pub price_at_reservation: Option<i32>,
    pub reserved_at: Option<i64>,
    pub reserved_by: Option<u128>,
    pub created_at: i64,
    pub updated_at: i64,
}

impl Clone for Ticket {
    fn clone(&self) -> (r: Self)
        ensures
            r == *self,
    {
        Ticket {
            id: self.id,
            seller_id: self.seller_id,
            game_id: self.game_id,
            event_name: self.event_name.clone(),
            event_date: self.event_date,
            level: self.level.clone(),
            seat_section: self.seat_section.clone(),
            seat_row: self.seat_row.clone(),
            seat_number: self.seat_number.clone(),
            price: self.price,
            status: self.status,
            transfer_deadline: self.transfer_deadline,
            price_at_reservation: self.price_at_reservation,
            reserved_at: self.reserved_at,
            reserved_by: self.reserved_by,
            created_at: self.created_at,
            updated_at: self.updated_at,
        }
    }
}

/// The seat coordinates that identify a physical seat of an event.
pub open spec fn seat_of(t: Ticket) -> (Seq<char>, Seq<char>, Seq<char>, Seq<char>) {
    (t.event_name@, t.seat_section@, t.seat_row@, t.seat_number@)
}

/// The states in which a ticket holds its seat.
pub open spec fn is_live(s: TicketStatus) -> bool {
    s == TicketStatus::Verified || s == TicketStatus::Reserved || s == TicketStatus::Paid
        || s == TicketStatus::Sold
}

/// The lease fields are set exactly while the ticket is `Reserved`, and on a `Paid`
/// ticket, which keeps the record of the lease that was paid for.
pub open spec fn lease_consistent(t: Ticket) -> bool {
    if t.status == TicketStatus::Reserved || t.status == TicketStatus::Paid {
        t.reserved_by is Some && t.reserved_at is Some && t.price_at_reservation is Some
    } else {
        t.reserved_by is None && t.reserved_at is None && t.price_at_reservation is None
    }
}

/// The ticket with a new status and update time.
pub open spec fn moved(t: Ticket, status: TicketStatus, now: i64) -> Ticket {
    Ticket { status: status, updated_at: now, ..t }
}

/// The ticket leased to `buyer` at `now`, at its current price.
pub open spec fn leased(t: Ticket, buyer: u128, now: i64) -> Ticket {
    Ticket {
        status: TicketStatus::Reserved,
        reserved_at: Some(now),
        reserved_by: Some(buyer),
        price_at_reservation: Some(t.price),
        updated_at: now,
        ..t
    }
}

/// The ticket back on sale, its lease cleared.
pub open spec fn released(t: Ticket, now: i64) -> Ticket {
    Ticket {
        status: TicketStatus::Verified,
        reserved_at: None,
        reserved_by: None,
        price_at_reservation: None,
        updated_at: now,
        ..t
    }
}

/// The ticket at a new price.
pub open spec fn repriced(t: Ticket, price: i32, now: i64) -> Ticket {
    Ticket { price: price, updated_at: now, ..t }
}

/// Request to create a listing.
#[derive(Debug)]
pub struct CreateTicketRequest {
    pub game_id: u128,
    pub level: String,
    pub seat_section: String,
    pub seat_row: String,
    pub seat_number: String,
    pub price: i32,
}

/// Request to update a listing's status and/or price.
#[derive(Debug)]
pub struct UpdateTicketRequest {
    pub status: Option<String>,
    pub price: Option<i32>,
}

/// Response of a ticket listing.
#[derive(Debug)]
pub struct ListTicketsResponse {
    pub tickets: Vec<Ticket>,
}

/// Query of a seller's own listings.
#[derive(Debug)]
pub struct MyListingsQuery {
    pub status: Option<String>,
}

/// Response of a granted lease.
#[derive(Debug, Clone, Copy, PartialEq, Eq, Structural)]
pub struct ReserveTicketResponse {
    pub ticket_id: u128,
    pub status: TicketStatus,
    pub price_at_reservation: i32,
    pub reserved_at: i64,
}

/// A bot's request to claim the oldest unverified listing of a seat.
#[derive(Debug)]
pub struct ClaimTicketRequest {
    pub event_name: String,
    pub seat_section: String,
    pub seat_row: String,
    pub seat_number: String,
}

/// The listing a bot claimed.
#[derive(Debug)]
pub struct ClaimTicketResponse {
    pub ticket_id: u128,
    pub seller_id: u128,
    pub event_name: String,
    pub seat_section: String,
    pub seat_row: String,
    pub seat_number: String,
    pub status: TicketStatus,
}

/// A ticket's id and its new status.
#[derive(Debug, Clone, Copy, PartialEq, Eq, Structural)]
pub struct TicketStatusResponse {
    pub ticket_id: u128,
    pub status: TicketStatus,
}

} // verus!
