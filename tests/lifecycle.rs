use ticket_marketplace::error::{AppError, ErrorKind};
use ticket_marketplace::exchange::{Actor, Exchange};
use ticket_marketplace::gatekeeper::{classify_event, EventAction, WebhookOutcome};
use ticket_marketplace::models::game::{Game, SportType};
use ticket_marketplace::models::payment_intent::{
    PaymentIntentStatus, StripeMetadata, StripePaymentIntent, StripeWebhookData,
    StripeWebhookEvent,
};
use ticket_marketplace::models::ticket::{
    ClaimTicketRequest, CreateTicketRequest, TicketStatus,
};

const SELLER: u128 = 0x5e11e7;
const B1: u128 = 0xb1;
const B2: u128 = 0xb2;
const GAME: u128 = 0x6a3e;
const T0: i64 = 1_700_000_000;
const WINDOW: i64 = 7;
const MAX: i64 = 3;
const TIMEOUT: i64 = 10;

fn game() -> Game {
    Game {
        id: GAME,
        sport_type: SportType::Football,
        name: "MSU vs OSU".to_string(),
        game_time: T0 + 30 * 86400,
        cutoff_time: T0 + 30 * 86400 - 3600,
    }
}

fn listing(price: i32, row: &str, number: &str) -> CreateTicketRequest {
    CreateTicketRequest {
        game_id: GAME,
        level: "UPPER".to_string(),
        seat_section: "101".to_string(),
        seat_row: row.to_string(),
        seat_number: number.to_string(),
        price,
    }
}

fn claim_request(row: &str, number: &str) -> ClaimTicketRequest {
    ClaimTicketRequest {
        event_name: "MSU vs OSU".to_string(),
        seat_section: "101".to_string(),
        seat_row: row.to_string(),
        seat_number: number.to_string(),
    }
}

fn uuid_text(v: u128) -> String {
    uuid::Uuid::from_u128(v).to_string()
}

fn event(kind: &str, intent: &str, ticket: u128, buyer: u128, amount: i64) -> StripeWebhookEvent {
    StripeWebhookEvent {
        id: Some("evt_1".to_string()),
        event_type: kind.to_string(),
        data: StripeWebhookData {
            object: StripePaymentIntent {
                id: intent.to_string(),
                amount,
                currency: "usd".to_string(),
                status: "requires_capture".to_string(),
                metadata: StripeMetadata {
                    ticket_id: uuid_text(ticket),
                    buyer_id: uuid_text(buyer),
                    reserved_at: String::new(),
                },
            },
        },
    }
}

fn capturable(intent: &str, ticket: u128, buyer: u128) -> StripeWebhookEvent {
    event("payment_intent.amount_capturable_updated", intent, ticket, buyer, 5000)
}

/// A store holding one verified ticket `id` at `price`, seat UPPER/101/A/7 unless given.
fn verified_ticket(ex: &mut Exchange, id: u128, price: i32, row: &str, number: &str) {
    let g = game();
    ex.create_ticket(id, SELLER, Some(&g), &listing(price, row, number), T0, 24).unwrap();
    let claimed = ex.claim_ticket(&claim_request(row, number), T0 + 60).unwrap();
    assert_eq!(claimed.ticket_id, id);
    ex.verify_ticket(id, T0 + 120).unwrap();
}

fn ticket(ex: &Exchange, id: u128) -> &ticket_marketplace::models::ticket::Ticket {
    &ex.tickets[ex.find_ticket(id).unwrap()]
}

#[test]
fn happy_sale() {
    let mut ex = Exchange::new();
    let t = 0x7;
    verified_ticket(&mut ex, t, 5000, "A", "7");
    assert_eq!(ticket(&ex, t).status, TicketStatus::Verified);
    let reserved_at = T0 + 600;
    let resp = ex.reserve_ticket(t, B1, reserved_at, WINDOW, MAX).unwrap();
    assert_eq!(resp.status, TicketStatus::Reserved);
    assert_eq!(resp.price_at_reservation, 5000);
    assert_eq!(resp.reserved_at, reserved_at);
    let out = ex.handle_payment_event(&capturable("pi_1", t, B1), reserved_at + 6 * 60, WINDOW);
    assert_eq!(out, WebhookOutcome::Capture("pi_1".to_string()));
    assert_eq!(ticket(&ex, t).status, TicketStatus::Paid);
    assert_eq!(ex.intents.len(), 1);
    assert_eq!(ex.intents[0].status, PaymentIntentStatus::Captured);
    assert_eq!(ex.intents[0].ticket_id, t);
    assert_eq!(ex.intents[0].buyer_id, B1);
}

#[test]
fn late_webhook() {
    let mut ex = Exchange::new();
    let t = 0x7;
    verified_ticket(&mut ex, t, 5000, "A", "7");
    let reserved_at = T0 + 600;
    ex.reserve_ticket(t, B1, reserved_at, WINDOW, MAX).unwrap();
    let report = ex.run_reapers(reserved_at + 7 * 60 + 30, TIMEOUT, WINDOW);
    assert_eq!(report.released, 1);
    assert_eq!(ticket(&ex, t).status, TicketStatus::Verified);
    let before = ticket(&ex, t).clone();
    let out = ex.handle_payment_event(&capturable("pi_1", t, B1), reserved_at + 10 * 60, WINDOW);
    assert_eq!(out, WebhookOutcome::Release("pi_1".to_string()));
    assert_eq!(*ticket(&ex, t), before);
    assert_eq!(ex.intents[0].status, PaymentIntentStatus::Cancelled);
}

#[test]
fn duplicate_webhook() {
    let mut ex = Exchange::new();
    let t = 0x7;
    verified_ticket(&mut ex, t, 5000, "A", "7");
    ex.reserve_ticket(t, B1, T0 + 600, WINDOW, MAX).unwrap();
    let ev = capturable("pi_1", t, B1);
    let first = ex.handle_payment_event(&ev, T0 + 700, WINDOW);
    assert_eq!(first, WebhookOutcome::Capture("pi_1".to_string()));
    let after_first = ticket(&ex, t).clone();
    let second = ex.handle_payment_event(&ev, T0 + 701, WINDOW);
    assert_eq!(second, WebhookOutcome::Duplicate);
    assert_eq!(*ticket(&ex, t), after_first);
    assert_eq!(ex.intents.len(), 1);
    assert_eq!(ex.intents[0].status, PaymentIntentStatus::Captured);
}

#[test]
fn contended_reservation() {
    let mut ex = Exchange::new();
    let t = 0x7;
    verified_ticket(&mut ex, t, 5000, "A", "7");
    let first = ex.reserve_ticket(t, B1, T0 + 600, WINDOW, MAX);
    let second = ex.reserve_ticket(t, B2, T0 + 600, WINDOW, MAX);
    assert!(first.is_ok());
    assert_eq!(second, Err(AppError::TicketUnavailable));
    assert_eq!(second.unwrap_err().status_code(), 409);
    let reserved: Vec<_> = ex.tickets.iter().filter(|t| t.status == TicketStatus::Reserved).collect();
    assert_eq!(reserved.len(), 1);
    assert_eq!(reserved[0].reserved_by, Some(B1));
}

#[test]
fn quota_exhaustion() {
    let mut ex = Exchange::new();
    for (id, number) in [(1u128, "1"), (2, "2"), (3, "3"), (4, "4")] {
        verified_ticket(&mut ex, id, 5000, "A", number);
    }
    for id in 1..=3u128 {
        ex.reserve_ticket(id, B1, T0 + 600, WINDOW, MAX).unwrap();
    }
    let before = ticket(&ex, 4).clone();
    let fourth = ex.reserve_ticket(4, B1, T0 + 601, WINDOW, MAX);
    assert_eq!(fourth, Err(AppError::QuotaExceeded(3)));
    assert_eq!(fourth.unwrap_err().kind(), ErrorKind::Conflict);
    assert_eq!(*ticket(&ex, 4), before);
    assert_eq!(ex.count_active_leases(B1, (T0 + 601 - WINDOW * 60) as i128), 3);
}

#[test]
fn stale_lease_steal() {
    let mut ex = Exchange::new();
    let t = 0x7;
    verified_ticket(&mut ex, t, 5000, "A", "7");
    let at1 = T0 + 600;
    ex.reserve_ticket(t, B1, at1, WINDOW, MAX).unwrap();
    ex.update_price(t, Actor::Seller(SELLER), 6000, at1 + 60).unwrap();
    assert_eq!(ticket(&ex, t).price_at_reservation, Some(5000));
    let at2 = at1 + 8 * 60;
    let resp = ex.reserve_ticket(t, B2, at2, WINDOW, MAX).unwrap();
    assert_eq!(resp.price_at_reservation, 6000);
    let row = ticket(&ex, t);
    assert_eq!(row.reserved_by, Some(B2));
    assert_eq!(row.reserved_at, Some(at2));
    assert_eq!(row.price_at_reservation, Some(6000));
    let out = ex.handle_payment_event(&capturable("pi_b1", t, B1), at2 + 30, WINDOW);
    assert_eq!(out, WebhookOutcome::Release("pi_b1".to_string()));
    assert_eq!(ticket(&ex, t).status, TicketStatus::Reserved);
    assert_eq!(ticket(&ex, t).reserved_by, Some(B2));
}

#[test]
fn fresh_lease_is_not_stolen() {
    let mut ex = Exchange::new();
    verified_ticket(&mut ex, 7, 5000, "A", "7");
    ex.reserve_ticket(7, B1, T0 + 600, WINDOW, MAX).unwrap();
    assert_eq!(ex.reserve_ticket(7, B2, T0 + 600 + 6 * 60, WINDOW, MAX), Err(AppError::TicketUnavailable));
    assert_eq!(ticket(&ex, 7).reserved_by, Some(B1));
}

#[test]
fn no_double_sell_second_listing_cannot_go_live() {
    let mut ex = Exchange::new();
    let g = game();
    ex.create_ticket(1, SELLER, Some(&g), &listing(5000, "A", "7"), T0, 24).unwrap();
    ex.create_ticket(2, SELLER + 1, Some(&g), &listing(4000, "A", "7"), T0 + 1, 24).unwrap();
    let c1 = ex.claim_ticket(&claim_request("A", "7"), T0 + 10).unwrap();
    assert_eq!(c1.ticket_id, 1);
    let c2 = ex.claim_ticket(&claim_request("A", "7"), T0 + 11).unwrap();
    assert_eq!(c2.ticket_id, 2);
    ex.verify_ticket(1, T0 + 20).unwrap();
    assert_eq!(ex.verify_ticket(2, T0 + 21), Err(AppError::SeatAlreadyLive));
    ex.reserve_ticket(1, B1, T0 + 30, WINDOW, MAX).unwrap();
    ex.handle_payment_event(&capturable("pi_1", 1, B1), T0 + 40, WINDOW);
    assert_eq!(ticket(&ex, 1).status, TicketStatus::Paid);
    assert_eq!(ticket(&ex, 2).status, TicketStatus::Verifying);
    assert_eq!(
        ex.create_ticket(3, SELLER, Some(&g), &listing(10, "A", "7"), T0 + 50, 24),
        Err(AppError::SeatAlreadyLive)
    );
}

#[test]
fn lease_exclusive_per_ticket() {
    let mut ex = Exchange::new();
    verified_ticket(&mut ex, 7, 5000, "A", "7");
    ex.reserve_ticket(7, B1, T0 + 600, WINDOW, MAX).unwrap();
    let _ = ex.reserve_ticket(7, B2, T0 + 601, WINDOW, MAX);
    let fresh = ex
        .tickets
        .iter()
        .filter(|t| t.id == 7 && t.status == TicketStatus::Reserved)
        .count();
    assert_eq!(fresh, 1);
}

#[test]
fn snapshot_survives_price_edit() {
    let mut ex = Exchange::new();
    verified_ticket(&mut ex, 7, 5000, "A", "7");
    ex.reserve_ticket(7, B1, T0 + 600, WINDOW, MAX).unwrap();
    ex.update_price(7, Actor::Seller(SELLER), 9000, T0 + 610).unwrap();
    ex.run_reapers(T0 + 620, TIMEOUT, WINDOW);
    let row = ticket(&ex, 7);
    assert_eq!(row.price, 9000);
    assert_eq!(row.price_at_reservation, Some(5000));
}

#[test]
fn webhook_replayed_three_times_captures_once() {
    let mut ex = Exchange::new();
    verified_ticket(&mut ex, 7, 5000, "A", "7");
    ex.reserve_ticket(7, B1, T0 + 600, WINDOW, MAX).unwrap();
    let ev = capturable("pi_1", 7, B1);
    let mut captures = 0;
    for k in 0..3 {
        if let WebhookOutcome::Capture(_) = ex.handle_payment_event(&ev, T0 + 700 + k * 1000, WINDOW) {
            captures += 1;
        }
    }
    assert_eq!(captures, 1);
    assert_eq!(ticket(&ex, 7).status, TicketStatus::Paid);
    assert_eq!(ex.intents.len(), 1);
}

#[test]
fn reapers_converge_after_two_cycles() {
    let mut ex = Exchange::new();
    let g = game();
    // an expired lease
    verified_ticket(&mut ex, 1, 5000, "A", "1");
    ex.reserve_ticket(1, B1, T0 + 200, WINDOW, MAX).unwrap();
    // a claim stuck past the listing's transfer deadline
    ex.create_ticket(2, SELLER, Some(&g), &listing(5000, "A", "2"), T0, 1).unwrap();
    ex.claim_ticket(&claim_request("A", "2"), T0 + 100).unwrap();
    // an unverified listing past its deadline
    ex.create_ticket(3, SELLER, Some(&g), &listing(5000, "A", "3"), T0, 1).unwrap();
    let now = T0 + 2 * 3600;
    let first = ex.run_reapers(now, TIMEOUT, WINDOW);
    assert_eq!(first, ticket_marketplace::reaper::ReapReport { deleted: 1, unstuck: 1, released: 1 });
    assert_eq!(ticket(&ex, 1).status, TicketStatus::Verified);
    assert_eq!(ticket(&ex, 1).reserved_by, None);
    assert_eq!(ticket(&ex, 2).status, TicketStatus::Unverified);
    let second = ex.run_reapers(now, TIMEOUT, WINDOW);
    assert_eq!(second, ticket_marketplace::reaper::ReapReport { deleted: 1, unstuck: 0, released: 0 });
    assert!(ex.find_ticket(2).is_none());
    assert!(ex.find_ticket(3).is_none());
    let third = ex.run_reapers(now, TIMEOUT, WINDOW);
    assert_eq!(third, ticket_marketplace::reaper::ReapReport { deleted: 0, unstuck: 0, released: 0 });
}

#[test]
fn claim_then_unclaim_round_trip() {
    let mut ex = Exchange::new();
    let g = game();
    ex.create_ticket(7, SELLER, Some(&g), &listing(5000, "A", "7"), T0, 24).unwrap();
    let before = ticket(&ex, 7).clone();
    ex.claim_ticket(&claim_request("A", "7"), T0 + 60).unwrap();
    assert_eq!(ticket(&ex, 7).status, TicketStatus::Verifying);
    let back = ex.unclaim_ticket(7, T0 + 90).unwrap();
    assert_eq!(back.status, TicketStatus::Unverified);
    let mut expected = before.clone();
    expected.updated_at = T0 + 90;
    assert_eq!(*ticket(&ex, 7), expected);
}

#[test]
fn claim_takes_oldest_listing() {
    let mut ex = Exchange::new();
    let g = game();
    ex.create_ticket(10, SELLER, Some(&g), &listing(5000, "A", "7"), T0 + 5, 24).unwrap();
    ex.create_ticket(11, SELLER, Some(&g), &listing(5000, "A", "7"), T0, 24).unwrap();
    let c = ex.claim_ticket(&claim_request("A", "7"), T0 + 60).unwrap();
    assert_eq!(c.ticket_id, 11);
    assert_eq!(c.event_name, "MSU vs OSU");
    assert_eq!(c.status, TicketStatus::Verifying);
    assert_eq!(c.seller_id, SELLER);
}

#[test]
fn claim_finds_nothing() {
    let mut ex = Exchange::new();
    let g = game();
    ex.create_ticket(10, SELLER, Some(&g), &listing(5000, "A", "7"), T0, 1).unwrap();
    assert_eq!(ex.claim_ticket(&claim_request("A", "8"), T0 + 60).unwrap_err(), AppError::NoClaimableTicket);
    // past the transfer deadline
    let err = ex.claim_ticket(&claim_request("A", "7"), T0 + 3600).unwrap_err();
    assert_eq!(err, AppError::NoClaimableTicket);
    assert_eq!(err.status_code(), 404);
}

#[test]
fn verify_and_unclaim_need_a_claim() {
    let mut ex = Exchange::new();
    let g = game();
    ex.create_ticket(10, SELLER, Some(&g), &listing(5000, "A", "7"), T0, 24).unwrap();
    assert_eq!(ex.verify_ticket(10, T0), Err(AppError::NotVerifying));
    assert_eq!(ex.unclaim_ticket(10, T0), Err(AppError::NotVerifying));
    assert_eq!(ex.verify_ticket(99, T0), Err(AppError::NotVerifying));
}

#[test]
fn create_ticket_rejections() {
    let mut ex = Exchange::new();
    let g = game();
    assert_eq!(
        ex.create_ticket(1, SELLER, Some(&g), &listing(-1, "A", "7"), T0, 24),
        Err(AppError::NegativePrice)
    );
    assert_eq!(
        ex.create_ticket(1, SELLER, Some(&g), &listing(5, "  ", "7"), T0, 24),
        Err(AppError::EmptySeatDetails)
    );
    assert_eq!(
        ex.create_ticket(1, SELLER, None, &listing(5, "A", "7"), T0, 24),
        Err(AppError::GameNotFound)
    );
    let t = ex.create_ticket(1, SELLER, Some(&g), &listing(0, "A", "7"), T0, 24).unwrap();
    assert_eq!(t.transfer_deadline, T0 + 24 * 3600);
    assert_eq!(t.status, TicketStatus::Unverified);
    assert_eq!(t.event_name, "MSU vs OSU");
    assert_eq!(
        ex.create_ticket(1, SELLER, Some(&g), &listing(5, "A", "8"), T0, 24),
        Err(AppError::DuplicateTicketId)
    );
    assert_eq!(
        ex.create_ticket(2, SELLER, Some(&g), &listing(5, "A", "8"), i64::MAX - 10, 24),
        Err(AppError::Internal)
    );
    assert_eq!(ex.tickets.len(), 1);
}

#[test]
fn cancel_and_reprice_rules() {
    let mut ex = Exchange::new();
    verified_ticket(&mut ex, 7, 5000, "A", "7");
    assert_eq!(ex.cancel_ticket(7, Actor::Seller(B1), T0), Err(AppError::Forbidden));
    assert_eq!(ex.cancel_ticket(8, Actor::Seller(SELLER), T0), Err(AppError::TicketNotFound));
    assert_eq!(ex.update_price(7, Actor::Seller(SELLER), -5, T0), Err(AppError::NegativePrice));
    ex.reserve_ticket(7, B1, T0 + 600, WINDOW, MAX).unwrap();
    assert_eq!(ex.cancel_ticket(7, Actor::Seller(SELLER), T0 + 601), Err(AppError::NotCancellable));
    ex.run_reapers(T0 + 600 + 8 * 60, TIMEOUT, WINDOW);
    let done = ex.cancel_ticket(7, Actor::Seller(SELLER), T0 + 2000).unwrap();
    assert_eq!(done.status, TicketStatus::Cancelled);
    assert_eq!(ex.update_price(7, Actor::Seller(SELLER), 10, T0 + 2001), Err(AppError::TicketClosed));
    assert_eq!(ex.reserve_ticket(7, B2, T0 + 2002, WINDOW, MAX), Err(AppError::TicketUnavailable));
}

#[test]
fn events_are_sorted_by_kind() {
    let ignored = event("payment_intent.succeeded", "pi_1", 1, 2, 10);
    assert_eq!(classify_event(&ignored), EventAction::Ignore);
    let ok = capturable("pi_1", 1, 2);
    assert_eq!(classify_event(&ok), EventAction::Record { ticket_id: 1, buyer_id: 2 });
    let mut bad = capturable("pi_1", 1, 2);
    bad.data.object.metadata.buyer_id = "not-a-uuid".to_string();
    assert_eq!(classify_event(&bad), EventAction::Malformed);
    let mut ex = Exchange::new();
    assert_eq!(ex.handle_payment_event(&bad, T0, WINDOW), WebhookOutcome::Malformed);
    assert_eq!(ex.handle_payment_event(&ignored, T0, WINDOW), WebhookOutcome::Ignored);
    assert!(ex.intents.is_empty());
}

#[test]
fn webhook_for_wrong_buyer_releases() {
    let mut ex = Exchange::new();
    verified_ticket(&mut ex, 7, 5000, "A", "7");
    ex.reserve_ticket(7, B1, T0 + 600, WINDOW, MAX).unwrap();
    let out = ex.handle_payment_event(&capturable("pi_x", 7, B2), T0 + 610, WINDOW);
    assert_eq!(out, WebhookOutcome::Release("pi_x".to_string()));
    assert_eq!(ticket(&ex, 7).status, TicketStatus::Reserved);
    assert_eq!(ex.intents[0].amount, 5000);
    assert_eq!(ex.intents[0].currency, "usd");
}

#[test]
fn listings_by_status_and_seller() {
    let mut ex = Exchange::new();
    verified_ticket(&mut ex, 1, 5000, "A", "1");
    let g = game();
    ex.create_ticket(2, SELLER + 1, Some(&g), &listing(10, "A", "2"), T0, 24).unwrap();
    let sale = ex.list_tickets();
    assert_eq!(sale.len(), 1);
    assert_eq!(sale[0].id, 1);
    assert_eq!(ex.my_listings(SELLER, None).len(), 1);
    assert_eq!(ex.my_listings(SELLER + 1, Some(TicketStatus::Unverified))[0].id, 2);
    assert!(ex.my_listings(SELLER + 1, Some(TicketStatus::Verified)).is_empty());
}

#[test]
fn admin_may_cancel_and_reprice_any_listing() {
    let mut ex = Exchange::new();
    verified_ticket(&mut ex, 7, 5000, "A", "7");
    assert_eq!(ex.update_price(7, Actor::Seller(B1), 10, T0), Err(AppError::Forbidden));
    ex.update_price(7, Actor::Admin, 4500, T0).unwrap();
    assert_eq!(ticket(&ex, 7).price, 4500);
    assert_eq!(ex.cancel_ticket(7, Actor::Seller(B2), T0 + 1), Err(AppError::Forbidden));
    let done = ex.cancel_ticket(7, Actor::Admin, T0 + 2).unwrap();
    assert_eq!(done.status, TicketStatus::Cancelled);
}

#[test]
fn my_listings_newest_first() {
    let mut ex = Exchange::new();
    let g = game();
    ex.create_ticket(1, SELLER, Some(&g), &listing(10, "A", "1"), T0, 24).unwrap();
    ex.create_ticket(2, SELLER, Some(&g), &listing(10, "A", "2"), T0 + 50, 24).unwrap();
    ex.create_ticket(3, SELLER, Some(&g), &listing(10, "A", "3"), T0 + 20, 24).unwrap();
    ex.create_ticket(4, SELLER + 9, Some(&g), &listing(10, "A", "4"), T0 + 99, 24).unwrap();
    let ids: Vec<u128> = ex.my_listings(SELLER, None).iter().map(|t| t.id).collect();
    assert_eq!(ids, vec![2, 3, 1]);
}

#[test]
fn public_listing_by_event_then_age() {
    let mut ex = Exchange::new();
    let early = Game { name: "Early".to_string(), game_time: T0 + 1000, ..game() };
    let late = game();
    let claim = |name: &str, n: &str| ClaimTicketRequest {
        event_name: name.to_string(),
        seat_section: "101".to_string(),
        seat_row: "A".to_string(),
        seat_number: n.to_string(),
    };
    for (id, g, n, at) in [(1u128, &late, "1", T0), (2, &early, "2", T0 + 30), (3, &early, "3", T0 + 10)] {
        ex.create_ticket(id, SELLER, Some(g), &listing(10, "A", n), at, 24).unwrap();
        ex.claim_ticket(&claim(&g.name, n), at + 1).unwrap();
        ex.verify_ticket(id, at + 2).unwrap();
    }
    let ids: Vec<u128> = ex.list_tickets().iter().map(|t| t.id).collect();
    assert_eq!(ids, vec![3, 2, 1]);
}

#[test]
fn authorization_with_parsed_ids() {
    let mut ex = Exchange::new();
    verified_ticket(&mut ex, 7, 5000, "A", "7");
    ex.reserve_ticket(7, B1, T0 + 600, WINDOW, MAX).unwrap();
    let pi = capturable("pi_9", 7, B1).data.object;
    assert_eq!(ex.record_authorization(&pi, 7, B2, T0 + 610, WINDOW), WebhookOutcome::Release("pi_9".to_string()));
    assert_eq!(ex.record_authorization(&pi, 7, B1, T0 + 611, WINDOW), WebhookOutcome::Duplicate);
    assert_eq!(ticket(&ex, 7).status, TicketStatus::Reserved);
    let pi2 = capturable("pi_10", 7, B1).data.object;
    assert_eq!(ex.record_authorization(&pi2, 7, B1, T0 + 612, WINDOW), WebhookOutcome::Capture("pi_10".to_string()));
    assert_eq!(ticket(&ex, 7).status, TicketStatus::Paid);
    assert_eq!(ex.intents.len(), 2);
}

#[test]
fn contended_reservation_either_order() {
    for (first, second) in [(B1, B2), (B2, B1)] {
        let mut ex = Exchange::new();
        verified_ticket(&mut ex, 7, 5000, "A", "7");
        assert!(ex.reserve_ticket(7, first, T0 + 600, 0, MAX).is_ok());
        assert_eq!(ex.reserve_ticket(7, second, T0 + 600, 0, MAX), Err(AppError::TicketUnavailable));
        assert_eq!(ticket(&ex, 7).reserved_by, Some(first));
    }
}
