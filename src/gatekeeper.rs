//! The payment gatekeeper: a processor event that reports an authorization is
//! recorded once, and decides whether the hold is captured (the buyer still holds a
//! fresh lease on the ticket) or released.
use crate::calls::{parse_uuid, uuid_text};
use crate::exchange::{
    has_ticket, holds_fresh_lease, index_of, intents_wf, lemma_index_of, lemma_update_wf,
    minutes_before, minutes_before_now, tickets_wf, Exchange,
};
use crate::models::payment_intent::{
    PaymentIntent, PaymentIntentStatus, StripePaymentIntent, StripeWebhookEvent,
};
use crate::models::ticket::{moved, Ticket, TicketStatus};
use crate::text::same_text;
use vstd::prelude::*;

verus! {

/// What an incoming event calls for.
#[derive(Debug, Clone, Copy, PartialEq, Eq, Structural)]
pub enum EventAction {
    /// Not an authorization event: acknowledge and drop.
    Ignore,
    /// An authorization event whose metadata holds no valid ticket or buyer id.
    Malformed,
    /// An authorization of `buyer_id` for `ticket_id`.
    Record { ticket_id: u128, buyer_id: u128 },
}

/// What handling an event did, and which processor call it asks for.
#[derive(Debug, PartialEq, Eq)]
pub enum WebhookOutcome {
    Ignored,
    Malformed,
    /// The intent was already recorded: nothing was done.
    Duplicate,
    /// The ticket was paid: the intent with this id is to be captured.
    Capture(String),
    /// The lease had lapsed or moved on: the intent with this id is to be cancelled.
    Release(String),
}

/// The event type that reports funds authorized and awaiting capture.
pub open spec fn capturable_event_type() -> Seq<char> {
    "payment_intent.amount_capturable_updated"@
}

/// What an event calls for.
pub open spec fn event_action(ev: StripeWebhookEvent) -> EventAction {
    if ev.event_type@ != capturable_event_type() {
        EventAction::Ignore
    } else {
        match (
            uuid_text(ev.data.object.metadata.ticket_id@),
            uuid_text(ev.data.object.metadata.buyer_id@),
        ) {
            (Some(t), Some(b)) => EventAction::Record { ticket_id: t, buyer_id: b },
            _ => EventAction::Malformed,
        }
    }
}

/// Sorts an event by what it calls for.
pub fn classify_event(ev: &StripeWebhookEvent) -> (r: EventAction)
    ensures
        r == event_action(*ev),
{
    proof {
        reveal_strlit("payment_intent.amount_capturable_updated");
    }
    if !same_text(ev.event_type.as_str(), "payment_intent.amount_capturable_updated") {
        return EventAction::Ignore;
    }
    let ticket = parse_uuid(ev.data.object.metadata.ticket_id.as_str());
    let buyer = parse_uuid(ev.data.object.metadata.buyer_id.as_str());
    match (ticket, buyer) {
        (Some(t), Some(b)) => EventAction::Record { ticket_id: t, buyer_id: b },
        _ => EventAction::Malformed,
    }
}

/// An intent with this id is recorded.
pub open spec fn has_intent(s: Seq<PaymentIntent>, id: Seq<char>) -> bool {
    exists|i: int| 0 <= i < s.len() && s[i].id@ == id
}

/// The gatekeeper check: the ticket is leased to the buyer, and the lease is fresh.
pub open spec fn gate_open(s: Seq<Ticket>, ticket_id: u128, buyer_id: u128, cutoff: int) -> bool {
    has_ticket(s, ticket_id) && holds_fresh_lease(s[index_of(s, ticket_id)], buyer_id, cutoff)
}

/// The row that records an intent.
pub open spec fn intent_row(
    pi: StripePaymentIntent,
    ticket_id: u128,
    buyer_id: u128,
    status: PaymentIntentStatus,
    now: i64,
) -> PaymentIntent {
    PaymentIntent {
        id: pi.id,
        ticket_id: ticket_id,
        buyer_id: buyer_id,
        amount: pi.amount,
        currency: pi.currency,
        status: status,
        created_at: now,
        updated_at: now,
    }
}

/// The rows and the outcome after an authorization of `buyer_id` for `ticket_id` is
/// handled at `now`: recorded once, then captured if the buyer's lease is fresh,
/// else released.
pub open spec fn after_authorization(
    tickets: Seq<Ticket>,
    intents: Seq<PaymentIntent>,
    pi: StripePaymentIntent,
    ticket_id: u128,
    buyer_id: u128,
    now: i64,
    window_minutes: i64,
) -> (Seq<Ticket>, Seq<PaymentIntent>, WebhookOutcome) {
    if has_intent(intents, pi.id@) {
        (tickets, intents, WebhookOutcome::Duplicate)
    } else if gate_open(tickets, ticket_id, buyer_id, minutes_before(now, window_minutes)) {
        let i = index_of(tickets, ticket_id);
        (
            tickets.update(i, moved(tickets[i], TicketStatus::Paid, now)),
            intents.push(intent_row(pi, ticket_id, buyer_id, PaymentIntentStatus::Captured, now)),
            WebhookOutcome::Capture(pi.id),
        )
    } else {
        (
            tickets,
            intents.push(intent_row(pi, ticket_id, buyer_id, PaymentIntentStatus::Cancelled, now)),
            WebhookOutcome::Release(pi.id),
        )
    }
}

/// The rows and the outcome after an event is handled at `now`.
pub open spec fn after_webhook(
    tickets: Seq<Ticket>,
    intents: Seq<PaymentIntent>,
    ev: StripeWebhookEvent,
    now: i64,
    window_minutes: i64,
) -> (Seq<Ticket>, Seq<PaymentIntent>, WebhookOutcome) {
    match event_action(ev) {
        EventAction::Ignore => (tickets, intents, WebhookOutcome::Ignored),
        EventAction::Malformed => (tickets, intents, WebhookOutcome::Malformed),
        EventAction::Record { ticket_id, buyer_id } => after_authorization(
            tickets,
            intents,
            ev.data.object,
            ticket_id,
            buyer_id,
            now,
            window_minutes,
        ),
    }
}

impl Exchange {
    /// Whether an intent with this id is recorded.
    pub fn intent_recorded(&self, id: &String) -> (r: bool)
        ensures
            r == has_intent(self.intents@, id@),
    {
        let mut i: usize = 0;
        while i < self.intents.len()
            invariant
                i <= self.intents@.len(),
                forall|j: int| 0 <= j < i ==> self.intents@[j].id@ != id@,
            decreases self.intents@.len() - i,
        {
            if self.intents[i].id == *id {
                return true;
            }
            i = i + 1;
        }
        false
    }

    /// Handles an authorization of `buyer_id` for `ticket_id`: records the intent once,
    /// then moves the ticket to `Paid` if the buyer's lease is still fresh, or leaves
    /// it alone. A redelivery finds the intent recorded and changes nothing.
    pub fn record_authorization(
        &mut self,
        pi: &StripePaymentIntent,
        ticket_id: u128,
        buyer_id: u128,
        now: i64,
        window_minutes: i64,
    ) -> (r: WebhookOutcome)
        requires
            old(self).wf(),
        ensures
            final(self).wf(),
            (final(self).tickets@, final(self).intents@, r) == after_authorization(
                old(self).tickets@,
                old(self).intents@,
                *pi,
                ticket_id,
                buyer_id,
                now,
                window_minutes,
            ),
            has_intent(final(self).intents@, pi.id@),
    {
        if self.intent_recorded(&pi.id) {
            return WebhookOutcome::Duplicate;
        }
        let cutoff = minutes_before_now(now, window_minutes);
        let ghost s = self.tickets@;
        let mut gate: Option<usize> = None;
        if let Some(i) = self.find_ticket(ticket_id) {
            proof {
                lemma_index_of(s, i as int);
            }
            let t = &self.tickets[i];
            let fresh = match t.reserved_at {
                Some(at) => at as i128 > cutoff,
                None => false,
            };
            if t.status == TicketStatus::Reserved && t.reserved_by == Some(buyer_id) && fresh {
                gate = Some(i);
            }
        }
        let status = match gate {
            Some(i) => {
                let mut t = self.tickets[i].clone();
                t.status = TicketStatus::Paid;
                t.updated_at = now;
                proof {
                    lemma_update_wf(s, i as int, t);
                }
                self.tickets.set(i, t);
                PaymentIntentStatus::Captured
            },
            None => PaymentIntentStatus::Cancelled,
        };
        let row = PaymentIntent {
            id: pi.id.clone(),
            ticket_id: ticket_id,
            buyer_id: buyer_id,
            amount: pi.amount,
            currency: pi.currency.clone(),
            status: status,
            created_at: now,
            updated_at: now,
        };
        let ghost old_intents = self.intents@;
        self.intents.push(row);
        proof {
            let u = self.intents@;
            assert forall|a: int, b: int| 0 <= a < b < u.len() implies (#[trigger] u[a]).id@ != (
            #[trigger] u[b]).id@ by {
                if b == old_intents.len() {
                    assert(u[a] == old_intents[a]);
                }
            }
            assert(u[old_intents.len() as int].id@ == pi.id@);
        }
        match gate {
            Some(_) => WebhookOutcome::Capture(pi.id.clone()),
            None => WebhookOutcome::Release(pi.id.clone()),
        }
    }

    /// Handles a processor event: an authorization event is recorded and decided by
    /// `record_authorization`; any other event, or one whose metadata holds no valid
    /// ids, changes nothing.
    pub fn handle_payment_event(
        &mut self,
        ev: &StripeWebhookEvent,
        now: i64,
        window_minutes: i64,
    ) -> (r: WebhookOutcome)
        requires
            old(self).wf(),
        ensures
            final(self).wf(),
            (final(self).tickets@, final(self).intents@, r) == after_webhook(
                old(self).tickets@,
                old(self).intents@,
                *ev,
                now,
                window_minutes,
            ),
            event_action(*ev) is Record ==> has_intent(final(self).intents@, ev.data.object.id@),
            has_intent(old(self).intents@, ev.data.object.id@) ==> final(self).tickets@ == old(
                self,
            ).tickets@ && final(self).intents@ == old(self).intents@ && !(r is Capture)
                && !(r is Release),
    {
        match classify_event(ev) {
            EventAction::Ignore => WebhookOutcome::Ignored,
            EventAction::Malformed => WebhookOutcome::Malformed,
            EventAction::Record { ticket_id, buyer_id } => self.record_authorization(
                &ev.data.object,
                ticket_id,
                buyer_id,
                now,
                window_minutes,
            ),
        }
    }
}

} // verus!
