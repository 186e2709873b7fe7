use vstd::prelude::*;

verus! {

/// Status of the mirror of a processor authorization.
#[derive(Debug, Clone, Copy, PartialEq, Eq, Structural)]
pub enum PaymentIntentStatus {
    Created,
    Capturable,
    Captured,
    Cancelled,
}

/// Mirror of the processor's authorization. Times are Unix seconds.
#[derive(Debug, PartialEq, Eq)]
pub struct PaymentIntent {
    pub id: String,
    pub ticket_id: u128,
    pub buyer_id: u128,
    pub amount: i64,
    pub currency: String,
    pub status: PaymentIntentStatus,
    pub created_at: i64,
    pub updated_at: i64,
}

/// A processor event, as delivered to the webhook.
#[derive(Debug)]
pub struct StripeWebhookEvent {
    pub id: Option<String>,
    pub event_type: String,
    pub data: StripeWebhookData,
}

#[derive(Debug)]
pub struct StripeWebhookData {
    pub object: StripePaymentIntent,
}

#[derive(Debug)]
pub struct StripePaymentIntent {
    pub id: String,
    pub amount: i64,
    pub currency: String,
    pub status: String,
    pub metadata: StripeMetadata,
}

#[derive(Debug)]
pub struct StripeMetadata {
    pub ticket_id: String,
    pub buyer_id: String,
    pub reserved_at: String,
}

} // verus!
