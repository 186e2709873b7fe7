pub mod game;
pub mod payment_intent;
pub mod ticket;
pub mod user;
