//! Payment intents: a merchant registers an amount under an identifier and a
//! one-time nonce; a payer settles it exactly once.
pub mod identity;
pub mod intent;
pub mod laws;
pub mod ledger;

pub use identity::bytes32_equal;
pub use intent::{
    CreatePaymentIntent, ErrorCode, IntentStatus, PayInvoice, PaymentEvent, PaymentIntent,
    PaymentIntentCreated,
};
pub use ledger::{create_payment_intent, pay_invoice, IntentLedger};
