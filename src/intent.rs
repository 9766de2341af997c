//! The payment-intent record, the instruction accounts, the notifications and
//! the error codes.
use vstd::prelude::*;

verus! {

/// Where an intent stands. `Expired` is reserved: no operation moves a record
/// into it.
#[derive(Clone, Copy, Debug, PartialEq, Eq, Structural)]
pub enum IntentStatus {
    Pending,
    Paid,
    Expired,
}

impl IntentStatus {
    /// The one-byte code under which the status is stored.
    pub open spec fn spec_code(self) -> u8 {
        match self {
            IntentStatus::Pending => 0,
            IntentStatus::Paid => 1,
            IntentStatus::Expired => 2,
        }
    }

    pub fn code(&self) -> (r: u8)
        ensures
            r == self.spec_code(),
    {
        match self {
            IntentStatus::Pending => 0,
            IntentStatus::Paid => 1,
            IntentStatus::Expired => 2,
        }
    }
}

/// Why an operation was refused. Every refusal leaves the ledger unchanged.
#[derive(Clone, Copy, Debug, PartialEq, Eq, Structural)]
pub enum ErrorCode {
    /// The amount offered differs from the intent's amount.
    InvalidAmount,
    /// The nonce offered differs from the intent's nonce.
    InvalidNonce,
    /// The intent is no longer pending.
    PaymentAlreadyProcessed,
    /// A record already stands under the identifier.
    AllocationConflict,
    /// The requesting account did not sign the request.
    AuthorizationFailure,
    /// No record stands under the identifier.
    IntentNotFound,
}

impl ErrorCode {
    /// A sentence for the user.
    pub fn message(&self) -> (r: &'static str)
        ensures
            r@ == match self {
                ErrorCode::InvalidAmount => "The provided amount does not match the payment intent amount"@,
                ErrorCode::InvalidNonce => "The provided nonce does not match the payment intent nonce"@,
                ErrorCode::PaymentAlreadyProcessed => "Payment has already been processed"@,
                ErrorCode::AllocationConflict => "A payment intent already exists under this identifier"@,
                ErrorCode::AuthorizationFailure => "The requesting account did not sign the request"@,
                ErrorCode::IntentNotFound => "No payment intent exists under this identifier"@,
            },
    {
        let r = match self {
            ErrorCode::InvalidAmount => "The provided amount does not match the payment intent amount",
            ErrorCode::InvalidNonce => "The provided nonce does not match the payment intent nonce",
            ErrorCode::PaymentAlreadyProcessed => "Payment has already been processed",
            ErrorCode::AllocationConflict => "A payment intent already exists under this identifier",
            ErrorCode::AuthorizationFailure => "The requesting account did not sign the request",
            ErrorCode::IntentNotFound => "No payment intent exists under this identifier",
        };
        r
    }
}

/// One persistent payment intent.
#[derive(Clone, Debug)]
pub struct PaymentIntent {
    pub id: String,
    /// The key of the account entitled to the payment.
    pub merchant: [u8; 32],
    pub amount: u64,
    pub status: IntentStatus,
    pub nonce: [u8; 32],
    /// Empty while pending; once paid, the printed key of the payer.
    pub tx_signature: String,
    /// Informational only: no decision reads it.
    pub created_at: i64,
}

/// A payment intent as a mathematical value.
pub ghost struct IntentView {
    pub id: Seq<char>,
    pub merchant: Seq<u8>,
    pub amount: u64,
    pub status: IntentStatus,
    pub nonce: Seq<u8>,
    pub tx_signature: Seq<char>,
    pub created_at: i64,
}

impl View for PaymentIntent {
    type V = IntentView;

    open spec fn view(&self) -> IntentView {
        IntentView {
            id: self.id@,
            merchant: self.merchant@,
            amount: self.amount,
            status: self.status,
            nonce: self.nonce@,
            tx_signature: self.tx_signature@,
            created_at: self.created_at,
        }
    }
}

/// The settlement proof is empty exactly while the intent is pending, and the
/// intent is either pending or paid.
pub open spec fn proof_matches_status(v: IntentView) -> bool {
    ||| (v.status == IntentStatus::Pending && v.tx_signature.len() == 0)
    ||| (v.status == IntentStatus::Paid && v.tx_signature.len() > 0)
}

/// The accounts of a creation request: the merchant who asks.
#[derive(Clone, Copy, Debug)]
pub struct CreatePaymentIntent {
    pub merchant: [u8; 32],
    pub merchant_is_signer: bool,
}

/// The accounts of a settlement request: the payer who settles.
#[derive(Clone, Copy, Debug)]
pub struct PayInvoice {
    pub payer: [u8; 32],
    pub payer_is_signer: bool,
}

/// Published when an intent is created.
#[derive(Clone, Debug)]
pub struct PaymentIntentCreated {
    pub payment_intent_id: String,
    pub merchant_pubkey: [u8; 32],
    pub amount: u64,
}

/// Published when an intent is settled.
#[derive(Clone, Debug)]
pub struct PaymentEvent {
    pub payment_intent_id: String,
    pub merchant_pubkey: [u8; 32],
    pub amount: u64,
    pub tx_signature: String,
}

} // verus!
