use anchor_lang::prelude::Pubkey;
use tap_to_pay::{
    bytes32_equal, create_payment_intent, pay_invoice, CreatePaymentIntent, ErrorCode,
    IntentLedger, IntentStatus, PayInvoice,
};

const MERCHANT: [u8; 32] = [9u8; 32];
const PAYER_X: [u8; 32] = [42u8; 32];
const NONCE: [u8; 32] = [7u8; 32];

fn merchant() -> CreatePaymentIntent {
    CreatePaymentIntent { merchant: MERCHANT, merchant_is_signer: true }
}

fn payer_x() -> PayInvoice {
    PayInvoice { payer: PAYER_X, payer_is_signer: true }
}

fn printed(key: [u8; 32]) -> String {
    Pubkey::new_from_array(key).to_string()
}

fn ledger_with(id: &str, amount: u64, nonce: [u8; 32]) -> IntentLedger {
    let mut ledger = IntentLedger::new();
    create_payment_intent(&mut ledger, &merchant(), id.to_string(), amount, nonce, 1_700_000_000)
        .unwrap();
    ledger
}

#[test]
fn scenario_create_then_pay() {
    let mut ledger = IntentLedger::new();
    let created =
        create_payment_intent(&mut ledger, &merchant(), "inv-001".to_string(), 1000, NONCE, 17)
            .unwrap();
    assert_eq!(created.payment_intent_id, "inv-001");
    assert_eq!(created.merchant_pubkey, MERCHANT);
    assert_eq!(created.amount, 1000);
    let rec = ledger.get(&"inv-001".to_string()).unwrap();
    assert_eq!(rec.status, IntentStatus::Pending);
    assert_eq!(rec.amount, 1000);
    assert_eq!(rec.tx_signature, "");
    assert_eq!(rec.merchant, MERCHANT);
    assert_eq!(rec.nonce, NONCE);
    assert_eq!(rec.created_at, 17);

    let ev = pay_invoice(&mut ledger, &payer_x(), "inv-001".to_string(), 1000, NONCE).unwrap();
    assert_eq!(ev.payment_intent_id, "inv-001");
    assert_eq!(ev.merchant_pubkey, MERCHANT);
    assert_eq!(ev.amount, 1000);
    assert_eq!(ev.tx_signature, printed(PAYER_X));
    let rec = ledger.get(&"inv-001".to_string()).unwrap();
    assert_eq!(rec.status, IntentStatus::Paid);
    assert_eq!(rec.amount, 1000);
    assert_eq!(rec.tx_signature, printed(PAYER_X));
}

#[test]
fn scenario_second_pay_is_refused() {
    let mut ledger = ledger_with("inv-001", 1000, NONCE);
    pay_invoice(&mut ledger, &payer_x(), "inv-001".to_string(), 1000, NONCE).unwrap();
    let r = pay_invoice(&mut ledger, &payer_x(), "inv-001".to_string(), 1000, NONCE);
    assert_eq!(r.unwrap_err(), ErrorCode::PaymentAlreadyProcessed);
    let rec = ledger.get(&"inv-001".to_string()).unwrap();
    assert_eq!(rec.status, IntentStatus::Paid);
    assert_eq!(rec.tx_signature, printed(PAYER_X));
    assert_eq!(rec.amount, 1000);
}

#[test]
fn scenario_wrong_nonce_is_refused() {
    let mut ledger = ledger_with("inv-002", 500, NONCE);
    let other = [8u8; 32];
    let r = pay_invoice(&mut ledger, &payer_x(), "inv-002".to_string(), 500, other);
    assert_eq!(r.unwrap_err(), ErrorCode::InvalidNonce);
    let rec = ledger.get(&"inv-002".to_string()).unwrap();
    assert_eq!(rec.status, IntentStatus::Pending);
    assert_eq!(rec.tx_signature, "");
}

#[test]
fn scenario_unknown_intent() {
    let mut ledger = ledger_with("inv-001", 1000, NONCE);
    let r = pay_invoice(&mut ledger, &payer_x(), "inv-003".to_string(), 1000, NONCE);
    assert_eq!(r.unwrap_err(), ErrorCode::IntentNotFound);
    assert!(ledger.get(&"inv-003".to_string()).is_none());
    assert_eq!(ledger.len(), 1);
}

#[test]
fn second_create_conflicts_and_keeps_record() {
    let mut ledger = ledger_with("inv-001", 1000, NONCE);
    let other_merchant = CreatePaymentIntent { merchant: [3u8; 32], merchant_is_signer: true };
    let r = create_payment_intent(&mut ledger, &other_merchant, "inv-001".to_string(), 5, [1u8; 32], 99);
    assert_eq!(r.unwrap_err(), ErrorCode::AllocationConflict);
    let rec = ledger.get(&"inv-001".to_string()).unwrap();
    assert_eq!(rec.merchant, MERCHANT);
    assert_eq!(rec.amount, 1000);
    assert_eq!(rec.nonce, NONCE);
    assert_eq!(rec.created_at, 1_700_000_000);
    assert_eq!(ledger.len(), 1);
}

#[test]
fn conflict_comes_before_authorization() {
    let mut ledger = ledger_with("inv-001", 1000, NONCE);
    let unsigned = CreatePaymentIntent { merchant: MERCHANT, merchant_is_signer: false };
    let r = create_payment_intent(&mut ledger, &unsigned, "inv-001".to_string(), 1000, NONCE, 0);
    assert_eq!(r.unwrap_err(), ErrorCode::AllocationConflict);
}

#[test]
fn unsigned_create_is_refused() {
    let mut ledger = IntentLedger::new();
    let unsigned = CreatePaymentIntent { merchant: MERCHANT, merchant_is_signer: false };
    let r = create_payment_intent(&mut ledger, &unsigned, "inv-009".to_string(), 1, NONCE, 0);
    assert_eq!(r.unwrap_err(), ErrorCode::AuthorizationFailure);
    assert_eq!(ledger.len(), 0);
}

#[test]
fn unsigned_pay_is_refused() {
    let mut ledger = ledger_with("inv-001", 1000, NONCE);
    let unsigned = PayInvoice { payer: PAYER_X, payer_is_signer: false };
    let r = pay_invoice(&mut ledger, &unsigned, "inv-001".to_string(), 1000, NONCE);
    assert_eq!(r.unwrap_err(), ErrorCode::AuthorizationFailure);
    assert_eq!(ledger.get(&"inv-001".to_string()).unwrap().status, IntentStatus::Pending);
}

#[test]
fn amount_off_by_one_is_refused() {
    let mut ledger = ledger_with("inv-001", 1000, NONCE);
    for amount in [999u64, 1001u64] {
        let r = pay_invoice(&mut ledger, &payer_x(), "inv-001".to_string(), amount, NONCE);
        assert_eq!(r.unwrap_err(), ErrorCode::InvalidAmount);
    }
    let rec = ledger.get(&"inv-001".to_string()).unwrap();
    assert_eq!(rec.status, IntentStatus::Pending);
    assert_eq!(rec.amount, 1000);
    assert_eq!(rec.nonce, NONCE);
    assert_eq!(rec.tx_signature, "");
}

#[test]
fn nonce_with_one_bit_flipped_is_refused() {
    let mut ledger = ledger_with("inv-001", 1000, NONCE);
    for byte in [0usize, 17, 31] {
        for bit in 0..8u8 {
            let mut flipped = NONCE;
            flipped[byte] ^= 1 << bit;
            let r = pay_invoice(&mut ledger, &payer_x(), "inv-001".to_string(), 1000, flipped);
            assert_eq!(r.unwrap_err(), ErrorCode::InvalidNonce);
        }
    }
    let rec = ledger.get(&"inv-001".to_string()).unwrap();
    assert_eq!(rec.status, IntentStatus::Pending);
    assert_eq!(rec.nonce, NONCE);
}

#[test]
fn amount_is_checked_before_nonce() {
    let mut ledger = ledger_with("inv-001", 1000, NONCE);
    let r = pay_invoice(&mut ledger, &payer_x(), "inv-001".to_string(), 1, [0u8; 32]);
    assert_eq!(r.unwrap_err(), ErrorCode::InvalidAmount);
}

#[test]
fn only_one_of_many_payments_settles() {
    let mut ledger = ledger_with("inv-001", 1000, NONCE);
    let payers = [[1u8; 32], [2u8; 32], [3u8; 32], [4u8; 32]];
    let mut settled = 0;
    for p in payers {
        let ctx = PayInvoice { payer: p, payer_is_signer: true };
        match pay_invoice(&mut ledger, &ctx, "inv-001".to_string(), 1000, NONCE) {
            Ok(_) => settled += 1,
            Err(e) => assert_eq!(e, ErrorCode::PaymentAlreadyProcessed),
        }
    }
    assert_eq!(settled, 1);
    assert_eq!(ledger.get(&"inv-001".to_string()).unwrap().tx_signature, printed([1u8; 32]));
}

#[test]
fn terms_never_change_under_payments() {
    let mut ledger = ledger_with("inv-001", 1000, NONCE);
    let _ = pay_invoice(&mut ledger, &payer_x(), "inv-001".to_string(), 7, NONCE);
    let _ = pay_invoice(&mut ledger, &payer_x(), "inv-001".to_string(), 1000, [0u8; 32]);
    let _ = pay_invoice(&mut ledger, &payer_x(), "inv-001".to_string(), 1000, NONCE);
    let _ = pay_invoice(&mut ledger, &payer_x(), "inv-001".to_string(), 1000, NONCE);
    let rec = ledger.get(&"inv-001".to_string()).unwrap();
    assert_eq!(rec.id, "inv-001");
    assert_eq!(rec.merchant, MERCHANT);
    assert_eq!(rec.amount, 1000);
    assert_eq!(rec.nonce, NONCE);
    assert_eq!(rec.created_at, 1_700_000_000);
}

#[test]
fn proof_present_exactly_when_paid() {
    let mut ledger = ledger_with("a", 1, NONCE);
    create_payment_intent(&mut ledger, &merchant(), "b".to_string(), 2, NONCE, 0).unwrap();
    pay_invoice(&mut ledger, &payer_x(), "b".to_string(), 2, NONCE).unwrap();
    for id in ["a", "b"] {
        let rec = ledger.get(&id.to_string()).unwrap();
        assert_eq!(rec.tx_signature.is_empty(), rec.status == IntentStatus::Pending);
        assert_eq!(!rec.tx_signature.is_empty(), rec.status == IntentStatus::Paid);
    }
}

#[test]
fn zero_amount_and_empty_id_are_accepted() {
    let mut ledger = IntentLedger::new();
    create_payment_intent(&mut ledger, &merchant(), String::new(), 0, NONCE, 0).unwrap();
    let ev = pay_invoice(&mut ledger, &payer_x(), String::new(), 0, NONCE).unwrap();
    assert_eq!(ev.amount, 0);
    assert_eq!(ledger.get(&String::new()).unwrap().status, IntentStatus::Paid);
}

#[test]
fn intents_are_independent() {
    let mut ledger = ledger_with("inv-001", 1000, NONCE);
    create_payment_intent(&mut ledger, &merchant(), "inv-002".to_string(), 500, [1u8; 32], 0)
        .unwrap();
    pay_invoice(&mut ledger, &payer_x(), "inv-002".to_string(), 500, [1u8; 32]).unwrap();
    assert_eq!(ledger.get(&"inv-001".to_string()).unwrap().status, IntentStatus::Pending);
    assert_eq!(ledger.get(&"inv-002".to_string()).unwrap().status, IntentStatus::Paid);
    assert_eq!(ledger.len(), 2);
}

#[test]
fn proof_is_the_base58_key_of_the_payer() {
    let mut ledger = ledger_with("k", 1, NONCE);
    let zero = PayInvoice { payer: [0u8; 32], payer_is_signer: true };
    let ev = pay_invoice(&mut ledger, &zero, "k".to_string(), 1, NONCE).unwrap();
    assert_eq!(ev.tx_signature, "11111111111111111111111111111111");
}

#[test]
fn status_codes() {
    assert_eq!(IntentStatus::Pending.code(), 0);
    assert_eq!(IntentStatus::Paid.code(), 1);
    assert_eq!(IntentStatus::Expired.code(), 2);
}

#[test]
fn error_messages() {
    assert_eq!(
        ErrorCode::InvalidAmount.message(),
        "The provided amount does not match the payment intent amount"
    );
    assert_eq!(
        ErrorCode::InvalidNonce.message(),
        "The provided nonce does not match the payment intent nonce"
    );
    assert_eq!(ErrorCode::PaymentAlreadyProcessed.message(), "Payment has already been processed");
    assert!(!ErrorCode::AllocationConflict.message().is_empty());
    assert!(!ErrorCode::AuthorizationFailure.message().is_empty());
    assert!(!ErrorCode::IntentNotFound.message().is_empty());
}

#[test]
fn byte_comparison() {
    let a = [5u8; 32];
    let mut b = a;
    assert!(bytes32_equal(&a, &b));
    b[31] = 6;
    assert!(!bytes32_equal(&a, &b));
    b = a;
    b[0] = 0;
    assert!(!bytes32_equal(&a, &b));
}
