//! What holds across calls: settlement happens at most once, the terms of an
//! intent never change, and only an exact amount and nonce settle it.
use vstd::prelude::*;

use crate::intent::{ErrorCode, IntentStatus};
use crate::ledger::{pay_error, pay_next, IntentLedger, IntentMap};

verus! {

/// One settlement request, as a value.
pub ghost struct PayRequest {
    pub id: Seq<char>,
    pub amount: u64,
    pub nonce: Seq<u8>,
    pub payer: Seq<u8>,
    pub payer_is_signer: bool,
}

/// Whether the request settles its intent in ledger `m`.
pub open spec fn request_settles(m: IntentMap, c: PayRequest) -> bool {
    pay_error(m, c.id, c.amount, c.nonce, c.payer_is_signer) is None
}

/// The ledger after the request.
pub open spec fn request_next(m: IntentMap, c: PayRequest) -> IntentMap {
    pay_next(m, c.id, c.amount, c.nonce, c.payer, c.payer_is_signer)
}

/// The ledger after the requests, handled one after another.
pub open spec fn pay_all(m: IntentMap, cs: Seq<PayRequest>) -> IntentMap
    decreases cs.len(),
{
    if cs.len() == 0 {
        m
    } else {
        pay_all(request_next(m, cs[0]), cs.drop_first())
    }
}

/// How many of the requests, handled one after another, settle the intent `id`.
pub open spec fn settlements(m: IntentMap, cs: Seq<PayRequest>, id: Seq<char>) -> nat
    decreases cs.len(),
{
    if cs.len() == 0 {
        0
    } else {
        (if cs[0].id == id && request_settles(m, cs[0]) {
            1nat
        } else {
            0nat
        }) + settlements(request_next(m, cs[0]), cs.drop_first(), id)
    }
}

/// Whatever requests come, one after another, at most one of them settles a
/// given intent, and none does once it is no longer pending.
pub proof fn lemma_single_settlement(m: IntentMap, cs: Seq<PayRequest>, id: Seq<char>)
    ensures
        settlements(m, cs, id) <= 1,
        !(m.contains_key(id) && m[id].status == IntentStatus::Pending) ==> settlements(m, cs, id)
            == 0,
    decreases cs.len(),
{
    if cs.len() > 0 {
        let c = cs[0];
        let m2 = request_next(m, c);
        lemma_single_settlement(m2, cs.drop_first(), id);
        if c.id == id && request_settles(m, c) {
            assert(m2[id].status == IntentStatus::Paid);
        } else if c.id != id {
            assert(m2.contains_key(id) == m.contains_key(id));
            if m.contains_key(id) {
                assert(m2[id] == m[id]);
            }
        }
    }
}

/// Once an intent is paid, every further request for it is refused and changes
/// nothing; a signed one is refused with `PaymentAlreadyProcessed`.
pub proof fn lemma_paid_is_final(
    m: IntentMap,
    id: Seq<char>,
    amount: u64,
    nonce: Seq<u8>,
    payer: Seq<u8>,
    payer_is_signer: bool,
)
    requires
        m.contains_key(id),
        m[id].status == IntentStatus::Paid,
    ensures
        pay_error(m, id, amount, nonce, payer_is_signer) is Some,
        payer_is_signer ==> pay_error(m, id, amount, nonce, payer_is_signer) == Some(
            ErrorCode::PaymentAlreadyProcessed,
        ),
        pay_next(m, id, amount, nonce, payer, payer_is_signer) == m,
{
}

/// No sequence of settlement requests, successful or not, removes an intent or
/// changes its identifier, merchant, amount, nonce or creation time.
pub proof fn lemma_terms_write_once(m: IntentMap, cs: Seq<PayRequest>, id: Seq<char>)
    requires
        m.contains_key(id),
    ensures
        pay_all(m, cs).dom() == m.dom(),
        pay_all(m, cs)[id].id == m[id].id,
        pay_all(m, cs)[id].merchant == m[id].merchant,
        pay_all(m, cs)[id].amount == m[id].amount,
        pay_all(m, cs)[id].nonce == m[id].nonce,
        pay_all(m, cs)[id].created_at == m[id].created_at,
    decreases cs.len(),
{
    if cs.len() > 0 {
        let m2 = request_next(m, cs[0]);
        assert(m2.dom() =~= m.dom());
        lemma_terms_write_once(m2, cs.drop_first(), id);
    }
}

/// On a pending intent, a signed request whose amount differs from the
/// intent's (by one, or by anything) is refused with `InvalidAmount`, even with
/// the right nonce, and changes nothing.
pub proof fn lemma_amount_must_match(
    m: IntentMap,
    id: Seq<char>,
    other_amount: u64,
    payer: Seq<u8>,
)
    requires
        m.contains_key(id),
        m[id].status == IntentStatus::Pending,
        other_amount != m[id].amount,
    ensures
        pay_error(m, id, other_amount, m[id].nonce, true) == Some(ErrorCode::InvalidAmount),
        pay_next(m, id, other_amount, m[id].nonce, payer, true) == m,
{
}

/// On a pending intent, a signed request with the right amount and a nonce
/// that is the intent's with one bit flipped is refused with `InvalidNonce`,
/// and changes nothing.
pub proof fn lemma_nonce_must_match(
    m: IntentMap,
    id: Seq<char>,
    byte: int,
    bit: u8,
    payer: Seq<u8>,
)
    requires
        m.contains_key(id),
        m[id].status == IntentStatus::Pending,
        0 <= byte < m[id].nonce.len(),
        bit < 8,
    ensures
        ({
            let flipped = m[id].nonce.update(byte, m[id].nonce[byte] ^ (1u8 << bit));
            &&& pay_error(m, id, m[id].amount, flipped, true) == Some(ErrorCode::InvalidNonce)
            &&& pay_next(m, id, m[id].amount, flipped, payer, true) == m
        }),
{
    let x = m[id].nonce[byte];
    assert(x ^ (1u8 << bit) != x) by (bit_vector)
        requires
            bit < 8,
    ;
    let flipped = m[id].nonce.update(byte, x ^ (1u8 << bit));
    assert(flipped[byte] != m[id].nonce[byte]);
}

} // verus!
