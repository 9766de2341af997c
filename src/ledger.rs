//! The store of payment intents, keyed by identifier, and the two operations on
//! it: creation and settlement.
use vstd::prelude::*;

use crate::identity::{bytes32_equal, key_to_string, pubkey_text};
use crate::intent::{
    proof_matches_status, CreatePaymentIntent, ErrorCode, IntentStatus, IntentView, PayInvoice,
    PaymentEvent, PaymentIntent, PaymentIntentCreated,
};

verus! {

/// The ledger as a mathematical value: each identifier in use to its record.
pub type IntentMap = Map<Seq<char>, IntentView>;

/// Every record is filed under its own identifier, and its settlement proof is
/// empty exactly while it is pending.
pub open spec fn intents_well_formed(m: IntentMap) -> bool {
    forall|k: Seq<char>| #[trigger]
        m.contains_key(k) ==> m[k].id == k && proof_matches_status(m[k])
}

/// The record that a successful creation files.
pub open spec fn pending_record(
    id: Seq<char>,
    merchant: Seq<u8>,
    amount: u64,
    nonce: Seq<u8>,
    created_at: i64,
) -> IntentView {
    IntentView {
        id,
        merchant,
        amount,
        status: IntentStatus::Pending,
        nonce,
        tx_signature: Seq::empty(),
        created_at,
    }
}

/// Why a creation is refused, if it is.
pub open spec fn create_error(m: IntentMap, id: Seq<char>, merchant_is_signer: bool) -> Option<
    ErrorCode,
> {
    if m.contains_key(id) {
        Some(ErrorCode::AllocationConflict)
    } else if !merchant_is_signer {
        Some(ErrorCode::AuthorizationFailure)
    } else {
        None
    }
}

/// Why a settlement is refused, if it is. The checks come in this order.
pub open spec fn pay_error(
    m: IntentMap,
    id: Seq<char>,
    amount: u64,
    nonce: Seq<u8>,
    payer_is_signer: bool,
) -> Option<ErrorCode> {
    if !m.contains_key(id) {
        Some(ErrorCode::IntentNotFound)
    } else if !payer_is_signer {
        Some(ErrorCode::AuthorizationFailure)
    } else if m[id].status != IntentStatus::Pending {
        Some(ErrorCode::PaymentAlreadyProcessed)
    } else if m[id].amount != amount {
        Some(ErrorCode::InvalidAmount)
    } else if m[id].nonce != nonce {
        Some(ErrorCode::InvalidNonce)
    } else {
        None
    }
}

/// A record after settlement by `payer`.
pub open spec fn settled(v: IntentView, payer: Seq<u8>) -> IntentView {
    IntentView { status: IntentStatus::Paid, tx_signature: pubkey_text(payer), ..v }
}

/// The ledger after a settlement request.
pub open spec fn pay_next(
    m: IntentMap,
    id: Seq<char>,
    amount: u64,
    nonce: Seq<u8>,
    payer: Seq<u8>,
    payer_is_signer: bool,
) -> IntentMap {
    if pay_error(m, id, amount, nonce, payer_is_signer) is None {
        m.insert(id, settled(m[id], payer))
    } else {
        m
    }
}

/// All payment intents, at most one per identifier.
pub struct IntentLedger {
    records: Vec<PaymentIntent>,
}

impl View for IntentLedger {
    type V = IntentMap;

    closed spec fn view(&self) -> IntentMap {
        Map::new(
            |k: Seq<char>| exists|i: int| 0 <= i < self.records@.len() && self.records@[i].id@ == k,
            |k: Seq<char>|
                self.records@[choose|i: int|
                    0 <= i < self.records@.len() && self.records@[i].id@ == k]@,
        )
    }
}

impl IntentLedger {
    /// No two records share an identifier, and each is pending or paid with a
    /// matching proof.
    pub closed spec fn wf(&self) -> bool {
        &&& forall|i: int, j: int|
            0 <= i < j < self.records@.len() ==> #[trigger] self.records@[i].id@
                != #[trigger] self.records@[j].id@
        &&& forall|i: int|
            0 <= i < self.records@.len() ==> proof_matches_status(#[trigger] self.records@[i]@)
    }

    proof fn lemma_view_at(&self, i: int)
        requires
            self.wf(),
            0 <= i < self.records@.len(),
        ensures
            self@.contains_key(self.records@[i].id@),
            self@[self.records@[i].id@] == self.records@[i]@,
    {
        let k = self.records@[i].id@;
        assert(0 <= i < self.records@.len() && self.records@[i].id@ == k);
        let j = choose|j: int| 0 <= j < self.records@.len() && self.records@[j].id@ == k;
        if j < i {
            assert(self.records@[j].id@ != self.records@[i].id@);
        } else if i < j {
            assert(self.records@[i].id@ != self.records@[j].id@);
        }
    }

    proof fn lemma_well_formed(&self)
        requires
            self.wf(),
        ensures
            intents_well_formed(self@),
    {
        assert forall|k: Seq<char>| #[trigger] self@.contains_key(k) implies self@[k].id == k
            && proof_matches_status(self@[k]) by {
            let i = choose|i: int| 0 <= i < self.records@.len() && self.records@[i].id@ == k;
            self.lemma_view_at(i);
        }
    }

    /// An empty ledger.
    pub fn new() -> (r: IntentLedger)
        ensures
            r.wf(),
            r@ == IntentMap::empty(),
    {
        let r = IntentLedger { records: Vec::new() };
        assert(r@ =~= IntentMap::empty());
        r
    }

    /// The number of intents.
    pub fn len(&self) -> (r: usize)
        requires
            self.wf(),
        ensures
            r == self@.len(),
    {
        proof {
            self.lemma_len();
        }
        self.records.len()
    }

    proof fn lemma_len(&self)
        requires
            self.wf(),
        ensures
            self@.len() == self.records@.len(),
    {
        let ids = Seq::new(self.records@.len(), |i: int| self.records@[i].id@);
        assert forall|i: int, j: int|
            0 <= i < ids.len() && 0 <= j < ids.len() && i != j implies ids[i] != ids[j] by {
            if i < j {
                assert(self.records@[i].id@ != self.records@[j].id@);
            } else {
                assert(self.records@[j].id@ != self.records@[i].id@);
            }
        }
        assert(ids.no_duplicates());
        assert forall|k: Seq<char>| #[trigger] self@.dom().contains(k) <==> ids.to_set().contains(
            k,
        ) by {
            if self@.dom().contains(k) {
                let i = choose|i: int| 0 <= i < self.records@.len() && self.records@[i].id@ == k;
                assert(ids[i] == k);
            }
            if ids.contains(k) {
                let i = choose|i: int| 0 <= i < ids.len() && ids[i] == k;
                assert(0 <= i < self.records@.len() && self.records@[i].id@ == k);
            }
        }
        assert(self@.dom() =~= ids.to_set());
        ids.unique_seq_to_set();
    }

    /// Where the record filed under `id` stands, if any.
    fn position(&self, id: &String) -> (r: Option<usize>)
        requires
            self.wf(),
        ensures
            match r {
                Some(i) => i < self.records@.len() && self.records@[i as int].id@ == id@,
                None => !self@.contains_key(id@),
            },
    {
        let mut i: usize = 0;
        while i < self.records.len()
            invariant
                0 <= i <= self.records@.len(),
                forall|j: int| 0 <= j < i ==> self.records@[j].id@ != id@,
            decreases self.records@.len() - i,
        {
            if self.records[i].id == *id {
                return Some(i);
            }
            i = i + 1;
        }
        None
    }

    /// The record filed under `id`, if any.
    pub fn get(&self, id: &String) -> (r: Option<&PaymentIntent>)
        requires
            self.wf(),
        ensures
            match r {
                Some(p) => self@.contains_key(id@) && p@ == self@[id@],
                None => !self@.contains_key(id@),
            },
    {
        match self.position(id) {
            Some(i) => {
                proof {
                    self.lemma_view_at(i as int);
                }
                Some(&self.records[i])
            },
            None => None,
        }
    }

    proof fn lemma_pushed(before: IntentLedger, after: IntentLedger, rec: IntentView)
        requires
            before.wf(),
            after.records@.len() == before.records@.len() + 1,
            forall|i: int| 0 <= i < before.records@.len() ==> after.records@[i] == before.records@[i],
            after.records@.last()@ == rec,
            !before@.contains_key(rec.id),
            proof_matches_status(rec),
        ensures
            after.wf(),
            after@ == before@.insert(rec.id, rec),
    {
        let n: int = before.records@.len() as int;
        assert forall|i: int| 0 <= i < n implies #[trigger] after.records@[i].id@ != rec.id by {
            if after.records@[i].id@ == rec.id {
                assert(0 <= i < before.records@.len() && before.records@[i].id@ == rec.id);
            }
        }
        assert(after.wf());
        assert forall|k: Seq<char>| #[trigger] after@.contains_key(k) <==> before@.insert(
            rec.id,
            rec,
        ).contains_key(k) by {
            if after@.contains_key(k) {
                let i = choose|i: int| 0 <= i < after.records@.len() && after.records@[i].id@ == k;
                if i < n {
                    assert(0 <= i < before.records@.len() && before.records@[i].id@ == k);
                }
            }
            if before@.contains_key(k) {
                let i = choose|i: int| 0 <= i < before.records@.len() && before.records@[i].id@ == k;
                assert(0 <= i < after.records@.len() && after.records@[i].id@ == k);
            }
            if k == rec.id {
                assert(0 <= n < after.records@.len() && after.records@[n].id@ == k);
            }
        }
        assert forall|k: Seq<char>| #[trigger] after@.contains_key(k) implies after@[k]
            == before@.insert(rec.id, rec)[k] by {
            let i = choose|i: int| 0 <= i < after.records@.len() && after.records@[i].id@ == k;
            after.lemma_view_at(i);
            if i < n {
                before.lemma_view_at(i);
            }
        }
        assert(after@ =~= before@.insert(rec.id, rec));
    }

    proof fn lemma_replaced(before: IntentLedger, after: IntentLedger, i: int, rec: IntentView)
        requires
            before.wf(),
            0 <= i < before.records@.len(),
            after.records@.len() == before.records@.len(),
            forall|j: int|
                0 <= j < before.records@.len() && j != i ==> after.records@[j] == before.records@[j],
            after.records@[i]@ == rec,
            before.records@[i].id@ == rec.id,
            proof_matches_status(rec),
        ensures
            after.wf(),
            after@ == before@.insert(rec.id, rec),
    {
        let n: int = before.records@.len() as int;
        assert forall|a: int, b: int|
            0 <= a < b < n implies #[trigger] after.records@[a].id@
            != #[trigger] after.records@[b].id@ by {
            assert(before.records@[a].id@ != before.records@[b].id@);
        }
        assert forall|j: int| 0 <= j < n implies proof_matches_status(
            #[trigger] after.records@[j]@,
        ) by {
            if j != i {
                assert(proof_matches_status(before.records@[j]@));
            }
        }
        assert(after.wf());
        assert forall|k: Seq<char>| #[trigger] after@.contains_key(k) <==> before@.contains_key(k) by {
            if after@.contains_key(k) {
                let j = choose|j: int| 0 <= j < after.records@.len() && after.records@[j].id@ == k;
                assert(0 <= j < before.records@.len() && before.records@[j].id@ == k);
            }
            if before@.contains_key(k) {
                let j = choose|j: int| 0 <= j < before.records@.len() && before.records@[j].id@ == k;
                assert(0 <= j < after.records@.len() && after.records@[j].id@ == k);
            }
        }
        before.lemma_view_at(i);
        assert forall|k: Seq<char>| #[trigger] after@.contains_key(k) implies after@[k]
            == before@.insert(rec.id, rec)[k] by {
            let j = choose|j: int| 0 <= j < after.records@.len() && after.records@[j].id@ == k;
            after.lemma_view_at(j);
            if j != i {
                before.lemma_view_at(j);
            }
        }
        assert(after@ =~= before@.insert(rec.id, rec));
    }
}

/// In a well-formed ledger the settlement proof of an intent is empty exactly
/// while it is pending, and non-empty exactly once it is paid.
pub proof fn lemma_proof_iff_paid(ledger: &IntentLedger, id: Seq<char>)
    requires
        ledger.wf(),
        ledger@.contains_key(id),
    ensures
        ledger@[id].tx_signature.len() == 0 <==> ledger@[id].status == IntentStatus::Pending,
        ledger@[id].tx_signature.len() > 0 <==> ledger@[id].status == IntentStatus::Paid,
{
    ledger.lemma_well_formed();
}

/// Files a new pending intent under `payment_intent_id` for the requesting
/// merchant, and returns the notification to publish.
///
/// Refused with `AllocationConflict` when a record already stands under the
/// identifier, else with `AuthorizationFailure` when the merchant did not sign;
/// a refusal changes nothing. Any amount is accepted, zero included.
pub fn create_payment_intent(
    ledger: &mut IntentLedger,
    ctx: &CreatePaymentIntent,
    payment_intent_id: String,
    amount: u64,
    nonce: [u8; 32],
    created_at: i64,
) -> (r: Result<PaymentIntentCreated, ErrorCode>)
    requires
        old(ledger).wf(),
    ensures
        final(ledger).wf(),
        intents_well_formed(final(ledger)@),
        match r {
            Ok(ev) => {
                &&& create_error(old(ledger)@, payment_intent_id@, ctx.merchant_is_signer) is None
                &&& final(ledger)@ == old(ledger)@.insert(
                    payment_intent_id@,
                    pending_record(payment_intent_id@, ctx.merchant@, amount, nonce@, created_at),
                )
                &&& ev.payment_intent_id@ == payment_intent_id@
                &&& ev.merchant_pubkey == ctx.merchant
                &&& ev.amount == amount
            },
            Err(e) => {
                &&& create_error(old(ledger)@, payment_intent_id@, ctx.merchant_is_signer) == Some(e)
                &&& final(ledger)@ == old(ledger)@
            },
        },
{
    proof {
        ledger.lemma_well_formed();
    }
    if ledger.position(&payment_intent_id).is_some() {
        return Err(ErrorCode::AllocationConflict);
    }
    if !ctx.merchant_is_signer {
        return Err(ErrorCode::AuthorizationFailure);
    }
    let ev = PaymentIntentCreated {
        payment_intent_id: payment_intent_id.clone(),
        merchant_pubkey: ctx.merchant,
        amount,
    };
    let rec = PaymentIntent {
        id: payment_intent_id,
        merchant: ctx.merchant,
        amount,
        status: IntentStatus::Pending,
        nonce,
        tx_signature: String::new(),
        created_at,
    };
    let ghost before = *ledger;
    let ghost v = rec@;
    ledger.records.push(rec);
    proof {
        IntentLedger::lemma_pushed(before, *ledger, v);
        assert(v == pending_record(ev.payment_intent_id@, ctx.merchant@, amount, nonce@, created_at));
        ledger.lemma_well_formed();
    }
    Ok(ev)
}

/// Settles the pending intent under `payment_intent_id` for the requesting
/// payer, and returns the notification to publish.
///
/// The checks come in the order of `pay_error`: the record must exist, the payer
/// must have signed, the intent must be pending, and amount and nonce must match
/// exactly. On success the intent becomes paid and its proof is the payer's
/// printed key; a refusal changes nothing.
pub fn pay_invoice(
    ledger: &mut IntentLedger,
    ctx: &PayInvoice,
    payment_intent_id: String,
    amount: u64,
    nonce: [u8; 32],
) -> (r: Result<PaymentEvent, ErrorCode>)
    requires
        old(ledger).wf(),
    ensures
        final(ledger).wf(),
        intents_well_formed(final(ledger)@),
        final(ledger)@ == pay_next(
            old(ledger)@,
            payment_intent_id@,
            amount,
            nonce@,
            ctx.payer@,
            ctx.payer_is_signer,
        ),
        match r {
            Ok(ev) => {
                &&& pay_error(old(ledger)@, payment_intent_id@, amount, nonce@, ctx.payer_is_signer)
                    is None
                &&& ev.payment_intent_id@ == payment_intent_id@
                &&& ev.merchant_pubkey@ == old(ledger)@[payment_intent_id@].merchant
                &&& ev.amount == amount
                &&& ev.tx_signature@ == pubkey_text(ctx.payer@)
            },
            Err(e) => pay_error(old(ledger)@, payment_intent_id@, amount, nonce@, ctx.payer_is_signer)
                == Some(e),
        },
{
    proof {
        ledger.lemma_well_formed();
    }
    let i = match ledger.position(&payment_intent_id) {
        Some(i) => i,
        None => {
            return Err(ErrorCode::IntentNotFound);
        },
    };
    proof {
        ledger.lemma_view_at(i as int);
    }
    if !ctx.payer_is_signer {
        return Err(ErrorCode::AuthorizationFailure);
    }
    let pi = &ledger.records[i];
    if pi.status != IntentStatus::Pending {
        return Err(ErrorCode::PaymentAlreadyProcessed);
    }
    if pi.amount != amount {
        return Err(ErrorCode::InvalidAmount);
    }
    if !bytes32_equal(&pi.nonce, &nonce) {
        return Err(ErrorCode::InvalidNonce);
    }
    let merchant = pi.merchant;
    let rec = PaymentIntent {
        id: pi.id.clone(),
        merchant: pi.merchant,
        amount: pi.amount,
        status: IntentStatus::Paid,
        nonce: pi.nonce,
        tx_signature: key_to_string(&ctx.payer),
        created_at: pi.created_at,
    };
    let tx_signature = rec.tx_signature.clone();
    let ghost before = *ledger;
    let ghost v = rec@;
    ledger.records.set(i, rec);
    proof {
        IntentLedger::lemma_replaced(before, *ledger, i as int, v);
        ledger.lemma_well_formed();
    }
    Ok(PaymentEvent { payment_intent_id, merchant_pubkey: merchant, amount, tx_signature })
}

} // verus!
