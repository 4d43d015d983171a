use vstd::prelude::*;

use crate::error::OtoError;
use crate::ledger::{
    lemma_find_idx_pointwise, lemma_find_idx_props, lemma_find_idx_push, proof_pred,
    purchase_pred, wallet_pred, LedgerView, ProofEntry, Wallet,
};
use crate::states::TransferProof;

verus! {

impl LedgerView {
    /// Law: in every well-formed ledger, each purchase request's escrow
    /// holds exactly its remaining budget, and the total it has settled is
    /// exactly what it was funded with minus what remains.  Since `settled`
    /// is the running sum of all amounts paid out of the request (see
    /// [`lemma_settlement_accounting`]), this says that over any run of
    /// successful settlements the sum of transferred amounts equals the
    /// initial budget minus the final remaining budget — and the remaining
    /// budget, a 64-bit natural, can never go below zero.
    pub proof fn lemma_escrow_accounting(self, i: int)
        requires
            self.wf(),
            0 <= i < self.purchases.len(),
        ensures
            self.purchases[i].escrow_balance == self.purchases[i].request.budget_remaining,
            self.purchases[i].settled + self.purchases[i].request.budget_remaining
                == self.purchases[i].funded,
            self.purchases[i].request.budget_remaining <= self.purchases[i].funded,
    {
    }
}

/// Law: one successful settlement moves exactly the request's unit price,
/// once, and nowhere else.  The named request's remaining budget falls by
/// exactly that price (so it never increases), its settled total and the
/// provider's balance rise by exactly that price, its funding is untouched,
/// and its escrow still equals its remaining budget afterwards.
pub proof fn lemma_settlement_accounting(
    v: LedgerView,
    purchase_buyer: [u8; 32],
    purchase_nonce: u8,
    offer_buyer: [u8; 32],
    offer_nonce: u8,
    offer_file_hash: [u8; 32],
    provider: [u8; 32],
    file_hash: [u8; 32],
    buyer_sig: [u8; 64],
)
    requires
        v.wf(),
        v.submit_transfer_proof_outcome(
            purchase_buyer,
            purchase_nonce,
            offer_buyer,
            offer_nonce,
            offer_file_hash,
            provider,
        ) is Ok,
    ensures
        ({
            let l1 = v.submit_transfer_proof_next(
                purchase_buyer,
                purchase_nonce,
                offer_buyer,
                offer_nonce,
                offer_file_hash,
                provider,
                file_hash,
                buyer_sig,
            );
            let pi = v.purchase_index(purchase_buyer@, purchase_nonce);
            let price = v.purchases[pi].request.unit_price;
            &&& l1.purchases[pi].request.budget_remaining + price
                == v.purchases[pi].request.budget_remaining
            &&& l1.purchases[pi].settled == v.purchases[pi].settled + price
            &&& l1.purchases[pi].funded == v.purchases[pi].funded
            &&& l1.purchases[pi].escrow_balance == l1.purchases[pi].request.budget_remaining
            &&& l1.purchases[pi].settled + l1.purchases[pi].request.budget_remaining
                == l1.purchases[pi].funded
            &&& l1.balance_of(provider@) == v.balance_of(provider@) + price
            &&& forall|j: int|
                0 <= j < v.purchases.len() && j != pi ==> l1.purchases[j] == #[trigger] v.purchases[j]
        }),
{
    let pi = v.purchase_index(purchase_buyer@, purchase_nonce);
    let price = v.purchases[pi].request.unit_price;
    lemma_find_idx_props(v.purchases, purchase_pred(purchase_buyer@, purchase_nonce));
    let credited = v.wallet_credit_next(provider, price);
    let wi = v.wallet_index(provider@);
    lemma_find_idx_props(v.wallets, wallet_pred(provider@));
    if wi >= 0 {
        assert(credited.wallets[wi].owner@ == v.wallets[wi].owner@);
        lemma_find_idx_pointwise(
            v.wallets,
            wallet_pred(provider@),
            credited.wallets,
            wallet_pred(provider@),
        );
    } else {
        let w = Wallet { owner: provider, balance: price };
        lemma_find_idx_push(v.wallets, wallet_pred(provider@), w);
        assert(wallet_pred(provider@)(w));
    }
}

/// Law: an offer settles at most once.  After a successful settlement, a
/// second settlement naming the same offer is rejected as a structural
/// duplicate — whatever purchase request, provider, hash, or signature the
/// second attempt carries alongside it makes no difference — and it leaves
/// the ledger exactly as the first settlement left it: no double payment.
pub proof fn lemma_double_settlement_rejected(
    v: LedgerView,
    purchase_buyer: [u8; 32],
    purchase_nonce: u8,
    offer_buyer: [u8; 32],
    offer_nonce: u8,
    offer_file_hash: [u8; 32],
    provider: [u8; 32],
    file_hash: [u8; 32],
    buyer_sig: [u8; 64],
    purchase_buyer2: [u8; 32],
    purchase_nonce2: u8,
    provider2: [u8; 32],
    file_hash2: [u8; 32],
    buyer_sig2: [u8; 64],
)
    requires
        v.wf(),
        v.submit_transfer_proof_outcome(
            purchase_buyer,
            purchase_nonce,
            offer_buyer,
            offer_nonce,
            offer_file_hash,
            provider,
        ) is Ok,
    ensures
        ({
            let l1 = v.submit_transfer_proof_next(
                purchase_buyer,
                purchase_nonce,
                offer_buyer,
                offer_nonce,
                offer_file_hash,
                provider,
                file_hash,
                buyer_sig,
            );
            &&& l1.submit_transfer_proof_outcome(
                purchase_buyer2,
                purchase_nonce2,
                offer_buyer,
                offer_nonce,
                offer_file_hash,
                provider2,
            ) == Err::<(), OtoError>(OtoError::StructuralDuplicate)
            &&& l1.submit_transfer_proof_next(
                purchase_buyer2,
                purchase_nonce2,
                offer_buyer,
                offer_nonce,
                offer_file_hash,
                provider2,
                file_hash2,
                buyer_sig2,
            ) == l1
        }),
{
    let l1 = v.submit_transfer_proof_next(
        purchase_buyer,
        purchase_nonce,
        offer_buyer,
        offer_nonce,
        offer_file_hash,
        provider,
        file_hash,
        buyer_sig,
    );
    let pe = ProofEntry {
        buyer: offer_buyer,
        nonce: offer_nonce,
        file_hash: offer_file_hash,
        proof: TransferProof { file_hash, price: v.purchases[v.purchase_index(purchase_buyer@, purchase_nonce)].request.unit_price, buyer_sig },
    };
    lemma_find_idx_props(v.proofs, proof_pred(offer_buyer@, offer_nonce, offer_file_hash@));
    lemma_find_idx_push(v.proofs, proof_pred(offer_buyer@, offer_nonce, offer_file_hash@), pe);
    assert(proof_pred(offer_buyer@, offer_nonce, offer_file_hash@)(pe));
    assert(l1.proof_index(offer_buyer@, offer_nonce, offer_file_hash@) >= 0);
}

} // verus!
