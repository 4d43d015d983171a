use vstd::prelude::*;

use crate::error::OtoError;
use crate::ledger::{
    asset_pred, key_eq, lemma_find_idx_pointwise, lemma_find_idx_props, lemma_find_idx_push,
    offer_pred, proof_pred, purchase_pred, wallet_pred, Ledger, LedgerView, OfferEntry,
    ProofEntry, PurchaseEntry, Wallet,
};
use crate::states::{
    AssetMetadata, AssetOffer, PurchaseRequest, RegisterPurchaseParams, TransferProof,
};

verus! {

impl LedgerView {
    /// Outcome of registering an asset: one record per (owner, hash).
    pub open spec fn register_asset_outcome(self, owner: [u8; 32], file_hash: [u8; 32]) -> Result<
        (),
        OtoError,
    > {
        if self.asset_index(owner@, file_hash@) >= 0 {
            Err(OtoError::StructuralDuplicate)
        } else {
            Ok(())
        }
    }

    pub open spec fn register_asset_next(
        self,
        owner: [u8; 32],
        file_hash: [u8; 32],
        date: u32,
        language: u8,
    ) -> LedgerView {
        if self.register_asset_outcome(owner, file_hash) is Ok {
            LedgerView {
                assets: self.assets.push(AssetMetadata { owner, file_hash, date, language }),
                ..self
            }
        } else {
            self
        }
    }

    /// Outcome of a buyer reserving a budget: the ledger must be
    /// bootstrapped, the (buyer, nonce) address free, and the buyer's
    /// balance must cover the whole budget that moves into escrow.
    pub open spec fn register_purchase_request_outcome(
        self,
        buyer: [u8; 32],
        params: RegisterPurchaseParams,
    ) -> Result<(), OtoError> {
        let wi = self.wallet_index(buyer@);
        if self.config is None {
            Err(OtoError::RecordNotFound)
        } else if self.purchase_index(buyer@, params.nonce) >= 0 {
            Err(OtoError::StructuralDuplicate)
        } else if wi < 0 {
            Err(OtoError::RecordNotFound)
        } else if self.wallets[wi].balance < params.max_budget {
            Err(OtoError::InsufficientFunds)
        } else {
            Ok(())
        }
    }

    pub open spec fn register_purchase_request_next(
        self,
        buyer: [u8; 32],
        params: RegisterPurchaseParams,
    ) -> LedgerView {
        if self.register_purchase_request_outcome(buyer, params) is Ok {
            let wi = self.wallet_index(buyer@);
            let w = self.wallets[wi];
            LedgerView {
                wallets: self.wallets.update(
                    wi,
                    Wallet { balance: (w.balance - params.max_budget) as u64, ..w },
                ),
                purchases: self.purchases.push(
                    PurchaseEntry {
                        request: PurchaseRequest {
                            buyer,
                            buyer_pubkey: params.buyer_pubkey,
                            filter_language: params.filter_language,
                            start_date: params.start_date,
                            end_date: params.end_date,
                            unit_price: params.unit_price,
                            budget_remaining: params.max_budget,
                            nonce: params.nonce,
                        },
                        escrow_balance: params.max_budget,
                        funded: params.max_budget,
                        settled: 0,
                    },
                ),
                ..self
            }
        } else {
            self
        }
    }

    /// Outcome of a provider binding an asset to a purchase request: both
    /// records must exist, the (request, hash) offer address must be free,
    /// and the asset must pass the request's language and date filters.
    pub open spec fn apply_asset_offer_outcome(
        self,
        provider: [u8; 32],
        buyer: [u8; 32],
        nonce: u8,
        asset_owner: [u8; 32],
        file_hash: [u8; 32],
    ) -> Result<(), OtoError> {
        let pi = self.purchase_index(buyer@, nonce);
        let ai = self.asset_index(asset_owner@, file_hash@);
        if pi < 0 {
            Err(OtoError::RecordNotFound)
        } else if ai < 0 {
            Err(OtoError::RecordNotFound)
        } else if self.offer_index(buyer@, nonce, file_hash@) >= 0 {
            Err(OtoError::StructuralDuplicate)
        } else if self.purchases[pi].request.filter_language != 0
            && self.purchases[pi].request.filter_language != self.assets[ai].language {
            Err(OtoError::FilterLanguageMismatch)
        } else if self.assets[ai].date < self.purchases[pi].request.start_date
            || self.assets[ai].date > self.purchases[pi].request.end_date {
            Err(OtoError::FilterDateMismatch)
        } else {
            Ok(())
        }
    }

    pub open spec fn apply_asset_offer_next(
        self,
        provider: [u8; 32],
        buyer: [u8; 32],
        nonce: u8,
        asset_owner: [u8; 32],
        file_hash: [u8; 32],
    ) -> LedgerView {
        if self.apply_asset_offer_outcome(provider, buyer, nonce, asset_owner, file_hash) is Ok {
            LedgerView {
                offers: self.offers.push(
                    OfferEntry {
                        buyer,
                        nonce,
                        offer: AssetOffer {
                            asset_owner,
                            file_hash,
                            provider,
                            claimable_amount: 0,
                        },
                    },
                ),
                ..self
            }
        } else {
            self
        }
    }

    /// Outcome of settling an offer.  The named purchase request and offer
    /// are looked up independently — nothing ties the offer to the request
    /// it settles against: the proof's address is derived from the offer
    /// alone, while the budget debited and escrow drawn are those of the
    /// purchase request named by the relayer.
    pub open spec fn submit_transfer_proof_outcome(
        self,
        purchase_buyer: [u8; 32],
        purchase_nonce: u8,
        offer_buyer: [u8; 32],
        offer_nonce: u8,
        offer_file_hash: [u8; 32],
        provider: [u8; 32],
    ) -> Result<(), OtoError> {
        let pi = self.purchase_index(purchase_buyer@, purchase_nonce);
        let oi = self.offer_index(offer_buyer@, offer_nonce, offer_file_hash@);
        if self.config is None {
            Err(OtoError::RecordNotFound)
        } else if oi < 0 {
            Err(OtoError::RecordNotFound)
        } else if self.proof_index(offer_buyer@, offer_nonce, offer_file_hash@) >= 0 {
            Err(OtoError::StructuralDuplicate)
        } else if pi < 0 {
            Err(OtoError::RecordNotFound)
        } else if self.offers[oi].offer.provider@ != provider@ {
            Err(OtoError::AuthorizationMismatch)
        } else if self.purchases[pi].request.budget_remaining
            < self.purchases[pi].request.unit_price {
            Err(OtoError::BudgetExhausted)
        } else if self.wallet_credit_outcome(provider, self.purchases[pi].request.unit_price)
            is Err {
            Err(OtoError::ArithmeticOverflow)
        } else {
            Ok(())
        }
    }

    pub open spec fn submit_transfer_proof_next(
        self,
        purchase_buyer: [u8; 32],
        purchase_nonce: u8,
        offer_buyer: [u8; 32],
        offer_nonce: u8,
        offer_file_hash: [u8; 32],
        provider: [u8; 32],
        file_hash: [u8; 32],
        buyer_sig: [u8; 64],
    ) -> LedgerView {
        if self.submit_transfer_proof_outcome(
            purchase_buyer,
            purchase_nonce,
            offer_buyer,
            offer_nonce,
            offer_file_hash,
            provider,
        ) is Ok {
            let pi = self.purchase_index(purchase_buyer@, purchase_nonce);
            let e = self.purchases[pi];
            let price = e.request.unit_price;
            let credited = self.wallet_credit_next(provider, price);
            LedgerView {
                purchases: credited.purchases.update(
                    pi,
                    PurchaseEntry {
                        request: PurchaseRequest {
                            budget_remaining: (e.request.budget_remaining - price) as u64,
                            ..e.request
                        },
                        escrow_balance: (e.escrow_balance - price) as u64,
                        funded: e.funded,
                        settled: (e.settled + price) as u64,
                    },
                ),
                proofs: credited.proofs.push(
                    ProofEntry {
                        buyer: offer_buyer,
                        nonce: offer_nonce,
                        file_hash: offer_file_hash,
                        proof: TransferProof { file_hash, price, buyer_sig },
                    },
                ),
                ..credited
            }
        } else {
            self
        }
    }
}

impl Ledger {
    /// Record an immutable (owner, hash, date, language) asset.
    pub fn register_asset(
        &mut self,
        owner: &[u8; 32],
        file_hash: &[u8; 32],
        date: u32,
        language: u8,
    ) -> (r: Result<(), OtoError>)
        requires
            old(self).wf(),
        ensures
            final(self).wf(),
            r == old(self)@.register_asset_outcome(*owner, *file_hash),
            final(self)@ == old(self)@.register_asset_next(*owner, *file_hash, date, language),
            r is Err ==> final(self)@ == old(self)@,
    {
        let ghost pre = self@;
        if self.lookup_asset(owner, file_hash).is_some() {
            return Err(OtoError::StructuralDuplicate);
        }
        let a = AssetMetadata { owner: *owner, file_hash: *file_hash, date, language };
        proof {
            lemma_find_idx_props(pre.assets, asset_pred(owner@, file_hash@));
            assert(forall|j: int|
                0 <= j < pre.assets.len() ==> !asset_pred(owner@, file_hash@)(
                    #[trigger] pre.assets[j],
                ));
        }
        self.assets.push(a);
        Ok(())
    }

    /// Reserve a budget: create the purchase request and atomically move
    /// `max_budget` units from the buyer's balance into the request's
    /// escrow, so that afterwards escrow == budget_remaining == max_budget.
    pub fn register_purchase_request(&mut self, buyer: &[u8; 32], params: RegisterPurchaseParams) -> (r:
        Result<(), OtoError>)
        requires
            old(self).wf(),
            params.unit_price > 0,
            params.max_budget >= params.unit_price,
        ensures
            final(self).wf(),
            r == old(self)@.register_purchase_request_outcome(*buyer, params),
            final(self)@ == old(self)@.register_purchase_request_next(*buyer, params),
            r is Err ==> final(self)@ == old(self)@,
            r is Ok ==> {
                let e = final(self)@.purchases[old(self)@.purchases.len() as int];
                &&& e.request.budget_remaining == params.max_budget
                &&& e.escrow_balance == params.max_budget
                &&& e.funded == params.max_budget
                &&& e.settled == 0
                &&& final(self)@.balance_of(buyer@) + params.max_budget == old(self)@.balance_of(
                    buyer@,
                )
            },
    {
        let ghost pre = self@;
        if self.config.is_none() {
            return Err(OtoError::RecordNotFound);
        }
        if self.lookup_purchase(buyer, params.nonce).is_some() {
            return Err(OtoError::StructuralDuplicate);
        }
        let wi = match self.lookup_wallet(buyer) {
            Option::Some(i) => i,
            Option::None => {
                return Err(OtoError::RecordNotFound);
            },
        };
        let bal = self.wallets[wi].balance;
        if bal < params.max_budget {
            return Err(OtoError::InsufficientFunds);
        }
        self.wallets[wi].balance = bal - params.max_budget;
        let entry = PurchaseEntry {
            request: PurchaseRequest {
                buyer: *buyer,
                buyer_pubkey: params.buyer_pubkey,
                filter_language: params.filter_language,
                start_date: params.start_date,
                end_date: params.end_date,
                unit_price: params.unit_price,
                budget_remaining: params.max_budget,
                nonce: params.nonce,
            },
            escrow_balance: params.max_budget,
            funded: params.max_budget,
            settled: 0,
        };
        proof {
            lemma_find_idx_props(pre.purchases, purchase_pred(buyer@, params.nonce));
            assert(forall|j: int|
                0 <= j < pre.purchases.len() ==> !purchase_pred(buyer@, params.nonce)(
                    #[trigger] pre.purchases[j],
                ));
        }
        self.purchases.push(entry);
        proof {
            assert(self@.wallets[wi as int].owner@ == pre.wallets[wi as int].owner@);
            lemma_find_idx_pointwise(
                pre.wallets,
                wallet_pred(buyer@),
                self@.wallets,
                wallet_pred(buyer@),
            );
        }
        Ok(())
    }

    /// Bind an asset to a purchase request as an offer by `provider`.  The
    /// asset must pass the request's language filter (`0` accepts any
    /// language) and its date must lie in the inclusive date range.  No
    /// funds move and no budget is reserved: an offer is provisional until
    /// settled, and unsettled offers may outnumber the remaining budget.
    pub fn apply_asset_offer(
        &mut self,
        provider: &[u8; 32],
        buyer: &[u8; 32],
        nonce: u8,
        asset_owner: &[u8; 32],
        file_hash: &[u8; 32],
    ) -> (r: Result<(), OtoError>)
        requires
            old(self).wf(),
        ensures
            final(self).wf(),
            r == old(self)@.apply_asset_offer_outcome(
                *provider,
                *buyer,
                nonce,
                *asset_owner,
                *file_hash,
            ),
            final(self)@ == old(self)@.apply_asset_offer_next(
                *provider,
                *buyer,
                nonce,
                *asset_owner,
                *file_hash,
            ),
            r is Err ==> final(self)@ == old(self)@,
            ({
                let v = old(self)@;
                let pi = v.purchase_index(buyer@, nonce);
                let ai = v.asset_index(asset_owner@, file_hash@);
                pi >= 0 && ai >= 0 && v.offer_index(buyer@, nonce, file_hash@) == -1 ==> {
                    let req = v.purchases[pi].request;
                    let a = v.assets[ai];
                    &&& (r == Err::<(), OtoError>(OtoError::FilterLanguageMismatch)
                        <==> req.filter_language != 0 && req.filter_language != a.language)
                    &&& (r == Err::<(), OtoError>(OtoError::FilterDateMismatch)
                        <==> (req.filter_language == 0 || req.filter_language == a.language) && (
                        a.date < req.start_date || a.date > req.end_date))
                    &&& (r is Ok <==> (req.filter_language == 0 || req.filter_language
                        == a.language) && req.start_date <= a.date <= req.end_date)
                }
            }),
    {
        let ghost pre = self@;
        let pi = match self.lookup_purchase(buyer, nonce) {
            Option::Some(i) => i,
            Option::None => {
                return Err(OtoError::RecordNotFound);
            },
        };
        let ai = match self.lookup_asset(asset_owner, file_hash) {
            Option::Some(i) => i,
            Option::None => {
                return Err(OtoError::RecordNotFound);
            },
        };
        if self.lookup_offer(buyer, nonce, file_hash).is_some() {
            return Err(OtoError::StructuralDuplicate);
        }
        let req_language = self.purchases[pi].request.filter_language;
        if req_language != 0 && req_language != self.assets[ai].language {
            return Err(OtoError::FilterLanguageMismatch);
        }
        let date = self.assets[ai].date;
        if date < self.purchases[pi].request.start_date || date
            > self.purchases[pi].request.end_date {
            return Err(OtoError::FilterDateMismatch);
        }
        let entry = OfferEntry {
            buyer: *buyer,
            nonce,
            offer: AssetOffer {
                asset_owner: *asset_owner,
                file_hash: *file_hash,
                provider: *provider,
                claimable_amount: 0,
            },
        };
        proof {
            lemma_find_idx_props(pre.offers, offer_pred(buyer@, nonce, file_hash@));
            assert(forall|j: int|
                0 <= j < pre.offers.len() ==> !offer_pred(buyer@, nonce, file_hash@)(
                    #[trigger] pre.offers[j],
                ));
        }
        self.offers.push(entry);
        Ok(())
    }

    /// Settle one offer: persist the transfer proof, pay the offer's
    /// provider exactly `unit_price` units out of the named purchase
    /// request's escrow under that request's derived authority, and debit
    /// its budget — all atomically.  The escrow can never come up short
    /// here: well-formedness guarantees it holds exactly the remaining
    /// budget, which the budget check has just bounded from below.
    ///
    /// The buyer signature is stored uninterpreted; verifying it against
    /// the buyer's designated key is a documented gap in the protocol.
    pub fn submit_transfer_proof(
        &mut self,
        purchase_buyer: &[u8; 32],
        purchase_nonce: u8,
        offer_buyer: &[u8; 32],
        offer_nonce: u8,
        offer_file_hash: &[u8; 32],
        provider: &[u8; 32],
        file_hash: &[u8; 32],
        buyer_sig: &[u8; 64],
    ) -> (r: Result<(), OtoError>)
        requires
            old(self).wf(),
        ensures
            final(self).wf(),
            r == old(self)@.submit_transfer_proof_outcome(
                *purchase_buyer,
                purchase_nonce,
                *offer_buyer,
                offer_nonce,
                *offer_file_hash,
                *provider,
            ),
            final(self)@ == old(self)@.submit_transfer_proof_next(
                *purchase_buyer,
                purchase_nonce,
                *offer_buyer,
                offer_nonce,
                *offer_file_hash,
                *provider,
                *file_hash,
                *buyer_sig,
            ),
            r is Err ==> final(self)@ == old(self)@,
            r is Ok ==> {
                let v = old(self)@;
                let pi = v.purchase_index(purchase_buyer@, purchase_nonce);
                let price = v.purchases[pi].request.unit_price;
                &&& final(self)@.purchases[pi].request.budget_remaining + price
                    == v.purchases[pi].request.budget_remaining
                &&& final(self)@.purchases[pi].escrow_balance + price
                    == v.purchases[pi].escrow_balance
                &&& final(self)@.purchases[pi].settled == v.purchases[pi].settled + price
                &&& final(self)@.balance_of(provider@) == v.balance_of(provider@) + price
                &&& final(self)@.proof_index(offer_buyer@, offer_nonce, offer_file_hash@) == v
                    .proofs.len()
            },
    {
        let ghost pre = self@;
        if self.config.is_none() {
            return Err(OtoError::RecordNotFound);
        }
        let oi = match self.lookup_offer(offer_buyer, offer_nonce, offer_file_hash) {
            Option::Some(i) => i,
            Option::None => {
                return Err(OtoError::RecordNotFound);
            },
        };
        if self.lookup_proof(offer_buyer, offer_nonce, offer_file_hash).is_some() {
            return Err(OtoError::StructuralDuplicate);
        }
        let pi = match self.lookup_purchase(purchase_buyer, purchase_nonce) {
            Option::Some(i) => i,
            Option::None => {
                return Err(OtoError::RecordNotFound);
            },
        };
        if !key_eq(&self.offers[oi].offer.provider, provider) {
            return Err(OtoError::AuthorizationMismatch);
        }
        let e = self.purchases[pi];
        let price = e.request.unit_price;
        if e.request.budget_remaining < price {
            return Err(OtoError::BudgetExhausted);
        }
        match self.credit_wallet(provider, price) {
            Result::Err(err) => {
                return Err(err);
            },
            Result::Ok(()) => {},
        }
        let ghost credited = self@;
        proof {
            assert(e.escrow_balance == e.request.budget_remaining);
            assert(e.settled + e.request.budget_remaining == e.funded);
        }
        self.purchases[pi] = PurchaseEntry {
            request: PurchaseRequest {
                budget_remaining: e.request.budget_remaining - price,
                ..e.request
            },
            escrow_balance: e.escrow_balance - price,
            funded: e.funded,
            settled: e.settled + price,
        };
        let pe = ProofEntry {
            buyer: *offer_buyer,
            nonce: offer_nonce,
            file_hash: *offer_file_hash,
            proof: TransferProof { file_hash: *file_hash, price, buyer_sig: *buyer_sig },
        };
        proof {
            lemma_find_idx_props(pre.proofs, proof_pred(offer_buyer@, offer_nonce, offer_file_hash@));
            assert(forall|j: int|
                0 <= j < pre.proofs.len() ==> !proof_pred(offer_buyer@, offer_nonce, offer_file_hash@)(
                    #[trigger] pre.proofs[j],
                ));
        }
        self.proofs.push(pe);
        proof {
            lemma_find_idx_push(pre.proofs, proof_pred(offer_buyer@, offer_nonce, offer_file_hash@), pe);
            assert(proof_pred(offer_buyer@, offer_nonce, offer_file_hash@)(pe));
            assert(self@.purchases[pi as int].request.buyer@ == pre.purchases[pi as int].request.buyer@);
            lemma_find_idx_pointwise(
                pre.purchases,
                purchase_pred(purchase_buyer@, purchase_nonce),
                self@.purchases,
                purchase_pred(purchase_buyer@, purchase_nonce),
            );
        }
        Ok(())
    }
}

} // verus!
