use oto::error::OtoError;
use oto::ledger::Ledger;
use oto::states::RegisterPurchaseParams;

fn key(n: u8) -> [u8; 32] {
    let mut a = [0u8; 32];
    a[0] = n;
    a
}

fn hash(n: u8) -> [u8; 32] {
    let mut a = [0u8; 32];
    a[31] = n;
    a
}

fn params(unit_price: u64, max_budget: u64, nonce: u8) -> RegisterPurchaseParams {
    RegisterPurchaseParams {
        buyer_pubkey: key(50),
        filter_language: 0,
        start_date: 10,
        end_date: 20,
        unit_price,
        max_budget,
        nonce,
    }
}

/// Bootstrapped ledger with a funded buyer: (admin, buyer, ledger).
fn funded(buyer_funds: u64) -> ([u8; 32], [u8; 32], Ledger) {
    let admin = key(1);
    let buyer = key(4);
    let mut l = Ledger::new();
    l.initialize_oto(&admin, &key(2), &key(3)).unwrap();
    l.mint_oto(&admin, &buyer, buyer_funds).unwrap();
    (admin, buyer, l)
}

#[test]
fn register_asset_once_per_owner_and_hash() {
    let (_, _, mut l) = funded(1);
    let owner = key(6);
    assert_eq!(l.register_asset(&owner, &hash(1), 15, 5), Ok(()));
    assert_eq!(
        l.register_asset(&owner, &hash(1), 16, 6),
        Err(OtoError::StructuralDuplicate)
    );
    // another owner may register the same hash
    assert_eq!(l.register_asset(&key(9), &hash(1), 15, 5), Ok(()));
}

#[test]
fn purchase_request_fills_escrow_with_whole_budget() {
    let (_, buyer, mut l) = funded(1000);
    assert_eq!(l.register_purchase_request(&buyer, params(100, 1000, 0)), Ok(()));
    assert_eq!(l.budget_remaining_of(&buyer, 0), Some(1000));
    assert_eq!(l.escrow_balance_of(&buyer, 0), Some(1000));
    assert_eq!(l.wallet_balance(&buyer), 0);
}

#[test]
fn purchase_request_rejects_insufficient_funds() {
    let (_, buyer, mut l) = funded(999);
    assert_eq!(
        l.register_purchase_request(&buyer, params(100, 1000, 0)),
        Err(OtoError::InsufficientFunds)
    );
    assert_eq!(l.wallet_balance(&buyer), 999);
    assert_eq!(l.budget_remaining_of(&buyer, 0), None);
}

#[test]
fn purchase_request_rejects_duplicate_nonce() {
    let (_, buyer, mut l) = funded(300);
    assert_eq!(l.register_purchase_request(&buyer, params(100, 100, 0)), Ok(()));
    assert_eq!(
        l.register_purchase_request(&buyer, params(100, 100, 0)),
        Err(OtoError::StructuralDuplicate)
    );
    // a different nonce opens a second, independent request
    assert_eq!(l.register_purchase_request(&buyer, params(100, 100, 1)), Ok(()));
}

#[test]
fn purchase_request_requires_a_funded_wallet() {
    let admin = key(1);
    let mut l = Ledger::new();
    l.initialize_oto(&admin, &key(2), &key(3)).unwrap();
    assert_eq!(
        l.register_purchase_request(&key(4), params(100, 1000, 0)),
        Err(OtoError::RecordNotFound)
    );
}

#[test]
fn offer_language_wildcard_accepts_any_language() {
    let (_, buyer, mut l) = funded(1000);
    let owner = key(6);
    l.register_purchase_request(&buyer, params(100, 1000, 0)).unwrap();
    l.register_asset(&owner, &hash(1), 15, 9).unwrap();
    assert_eq!(
        l.apply_asset_offer(&key(5), &buyer, 0, &owner, &hash(1)),
        Ok(())
    );
}

#[test]
fn offer_language_mismatch_is_rejected() {
    let (_, buyer, mut l) = funded(1000);
    let owner = key(6);
    let mut p = params(100, 1000, 0);
    p.filter_language = 5;
    l.register_purchase_request(&buyer, p).unwrap();
    l.register_asset(&owner, &hash(1), 15, 7).unwrap();
    assert_eq!(
        l.apply_asset_offer(&key(5), &buyer, 0, &owner, &hash(1)),
        Err(OtoError::FilterLanguageMismatch)
    );
}

#[test]
fn offer_language_exact_match_is_accepted() {
    let (_, buyer, mut l) = funded(1000);
    let owner = key(6);
    let mut p = params(100, 1000, 0);
    p.filter_language = 7;
    l.register_purchase_request(&buyer, p).unwrap();
    l.register_asset(&owner, &hash(1), 15, 7).unwrap();
    assert_eq!(
        l.apply_asset_offer(&key(5), &buyer, 0, &owner, &hash(1)),
        Ok(())
    );
}

#[test]
fn offer_date_boundaries_are_inclusive() {
    let (_, buyer, mut l) = funded(1000);
    let owner = key(6);
    l.register_purchase_request(&buyer, params(100, 1000, 0)).unwrap();
    l.register_asset(&owner, &hash(1), 10, 5).unwrap();
    l.register_asset(&owner, &hash(2), 20, 5).unwrap();
    l.register_asset(&owner, &hash(3), 9, 5).unwrap();
    l.register_asset(&owner, &hash(4), 21, 5).unwrap();
    assert_eq!(l.apply_asset_offer(&key(5), &buyer, 0, &owner, &hash(1)), Ok(()));
    assert_eq!(l.apply_asset_offer(&key(5), &buyer, 0, &owner, &hash(2)), Ok(()));
    assert_eq!(
        l.apply_asset_offer(&key(5), &buyer, 0, &owner, &hash(3)),
        Err(OtoError::FilterDateMismatch)
    );
    assert_eq!(
        l.apply_asset_offer(&key(5), &buyer, 0, &owner, &hash(4)),
        Err(OtoError::FilterDateMismatch)
    );
}

#[test]
fn offer_duplicate_is_rejected() {
    let (_, buyer, mut l) = funded(1000);
    let owner = key(6);
    l.register_purchase_request(&buyer, params(100, 1000, 0)).unwrap();
    l.register_asset(&owner, &hash(1), 15, 5).unwrap();
    assert_eq!(l.apply_asset_offer(&key(5), &buyer, 0, &owner, &hash(1)), Ok(()));
    assert_eq!(
        l.apply_asset_offer(&key(8), &buyer, 0, &owner, &hash(1)),
        Err(OtoError::StructuralDuplicate)
    );
}

#[test]
fn settlement_pays_provider_and_debits_budget() {
    let (_, buyer, mut l) = funded(1000);
    let owner = key(6);
    let provider = key(5);
    l.register_purchase_request(&buyer, params(100, 1000, 0)).unwrap();
    l.register_asset(&owner, &hash(1), 15, 5).unwrap();
    l.apply_asset_offer(&provider, &buyer, 0, &owner, &hash(1)).unwrap();
    assert_eq!(
        l.submit_transfer_proof(&buyer, 0, &buyer, 0, &hash(1), &provider, &hash(1), &[9u8; 64]),
        Ok(())
    );
    assert_eq!(l.wallet_balance(&provider), 100);
    assert_eq!(l.budget_remaining_of(&buyer, 0), Some(900));
    assert_eq!(l.escrow_balance_of(&buyer, 0), Some(900));
    assert!(l.has_proof(&buyer, 0, &hash(1)));
    assert_eq!(l.proof_price(&buyer, 0, &hash(1)), Some(100));
}

#[test]
fn settlement_requires_named_provider() {
    let (_, buyer, mut l) = funded(1000);
    let owner = key(6);
    l.register_purchase_request(&buyer, params(100, 1000, 0)).unwrap();
    l.register_asset(&owner, &hash(1), 15, 5).unwrap();
    l.apply_asset_offer(&key(5), &buyer, 0, &owner, &hash(1)).unwrap();
    assert_eq!(
        l.submit_transfer_proof(&buyer, 0, &buyer, 0, &hash(1), &key(8), &hash(1), &[0u8; 64]),
        Err(OtoError::AuthorizationMismatch)
    );
    assert_eq!(l.budget_remaining_of(&buyer, 0), Some(1000));
}

#[test]
fn settlement_of_unknown_offer_is_rejected() {
    let (_, buyer, mut l) = funded(1000);
    l.register_purchase_request(&buyer, params(100, 1000, 0)).unwrap();
    assert_eq!(
        l.submit_transfer_proof(&buyer, 0, &buyer, 0, &hash(1), &key(5), &hash(1), &[0u8; 64]),
        Err(OtoError::RecordNotFound)
    );
}

#[test]
fn settling_the_same_offer_twice_is_rejected() {
    let (_, buyer, mut l) = funded(1000);
    let owner = key(6);
    let provider = key(5);
    l.register_purchase_request(&buyer, params(100, 1000, 0)).unwrap();
    l.register_asset(&owner, &hash(1), 15, 5).unwrap();
    l.apply_asset_offer(&provider, &buyer, 0, &owner, &hash(1)).unwrap();
    l.submit_transfer_proof(&buyer, 0, &buyer, 0, &hash(1), &provider, &hash(1), &[9u8; 64])
        .unwrap();
    assert_eq!(
        l.submit_transfer_proof(&buyer, 0, &buyer, 0, &hash(1), &provider, &hash(1), &[9u8; 64]),
        Err(OtoError::StructuralDuplicate)
    );
    // no double payment: the ledger is exactly as after the first settlement
    assert_eq!(l.wallet_balance(&provider), 100);
    assert_eq!(l.budget_remaining_of(&buyer, 0), Some(900));
    assert_eq!(l.escrow_balance_of(&buyer, 0), Some(900));
}

#[test]
fn five_settlements_then_separate_request_exhausts() {
    let (_, buyer, mut l) = funded(1150);
    let owner = key(6);
    let provider = key(5);
    l.register_purchase_request(&buyer, params(100, 1000, 0)).unwrap();
    for n in 1..=5u8 {
        l.register_asset(&owner, &hash(n), 15, 5).unwrap();
        l.apply_asset_offer(&provider, &buyer, 0, &owner, &hash(n)).unwrap();
        l.submit_transfer_proof(&buyer, 0, &buyer, 0, &hash(n), &provider, &hash(n), &[n; 64])
            .unwrap();
    }
    assert_eq!(l.wallet_balance(&provider), 500);
    assert_eq!(l.budget_remaining_of(&buyer, 0), Some(500));
    assert_eq!(l.escrow_balance_of(&buyer, 0), Some(500));

    // a request funded with 150 at unit price 100 settles once, down to 50,
    // and the next settlement finds 50 < 100: exhausted, and 50 stays
    l.register_purchase_request(&buyer, params(100, 150, 1)).unwrap();
    l.register_asset(&owner, &hash(10), 15, 5).unwrap();
    l.register_asset(&owner, &hash(11), 15, 5).unwrap();
    l.apply_asset_offer(&provider, &buyer, 1, &owner, &hash(10)).unwrap();
    l.apply_asset_offer(&provider, &buyer, 1, &owner, &hash(11)).unwrap();
    l.submit_transfer_proof(&buyer, 1, &buyer, 1, &hash(10), &provider, &hash(10), &[0u8; 64])
        .unwrap();
    assert_eq!(l.budget_remaining_of(&buyer, 1), Some(50));
    assert_eq!(
        l.submit_transfer_proof(&buyer, 1, &buyer, 1, &hash(11), &provider, &hash(11), &[0u8; 64]),
        Err(OtoError::BudgetExhausted)
    );
    assert_eq!(l.budget_remaining_of(&buyer, 1), Some(50));
    assert_eq!(l.escrow_balance_of(&buyer, 1), Some(50));
}

#[test]
fn settlement_reads_price_from_the_named_request() {
    // the proof's address is derived from the offer alone; the budget and
    // escrow drawn are those of the purchase request the relayer names
    let (_, buyer, mut l) = funded(1300);
    let owner = key(6);
    let provider = key(5);
    l.register_purchase_request(&buyer, params(100, 1000, 0)).unwrap();
    l.register_purchase_request(&buyer, params(300, 300, 1)).unwrap();
    l.register_asset(&owner, &hash(1), 15, 5).unwrap();
    l.apply_asset_offer(&provider, &buyer, 0, &owner, &hash(1)).unwrap();
    // settle the nonce-0 offer against the nonce-1 request
    assert_eq!(
        l.submit_transfer_proof(&buyer, 1, &buyer, 0, &hash(1), &provider, &hash(1), &[0u8; 64]),
        Ok(())
    );
    assert_eq!(l.wallet_balance(&provider), 300);
    assert_eq!(l.budget_remaining_of(&buyer, 1), Some(0));
    assert_eq!(l.budget_remaining_of(&buyer, 0), Some(1000));
    assert_eq!(l.proof_price(&buyer, 0, &hash(1)), Some(300));
}
