use oto::error::OtoError;
use oto::ledger::Ledger;

fn key(n: u8) -> [u8; 32] {
    let mut a = [0u8; 32];
    a[0] = n;
    a
}

fn booted() -> ([u8; 32], Ledger) {
    let admin = key(1);
    let mut l = Ledger::new();
    l.initialize_oto(&admin, &key(2), &key(3)).unwrap();
    (admin, l)
}

#[test]
fn bootstrap_sets_config_once() {
    let admin = key(1);
    let mut l = Ledger::new();
    assert_eq!(l.initialize_oto(&admin, &key(2), &key(3)), Ok(()));
    assert_eq!(
        l.initialize_oto(&key(9), &key(2), &key(3)),
        Err(OtoError::StructuralDuplicate)
    );
}

#[test]
fn initialize_user_requires_bootstrap() {
    let mut l = Ledger::new();
    assert_eq!(
        l.initialize_user(b"alice".to_vec(), &key(7)),
        Err(OtoError::RecordNotFound)
    );
}

#[test]
fn initialize_user_rejects_duplicate_id() {
    let (_, mut l) = booted();
    assert_eq!(l.initialize_user(b"alice".to_vec(), &key(7)), Ok(()));
    assert_eq!(
        l.initialize_user(b"alice".to_vec(), &key(8)),
        Err(OtoError::StructuralDuplicate)
    );
}

#[test]
fn initialize_user_accepts_longest_id() {
    let (_, mut l) = booted();
    let id = vec![7u8; 30];
    assert_eq!(l.initialize_user(id.clone(), &key(7)), Ok(()));
    assert_eq!(l.user_claimable(&id), Some(0));
}

#[test]
fn update_point_accrues_points() {
    let (admin, mut l) = booted();
    l.initialize_user(b"alice".to_vec(), &key(7)).unwrap();
    assert_eq!(l.update_point(&admin, &b"alice".to_vec(), 250), Ok(()));
    assert_eq!(l.user_claimable(&b"alice".to_vec()), Some(250));
}

#[test]
fn update_point_requires_admin() {
    let (_, mut l) = booted();
    l.initialize_user(b"alice".to_vec(), &key(7)).unwrap();
    assert_eq!(
        l.update_point(&key(9), &b"alice".to_vec(), 250),
        Err(OtoError::AuthorizationMismatch)
    );
    assert_eq!(l.user_claimable(&b"alice".to_vec()), Some(0));
}

#[test]
fn update_point_unknown_user() {
    let (admin, mut l) = booted();
    assert_eq!(
        l.update_point(&admin, &b"nobody".to_vec(), 1),
        Err(OtoError::RecordNotFound)
    );
}

#[test]
fn update_point_overflow_is_rejected() {
    let (admin, mut l) = booted();
    l.initialize_user(b"alice".to_vec(), &key(7)).unwrap();
    assert_eq!(l.update_point(&admin, &b"alice".to_vec(), u64::MAX), Ok(()));
    assert_eq!(
        l.update_point(&admin, &b"alice".to_vec(), 1),
        Err(OtoError::ArithmeticOverflow)
    );
    assert_eq!(l.user_claimable(&b"alice".to_vec()), Some(u64::MAX));
}

#[test]
fn claim_zero_is_rejected() {
    let (admin, mut l) = booted();
    let owner = key(7);
    l.initialize_user(b"alice".to_vec(), &owner).unwrap();
    l.update_point(&admin, &b"alice".to_vec(), 10).unwrap();
    assert_eq!(
        l.claim(&owner, &b"alice".to_vec(), 0),
        Err(OtoError::InsufficientClaimable)
    );
    assert_eq!(l.user_claimable(&b"alice".to_vec()), Some(10));
}

#[test]
fn claim_over_accrued_leaves_points_unchanged() {
    let (admin, mut l) = booted();
    let owner = key(7);
    l.initialize_user(b"alice".to_vec(), &owner).unwrap();
    l.update_point(&admin, &b"alice".to_vec(), 100).unwrap();
    assert_eq!(
        l.claim(&owner, &b"alice".to_vec(), 101),
        Err(OtoError::InsufficientClaimable)
    );
    assert_eq!(l.user_claimable(&b"alice".to_vec()), Some(100));
    assert_eq!(l.wallet_balance(&owner), 0);
}

#[test]
fn claim_requires_recorded_owner() {
    let (admin, mut l) = booted();
    l.initialize_user(b"alice".to_vec(), &key(7)).unwrap();
    l.update_point(&admin, &b"alice".to_vec(), 100).unwrap();
    assert_eq!(
        l.claim(&key(8), &b"alice".to_vec(), 50),
        Err(OtoError::AuthorizationMismatch)
    );
}

#[test]
fn accrue_then_claim_scenario() {
    let (admin, mut l) = booted();
    let owner = key(7);
    l.initialize_user(b"u".to_vec(), &owner).unwrap();
    assert_eq!(l.user_claimable(&b"u".to_vec()), Some(0));
    assert_eq!(l.update_point(&admin, &b"u".to_vec(), 250), Ok(()));
    assert_eq!(l.user_claimable(&b"u".to_vec()), Some(250));
    assert_eq!(
        l.claim(&owner, &b"u".to_vec(), 300),
        Err(OtoError::InsufficientClaimable)
    );
    assert_eq!(l.user_claimable(&b"u".to_vec()), Some(250));
    assert_eq!(l.claim(&owner, &b"u".to_vec(), 250), Ok(()));
    assert_eq!(l.user_claimable(&b"u".to_vec()), Some(0));
    assert_eq!(l.wallet_balance(&owner), 250);
}

#[test]
fn mint_requires_admin() {
    let (_, mut l) = booted();
    assert_eq!(
        l.mint_oto(&key(9), &key(7), 10),
        Err(OtoError::AuthorizationMismatch)
    );
}

#[test]
fn mint_zero_is_rejected() {
    let (admin, mut l) = booted();
    assert_eq!(
        l.mint_oto(&admin, &key(7), 0),
        Err(OtoError::InsufficientClaimable)
    );
}

#[test]
fn mint_credits_beneficiary() {
    let (admin, mut l) = booted();
    assert_eq!(l.mint_oto(&admin, &key(7), 40), Ok(()));
    assert_eq!(l.mint_oto(&admin, &key(7), 2), Ok(()));
    assert_eq!(l.wallet_balance(&key(7)), 42);
}

#[test]
fn mint_overflow_is_rejected() {
    let (admin, mut l) = booted();
    l.mint_oto(&admin, &key(7), u64::MAX).unwrap();
    assert_eq!(
        l.mint_oto(&admin, &key(7), 1),
        Err(OtoError::ArithmeticOverflow)
    );
    assert_eq!(l.wallet_balance(&key(7)), u64::MAX);
}
