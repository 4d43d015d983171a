use vstd::prelude::*;

verus! {

/// Longest user identifier the ledger accepts, in bytes.
pub const USER_ID_MAX_LEN: usize = 30;

/// The configuration singleton, written once at bootstrap and immutable
/// thereafter.  It names the administrator, the fungible token unit whose
/// balances the marketplace moves, and the collection the token belongs to.
#[derive(Clone, Copy)]
pub struct Oto {
    /// Identity allowed to credit claimable points and mint directly.
    pub admin: [u8; 32],
    /// Identity of the fungible token unit.
    pub mint: [u8; 32],
    /// Identity of the token's collection record.
    pub nft_collection: [u8; 32],
}

/// A per-user points account.  Its derived address is a function of
/// `user_id`, so one identifier names at most one record.
pub struct User {
    /// Identifier chosen at creation; at most [`USER_ID_MAX_LEN`] bytes.
    pub user_id: Vec<u8>,
    /// Points accrued by the administrator and not yet claimed.
    pub claimable_amount: u64,
    /// Identity entitled to claim; fixed at creation.
    pub owner: [u8; 32],
}

/// An immutable record of one registered asset, addressed by
/// (owner, content hash): the same owner cannot register a hash twice.
#[derive(Clone, Copy)]
pub struct AssetMetadata {
    /// Identity that registered the asset.
    pub owner: [u8; 32],
    /// Content hash identifying the asset's data.
    pub file_hash: [u8; 32],
    /// Day number used by the purchase request date filter.
    pub date: u32,
    /// Language code; purchase requests may filter on it, `0` is a wildcard
    /// on the request side.
    pub language: u8,
}

/// A buyer's budget reservation, addressed by (buyer, nonce).  Created with
/// `budget_remaining` equal to the funded maximum and thereafter mutated
/// only by settlement, which can only decrease it.
#[derive(Clone, Copy)]
pub struct PurchaseRequest {
    /// Identity that funded the request and owns its escrow.
    pub buyer: [u8; 32],
    /// Key the buyer designated for signing transfer proofs.  Settlement
    /// stores the submitted signature but does not verify it against this
    /// key — a known, deliberate gap in the protocol, kept visible here
    /// rather than papered over with a stricter check.
    pub buyer_pubkey: [u8; 32],
    /// Language an offered asset must carry; `0` accepts every language.
    pub filter_language: u8,
    /// First acceptable asset date, inclusive.
    pub start_date: u32,
    /// Last acceptable asset date, inclusive.
    pub end_date: u32,
    /// Units paid to the provider for each settled offer.
    pub unit_price: u64,
    /// Budget still available for settlement; monotonically non-increasing.
    pub budget_remaining: u64,
    /// Disambiguates several requests by one buyer.
    pub nonce: u8,
}

/// The argument bundle for registering a purchase request.
#[derive(Clone, Copy)]
pub struct RegisterPurchaseParams {
    pub buyer_pubkey: [u8; 32],
    pub filter_language: u8,
    pub start_date: u32,
    pub end_date: u32,
    pub unit_price: u64,
    pub max_budget: u64,
    pub nonce: u8,
}

/// A provisional binding of one asset to one purchase request, addressed by
/// (purchase request, content hash).  It moves no funds and reserves no
/// budget; it only records the match and the provider to pay at settlement.
#[derive(Clone, Copy)]
pub struct AssetOffer {
    /// Owner half of the offered asset's identity.
    pub asset_owner: [u8; 32],
    /// Content hash half of the offered asset's identity.
    pub file_hash: [u8; 32],
    /// Identity paid when the offer settles.
    pub provider: [u8; 32],
    /// Optional accrual against the offer; no operation here exercises it,
    /// so it stays zero.
    pub claimable_amount: u64,
}

/// The durable receipt of one settlement, addressed by the settled offer:
/// at most one proof can ever exist per offer, which is what makes double
/// settlement structurally impossible.
#[derive(Clone, Copy)]
pub struct TransferProof {
    /// Content hash the relayer submitted with the proof.
    pub file_hash: [u8; 32],
    /// Units actually charged: the request's unit price at settlement time.
    pub price: u64,
    /// Buyer signature bytes, stored but not verified (a documented gap in
    /// the protocol).
    pub buyer_sig: [u8; 64],
}

} // verus!
