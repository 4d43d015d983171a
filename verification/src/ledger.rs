use vstd::prelude::*;

use crate::error::OtoError;
use crate::states::{AssetMetadata, AssetOffer, Oto, PurchaseRequest, TransferProof, User, USER_ID_MAX_LEN};

verus! {

/// One token balance: `owner` is the identity the balance belongs to.
/// Purchase-request escrows are not wallets; each lives inside its
/// [`PurchaseEntry`], owned by the request's derived authority alone.
#[derive(Clone, Copy)]
pub struct Wallet {
    pub owner: [u8; 32],
    pub balance: u64,
}

/// A purchase request together with the token balances that only exist
/// because of it: the escrow it exclusively controls, the total it was
/// funded with, and the total settled out of it so far.
#[derive(Clone, Copy)]
pub struct PurchaseEntry {
    pub request: PurchaseRequest,
    /// Units held under the request's derived authority.  Well-formedness
    /// keeps this equal to `request.budget_remaining` at all times.
    pub escrow_balance: u64,
    /// The `max_budget` the request was created with; never changes.
    pub funded: u64,
    /// Sum of all amounts settled out of this request's escrow so far.
    pub settled: u64,
}

/// An offer record keyed by the purchase request it was made against
/// (`buyer`, `nonce`) and the offered asset's content hash.
#[derive(Clone, Copy)]
pub struct OfferEntry {
    pub buyer: [u8; 32],
    pub nonce: u8,
    pub offer: AssetOffer,
}

/// A settlement receipt keyed by the offer it settled.
#[derive(Clone, Copy)]
pub struct ProofEntry {
    pub buyer: [u8; 32],
    pub nonce: u8,
    pub file_hash: [u8; 32],
    pub proof: TransferProof,
}

/// The whole ledger as one value: every durable record plus every token
/// balance the marketplace can move.  Each operation is a method taking
/// `&mut self` that either commits completely or leaves `self` untouched.
pub struct Ledger {
    pub config: Option<Oto>,
    pub users: Vec<User>,
    pub assets: Vec<AssetMetadata>,
    pub purchases: Vec<PurchaseEntry>,
    pub offers: Vec<OfferEntry>,
    pub proofs: Vec<ProofEntry>,
    pub wallets: Vec<Wallet>,
}

/// The ledger's mathematical model: the same stores as sequences.
pub ghost struct LedgerView {
    pub config: Option<Oto>,
    pub users: Seq<User>,
    pub assets: Seq<AssetMetadata>,
    pub purchases: Seq<PurchaseEntry>,
    pub offers: Seq<OfferEntry>,
    pub proofs: Seq<ProofEntry>,
    pub wallets: Seq<Wallet>,
}

impl View for Ledger {
    type V = LedgerView;

    open spec fn view(&self) -> LedgerView {
        LedgerView {
            config: self.config,
            users: self.users@,
            assets: self.assets@,
            purchases: self.purchases@,
            offers: self.offers@,
            proofs: self.proofs@,
            wallets: self.wallets@,
        }
    }
}

/// Index of the first element of `s` satisfying `p`, or `-1` if none does.
/// Derived addressing is modelled by these first-match lookups: under
/// well-formedness each key matches at most one record, so the first match
/// is the only one.
pub open spec fn find_idx<T>(s: Seq<T>, p: spec_fn(T) -> bool) -> int
    decreases s.len(),
{
    if s.len() == 0 {
        -1
    } else if p(s[0]) {
        0
    } else {
        let r = find_idx(s.drop_first(), p);
        if r < 0 {
            -1
        } else {
            r + 1
        }
    }
}

/// What `find_idx` returns: either `-1` and nothing matches, or the first
/// matching index.
pub proof fn lemma_find_idx_props<T>(s: Seq<T>, p: spec_fn(T) -> bool)
    ensures
        find_idx(s, p) >= -1,
        find_idx(s, p) == -1 ==> forall|i: int| 0 <= i < s.len() ==> !p(#[trigger] s[i]),
        find_idx(s, p) >= 0 ==> find_idx(s, p) < s.len() && p(s[find_idx(s, p)]) && forall|i: int|
            0 <= i < find_idx(s, p) ==> !p(#[trigger] s[i]),
    decreases s.len(),
{
    if s.len() > 0 && !p(s[0]) {
        lemma_find_idx_props(s.drop_first(), p);
        assert(forall|i: int| 1 <= i < s.len() ==> #[trigger] s[i] == s.drop_first()[i - 1]);
    }
}

/// `find_idx` only looks at which elements satisfy the predicate, so two
/// pointwise-agreeing searches land on the same index.
pub proof fn lemma_find_idx_pointwise<T, U>(
    s1: Seq<T>,
    p1: spec_fn(T) -> bool,
    s2: Seq<U>,
    p2: spec_fn(U) -> bool,
)
    requires
        s1.len() == s2.len(),
        forall|i: int| 0 <= i < s1.len() ==> p1(#[trigger] s1[i]) == p2(#[trigger] s2[i]),
    ensures
        find_idx(s1, p1) == find_idx(s2, p2),
    decreases s1.len(),
{
    if s1.len() > 0 {
        assert(p1(s1[0]) == p2(s2[0]));
        if !p1(s1[0]) {
            assert forall|i: int| 0 <= i < s1.drop_first().len() implies p1(
                #[trigger] s1.drop_first()[i]) == p2(#[trigger] s2.drop_first()[i]) by {
                assert(s1.drop_first()[i] == s1[i + 1]);
                assert(s2.drop_first()[i] == s2[i + 1]);
            }
            lemma_find_idx_pointwise(s1.drop_first(), p1, s2.drop_first(), p2);
        }
    }
}

/// Appending an element leaves an existing first match where it was; if
/// nothing matched before, the appended element is found exactly when it
/// satisfies the predicate.
pub proof fn lemma_find_idx_push<T>(s: Seq<T>, p: spec_fn(T) -> bool, x: T)
    ensures
        find_idx(s, p) >= 0 ==> find_idx(s.push(x), p) == find_idx(s, p),
        find_idx(s, p) == -1 && p(x) ==> find_idx(s.push(x), p) == s.len(),
        find_idx(s, p) == -1 && !p(x) ==> find_idx(s.push(x), p) == -1,
    decreases s.len(),
{
    if s.len() == 0 {
        assert(s.push(x)[0] == x);
        assert(s.push(x).drop_first() =~= Seq::<T>::empty());
        assert(find_idx(s.push(x).drop_first(), p) == -1);
    } else {
        assert(s.push(x)[0] == s[0]);
        if !p(s[0]) {
            lemma_find_idx_push(s.drop_first(), p, x);
            assert(s.push(x).drop_first() =~= s.drop_first().push(x));
            assert(find_idx(s.push(x).drop_first(), p) == find_idx(s.drop_first().push(x), p));
        }
    }
}

// ---------------------------------------------------------------------------
// Record keys.  Each store is addressed by the key its derived address is
// computed from; these name the matching predicates once so that contracts,
// lemmas, and lookups all speak of the same function values.
// ---------------------------------------------------------------------------

pub open spec fn user_pred(user_id: Seq<u8>) -> spec_fn(User) -> bool {
    |u: User| u.user_id@ == user_id
}

pub open spec fn asset_pred(owner: Seq<u8>, file_hash: Seq<u8>) -> spec_fn(AssetMetadata) -> bool {
    |a: AssetMetadata| a.owner@ == owner && a.file_hash@ == file_hash
}

pub open spec fn purchase_pred(buyer: Seq<u8>, nonce: u8) -> spec_fn(PurchaseEntry) -> bool {
    |p: PurchaseEntry| p.request.buyer@ == buyer && p.request.nonce == nonce
}

pub open spec fn offer_pred(buyer: Seq<u8>, nonce: u8, file_hash: Seq<u8>) -> spec_fn(
    OfferEntry,
) -> bool {
    |o: OfferEntry| o.buyer@ == buyer && o.nonce == nonce && o.offer.file_hash@ == file_hash
}

pub open spec fn proof_pred(buyer: Seq<u8>, nonce: u8, file_hash: Seq<u8>) -> spec_fn(
    ProofEntry,
) -> bool {
    |p: ProofEntry| p.buyer@ == buyer && p.nonce == nonce && p.file_hash@ == file_hash
}

pub open spec fn wallet_pred(owner: Seq<u8>) -> spec_fn(Wallet) -> bool {
    |w: Wallet| w.owner@ == owner
}

impl LedgerView {
    pub open spec fn user_index(self, user_id: Seq<u8>) -> int {
        find_idx(self.users, user_pred(user_id))
    }

    pub open spec fn asset_index(self, owner: Seq<u8>, file_hash: Seq<u8>) -> int {
        find_idx(self.assets, asset_pred(owner, file_hash))
    }

    pub open spec fn purchase_index(self, buyer: Seq<u8>, nonce: u8) -> int {
        find_idx(self.purchases, purchase_pred(buyer, nonce))
    }

    pub open spec fn offer_index(self, buyer: Seq<u8>, nonce: u8, file_hash: Seq<u8>) -> int {
        find_idx(self.offers, offer_pred(buyer, nonce, file_hash))
    }

    pub open spec fn proof_index(self, buyer: Seq<u8>, nonce: u8, file_hash: Seq<u8>) -> int {
        find_idx(self.proofs, proof_pred(buyer, nonce, file_hash))
    }

    pub open spec fn wallet_index(self, owner: Seq<u8>) -> int {
        find_idx(self.wallets, wallet_pred(owner))
    }

    /// Well-formedness.  The uniqueness conjuncts model derived addressing:
    /// a key can occupy at most one address.  The last two conjuncts are the
    /// escrow-accounting invariant: each request's escrow holds exactly its
    /// remaining budget, and what was funded is exactly what was settled
    /// plus what remains.
    pub open spec fn wf(self) -> bool {
        &&& forall|i: int, j: int|
            0 <= i < j < self.users.len() ==> (#[trigger] self.users[i]).user_id@ != (
            #[trigger] self.users[j]).user_id@
        &&& forall|i: int|
            0 <= i < self.users.len() ==> (#[trigger] self.users[i]).user_id@.len()
                <= USER_ID_MAX_LEN
        &&& forall|i: int, j: int|
            0 <= i < j < self.assets.len() ==> !((#[trigger] self.assets[i]).owner@ == (
            #[trigger] self.assets[j]).owner@ && self.assets[i].file_hash@
                == self.assets[j].file_hash@)
        &&& forall|i: int, j: int|
            0 <= i < j < self.purchases.len() ==> !((#[trigger] self.purchases[i]).request.buyer@
                == (#[trigger] self.purchases[j]).request.buyer@ && self.purchases[i].request.nonce
                == self.purchases[j].request.nonce)
        &&& forall|i: int, j: int|
            0 <= i < j < self.offers.len() ==> !((#[trigger] self.offers[i]).buyer@ == (
            #[trigger] self.offers[j]).buyer@ && self.offers[i].nonce == self.offers[j].nonce
                && self.offers[i].offer.file_hash@ == self.offers[j].offer.file_hash@)
        &&& forall|i: int, j: int|
            0 <= i < j < self.proofs.len() ==> !((#[trigger] self.proofs[i]).buyer@ == (
            #[trigger] self.proofs[j]).buyer@ && self.proofs[i].nonce == self.proofs[j].nonce
                && self.proofs[i].file_hash@ == self.proofs[j].file_hash@)
        &&& forall|i: int, j: int|
            0 <= i < j < self.wallets.len() ==> (#[trigger] self.wallets[i]).owner@ != (
            #[trigger] self.wallets[j]).owner@
        &&& forall|i: int|
            0 <= i < self.purchases.len() ==> (#[trigger] self.purchases[i]).escrow_balance
                == self.purchases[i].request.budget_remaining
        &&& forall|i: int|
            0 <= i < self.purchases.len() ==> (#[trigger] self.purchases[i]).settled
                + self.purchases[i].request.budget_remaining == self.purchases[i].funded
    }

    /// Balance held for `owner`, zero when no wallet record exists yet.
    pub open spec fn balance_of(self, owner: Seq<u8>) -> nat {
        if self.wallet_index(owner) >= 0 {
            self.wallets[self.wallet_index(owner)].balance as nat
        } else {
            0
        }
    }
}

impl Ledger {
    pub open spec fn wf(self) -> bool {
        self@.wf()
    }

    /// The empty ledger: no configuration, no records, no balances.
    pub fn new() -> (l: Ledger)
        ensures
            l.wf(),
            l@.config is None,
            l@.users =~= Seq::<User>::empty(),
            l@.assets =~= Seq::<AssetMetadata>::empty(),
            l@.purchases =~= Seq::<PurchaseEntry>::empty(),
            l@.offers =~= Seq::<OfferEntry>::empty(),
            l@.proofs =~= Seq::<ProofEntry>::empty(),
            l@.wallets =~= Seq::<Wallet>::empty(),
    {
        Ledger {
            config: None,
            users: Vec::new(),
            assets: Vec::new(),
            purchases: Vec::new(),
            offers: Vec::new(),
            proofs: Vec::new(),
            wallets: Vec::new(),
        }
    }
}

/// Byte-for-byte equality of two 32-byte identities or content hashes.
pub fn key_eq(a: &[u8; 32], b: &[u8; 32]) -> (r: bool)
    ensures
        r == (a@ == b@),
{
    let mut k: usize = 0;
    while k < 32
        invariant
            k <= 32,
            forall|j: int| 0 <= j < k ==> a@[j] == b@[j],
        decreases 32 - k,
    {
        if a[k] != b[k] {
            assert(a@[k as int] != b@[k as int]);
            return false;
        }
        k += 1;
    }
    assert(a@ =~= b@);
    true
}

/// Byte-for-byte equality of two identifiers.
pub fn bytes_eq(a: &Vec<u8>, b: &Vec<u8>) -> (r: bool)
    ensures
        r == (a@ == b@),
{
    if a.len() != b.len() {
        return false;
    }
    let mut k: usize = 0;
    while k < a.len()
        invariant
            k <= a@.len(),
            a@.len() == b@.len(),
            forall|j: int| 0 <= j < k ==> a@[j] == b@[j],
        decreases a@.len() - k,
    {
        if a[k] != b[k] {
            assert(a@[k as int] != b@[k as int]);
            return false;
        }
        k += 1;
    }
    assert(a@ =~= b@);
    true
}

impl LedgerView {
    /// Outcome of bootstrapping the configuration singleton: it can be
    /// written exactly once.
    pub open spec fn initialize_oto_outcome(self) -> Result<(), OtoError> {
        if self.config is Some {
            Err(OtoError::StructuralDuplicate)
        } else {
            Ok(())
        }
    }

    pub open spec fn initialize_oto_next(
        self,
        payer: [u8; 32],
        mint: [u8; 32],
        nft_collection: [u8; 32],
    ) -> LedgerView {
        if self.initialize_oto_outcome() is Ok {
            LedgerView {
                config: Some(Oto { admin: payer, mint, nft_collection }),
                ..self
            }
        } else {
            self
        }
    }
}

impl LedgerView {
    /// Whether `amount` more units fit into `owner`'s balance.  A missing
    /// balance record counts as zero and is created on first credit.
    pub open spec fn wallet_credit_outcome(self, owner: [u8; 32], amount: u64) -> Result<
        (),
        OtoError,
    > {
        let i = self.wallet_index(owner@);
        if i >= 0 && self.wallets[i].balance + amount > u64::MAX {
            Err(OtoError::ArithmeticOverflow)
        } else {
            Ok(())
        }
    }

    /// The ledger after crediting `amount` units to `owner`, unchanged when
    /// the credit would overflow.
    pub open spec fn wallet_credit_next(self, owner: [u8; 32], amount: u64) -> LedgerView {
        if self.wallet_credit_outcome(owner, amount) is Ok {
            let i = self.wallet_index(owner@);
            if i >= 0 {
                LedgerView {
                    wallets: self.wallets.update(
                        i,
                        Wallet {
                            balance: (self.wallets[i].balance + amount) as u64,
                            ..self.wallets[i]
                        },
                    ),
                    ..self
                }
            } else {
                LedgerView { wallets: self.wallets.push(Wallet { owner, balance: amount }), ..self }
            }
        } else {
            self
        }
    }
}

impl Ledger {
    /// Add `amount` units to `owner`'s balance, creating the balance record
    /// on first use, exactly as the token substrate treats the destination
    /// of a mint or transfer.
    pub(crate) fn credit_wallet(&mut self, owner: &[u8; 32], amount: u64) -> (r: Result<(), OtoError>)
        requires
            old(self).wf(),
        ensures
            final(self).wf(),
            r == old(self)@.wallet_credit_outcome(*owner, amount),
            final(self)@ == old(self)@.wallet_credit_next(*owner, amount),
            r is Ok ==> final(self)@.balance_of(owner@) == old(self)@.balance_of(owner@) + amount,
            r is Err ==> final(self)@ == old(self)@,
    {
        let ghost pre = self@;
        match self.lookup_wallet(owner) {
            Some(i) => {
                let bal = self.wallets[i].balance;
                if amount > u64::MAX - bal {
                    return Err(OtoError::ArithmeticOverflow);
                }
                self.wallets[i].balance = bal + amount;
                proof {
                    lemma_find_idx_props(pre.wallets, wallet_pred(owner@));
                    lemma_find_idx_pointwise(
                        pre.wallets,
                        wallet_pred(owner@),
                        self@.wallets,
                        wallet_pred(owner@),
                    );
                    assert(self@.wallets[i as int].owner@ == pre.wallets[i as int].owner@);
                }
                Ok(())
            },
            None => {
                let w = Wallet { owner: *owner, balance: amount };
                self.wallets.push(w);
                proof {
                    lemma_find_idx_props(pre.wallets, wallet_pred(owner@));
                    lemma_find_idx_push(pre.wallets, wallet_pred(owner@), w);
                    assert(wallet_pred(owner@)(w));
                    assert(forall|j: int|
                        0 <= j < pre.wallets.len() ==> !wallet_pred(owner@)(
                            #[trigger] pre.wallets[j],
                        ));
                }
                Ok(())
            },
        }
    }

    /// Index of the user record for `user_id`, if one exists.
    pub fn lookup_user(&self, user_id: &Vec<u8>) -> (r: Option<usize>)
        ensures
            ({
                let i = self@.user_index(user_id@);
                match r {
                    Some(k) => k < self.users.len() && k as int == i,
                    None => i == -1,
                }
            }),
    {
        proof {
            lemma_find_idx_props(self@.users, user_pred(user_id@));
        }
        let mut k: usize = 0;
        while k < self.users.len()
            invariant
                k <= self.users.len(),
                forall|j: int| 0 <= j < k ==> (#[trigger] self.users@[j]).user_id@ != user_id@,
            decreases self.users.len() - k,
        {
            if bytes_eq(&self.users[k].user_id, user_id) {
                proof {
                    lemma_find_idx_props(self@.users, user_pred(user_id@));
                    assert(user_pred(user_id@)(self@.users[k as int]));
                }
                return Some(k);
            }
            k += 1;
        }
        None
    }

    /// Index of the asset record for (`owner`, `file_hash`), if one exists.
    pub fn lookup_asset(&self, owner: &[u8; 32], file_hash: &[u8; 32]) -> (r: Option<usize>)
        ensures
            ({
                let i = self@.asset_index(owner@, file_hash@);
                match r {
                    Some(k) => k < self.assets.len() && k as int == i,
                    None => i == -1,
                }
            }),
    {
        proof {
            lemma_find_idx_props(self@.assets, asset_pred(owner@, file_hash@));
        }
        let mut k: usize = 0;
        while k < self.assets.len()
            invariant
                k <= self.assets.len(),
                forall|j: int|
                    0 <= j < k ==> !((#[trigger] self.assets@[j]).owner@ == owner@
                        && self.assets@[j].file_hash@ == file_hash@),
            decreases self.assets.len() - k,
        {
            if key_eq(&self.assets[k].owner, owner) && key_eq(&self.assets[k].file_hash, file_hash) {
                proof {
                    lemma_find_idx_props(self@.assets, asset_pred(owner@, file_hash@));
                    assert(asset_pred(owner@, file_hash@)(self@.assets[k as int]));
                }
                return Some(k);
            }
            k += 1;
        }
        None
    }

    /// Index of the purchase entry for (`buyer`, `nonce`), if one exists.
    pub fn lookup_purchase(&self, buyer: &[u8; 32], nonce: u8) -> (r: Option<usize>)
        ensures
            ({
                let i = self@.purchase_index(buyer@, nonce);
                match r {
                    Some(k) => k < self.purchases.len() && k as int == i,
                    None => i == -1,
                }
            }),
    {
        proof {
            lemma_find_idx_props(self@.purchases, purchase_pred(buyer@, nonce));
        }
        let mut k: usize = 0;
        while k < self.purchases.len()
            invariant
                k <= self.purchases.len(),
                forall|j: int|
                    0 <= j < k ==> !((#[trigger] self.purchases@[j]).request.buyer@ == buyer@
                        && self.purchases@[j].request.nonce == nonce),
            decreases self.purchases.len() - k,
        {
            if key_eq(&self.purchases[k].request.buyer, buyer) && self.purchases[k].request.nonce
                == nonce {
                proof {
                    lemma_find_idx_props(self@.purchases, purchase_pred(buyer@, nonce));
                    assert(purchase_pred(buyer@, nonce)(self@.purchases[k as int]));
                }
                return Some(k);
            }
            k += 1;
        }
        None
    }

    /// Index of the offer entry for its full key, if one exists.
    pub fn lookup_offer(&self, buyer: &[u8; 32], nonce: u8, file_hash: &[u8; 32]) -> (r: Option<
        usize,
    >)
        ensures
            ({
                let i = self@.offer_index(buyer@, nonce, file_hash@);
                match r {
                    Some(k) => k < self.offers.len() && k as int == i,
                    None => i == -1,
                }
            }),
    {
        proof {
            lemma_find_idx_props(self@.offers, offer_pred(buyer@, nonce, file_hash@));
        }
        let mut k: usize = 0;
        while k < self.offers.len()
            invariant
                k <= self.offers.len(),
                forall|j: int|
                    0 <= j < k ==> !((#[trigger] self.offers@[j]).buyer@ == buyer@
                        && self.offers@[j].nonce == nonce && self.offers@[j].offer.file_hash@
                        == file_hash@),
            decreases self.offers.len() - k,
        {
            if key_eq(&self.offers[k].buyer, buyer) && self.offers[k].nonce == nonce && key_eq(
                &self.offers[k].offer.file_hash,
                file_hash,
            ) {
                proof {
                    lemma_find_idx_props(self@.offers, offer_pred(buyer@, nonce, file_hash@));
                    assert(offer_pred(buyer@, nonce, file_hash@)(self@.offers[k as int]));
                }
                return Some(k);
            }
            k += 1;
        }
        None
    }

    /// Index of the settlement receipt for an offer key, if one exists.
    pub fn lookup_proof(&self, buyer: &[u8; 32], nonce: u8, file_hash: &[u8; 32]) -> (r: Option<
        usize,
    >)
        ensures
            ({
                let i = self@.proof_index(buyer@, nonce, file_hash@);
                match r {
                    Some(k) => k < self.proofs.len() && k as int == i,
                    None => i == -1,
                }
            }),
    {
        proof {
            lemma_find_idx_props(self@.proofs, proof_pred(buyer@, nonce, file_hash@));
        }
        let mut k: usize = 0;
        while k < self.proofs.len()
            invariant
                k <= self.proofs.len(),
                forall|j: int|
                    0 <= j < k ==> !((#[trigger] self.proofs@[j]).buyer@ == buyer@
                        && self.proofs@[j].nonce == nonce && self.proofs@[j].file_hash@
                        == file_hash@),
            decreases self.proofs.len() - k,
        {
            if key_eq(&self.proofs[k].buyer, buyer) && self.proofs[k].nonce == nonce && key_eq(
                &self.proofs[k].file_hash,
                file_hash,
            ) {
                proof {
                    lemma_find_idx_props(self@.proofs, proof_pred(buyer@, nonce, file_hash@));
                    assert(proof_pred(buyer@, nonce, file_hash@)(self@.proofs[k as int]));
                }
                return Some(k);
            }
            k += 1;
        }
        None
    }

    /// Index of the wallet holding `owner`'s balance, if one exists.
    pub fn lookup_wallet(&self, owner: &[u8; 32]) -> (r: Option<usize>)
        ensures
            ({
                let i = self@.wallet_index(owner@);
                match r {
                    Some(k) => k < self.wallets.len() && k as int == i,
                    None => i == -1,
                }
            }),
    {
        proof {
            lemma_find_idx_props(self@.wallets, wallet_pred(owner@));
        }
        let mut k: usize = 0;
        while k < self.wallets.len()
            invariant
                k <= self.wallets.len(),
                forall|j: int| 0 <= j < k ==> (#[trigger] self.wallets@[j]).owner@ != owner@,
            decreases self.wallets.len() - k,
        {
            if key_eq(&self.wallets[k].owner, owner) {
                proof {
                    lemma_find_idx_props(self@.wallets, wallet_pred(owner@));
                    assert(wallet_pred(owner@)(self@.wallets[k as int]));
                }
                return Some(k);
            }
            k += 1;
        }
        None
    }

    /// Claimable points of `user_id`, if that user exists.
    pub fn user_claimable(&self, user_id: &Vec<u8>) -> (r: Option<u64>)
        ensures
            ({
                let i = self@.user_index(user_id@);
                if i >= 0 {
                    r == Some(self@.users[i].claimable_amount)
                } else {
                    r is None
                }
            }),
    {
        match self.lookup_user(user_id) {
            Option::Some(i) => Some(self.users[i].claimable_amount),
            Option::None => None,
        }
    }

    /// Balance held for `owner`; zero when no balance record exists.
    pub fn wallet_balance(&self, owner: &[u8; 32]) -> (r: u64)
        ensures
            r as nat == self@.balance_of(owner@),
    {
        match self.lookup_wallet(owner) {
            Option::Some(i) => self.wallets[i].balance,
            Option::None => 0,
        }
    }

    /// Remaining budget of the purchase request (buyer, nonce), if it
    /// exists.
    pub fn budget_remaining_of(&self, buyer: &[u8; 32], nonce: u8) -> (r: Option<u64>)
        ensures
            ({
                let i = self@.purchase_index(buyer@, nonce);
                if i >= 0 {
                    r == Some(self@.purchases[i].request.budget_remaining)
                } else {
                    r is None
                }
            }),
    {
        match self.lookup_purchase(buyer, nonce) {
            Option::Some(i) => Some(self.purchases[i].request.budget_remaining),
            Option::None => None,
        }
    }

    /// Escrow balance of the purchase request (buyer, nonce), if it exists.
    pub fn escrow_balance_of(&self, buyer: &[u8; 32], nonce: u8) -> (r: Option<u64>)
        ensures
            ({
                let i = self@.purchase_index(buyer@, nonce);
                if i >= 0 {
                    r == Some(self@.purchases[i].escrow_balance)
                } else {
                    r is None
                }
            }),
    {
        match self.lookup_purchase(buyer, nonce) {
            Option::Some(i) => Some(self.purchases[i].escrow_balance),
            Option::None => None,
        }
    }

    /// Whether a settlement receipt exists for the offer named by this key.
    pub fn has_proof(&self, buyer: &[u8; 32], nonce: u8, file_hash: &[u8; 32]) -> (r: bool)
        ensures
            r == (self@.proof_index(buyer@, nonce, file_hash@) >= 0),
    {
        self.lookup_proof(buyer, nonce, file_hash).is_some()
    }

    /// The price recorded on the settlement receipt for an offer key, if
    /// that offer has settled.
    pub fn proof_price(&self, buyer: &[u8; 32], nonce: u8, file_hash: &[u8; 32]) -> (r: Option<u64>)
        ensures
            ({
                let i = self@.proof_index(buyer@, nonce, file_hash@);
                if i >= 0 {
                    r == Some(self@.proofs[i].proof.price)
                } else {
                    r is None
                }
            }),
    {
        match self.lookup_proof(buyer, nonce, file_hash) {
            Option::Some(i) => Some(self.proofs[i].proof.price),
            Option::None => None,
        }
    }

    /// Write the configuration singleton: the identity that pays for the
    /// bootstrap becomes the administrator.  Fails if a configuration
    /// already exists, and is the only operation that can create one.
    pub fn initialize_oto(
        &mut self,
        payer: &[u8; 32],
        mint: &[u8; 32],
        nft_collection: &[u8; 32],
    ) -> (r: Result<(), OtoError>)
        requires
            old(self).wf(),
        ensures
            final(self).wf(),
            r == old(self)@.initialize_oto_outcome(),
            final(self)@ == old(self)@.initialize_oto_next(*payer, *mint, *nft_collection),
    {
        if self.config.is_some() {
            return Err(OtoError::StructuralDuplicate);
        }
        self.config = Some(Oto { admin: *payer, mint: *mint, nft_collection: *nft_collection });
        Ok(())
    }
}

} // verus!
