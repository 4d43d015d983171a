//! An escrow ledger for a content marketplace.
//!
//! Buyers reserve a token budget against filter criteria (language, date
//! range), owners register hashed assets, providers bind assets to open
//! purchase requests with offers, and a relayer-submitted transfer proof
//! settles one offer by paying the provider out of the request's escrow and
//! debiting its budget.  A parallel points ledger lets an administrator
//! credit users with claimable points that convert into minted token units.
//!
//! The whole ledger is modelled as one state value, [`ledger::Ledger`]; every
//! operation is an all-or-nothing transition on it whose exact outcome and
//! next state are stated in its contract.  The central invariant — each
//! purchase request's escrow balance always equals its remaining budget, and
//! its settled total always equals funded minus remaining — is part of
//! [`ledger::LedgerView::wf`] and is preserved by every operation.

pub mod error;
pub mod states;
pub mod ledger;
pub mod points;
pub mod market;
pub mod laws;
