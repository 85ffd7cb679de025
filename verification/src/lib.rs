//! A minimal fungible-token ledger: a fixed total supply of an abstract
//! asset is tracked across accounts, and accounts move balances to one
//! another through a verified transfer operation.
//!
//! The ledger itself is the verified core. The host environment that
//! authenticates callers, persists the ledger between invocations and
//! publishes notification records is an external collaborator: the ledger
//! takes the authenticated caller as an explicit argument and hands every
//! notification record back to its caller for publication.

use vstd::prelude::*;

mod entries;
pub mod ledger;

pub use ledger::Erc20;
pub use ledger::Transfered;

verus! {

/// An opaque, fixed-width identifier for a participant. Only equality of
/// identifiers matters to the ledger; the host decides what they denote.
#[derive(Clone, Copy, PartialEq, Eq, Hash, Debug, Structural)]
pub struct AccountId(pub u128);

/// A non-negative balance quantity, wide enough that the whole supply fits
/// in a single account without overflow.
pub type Balance = u128;

} // verus!
