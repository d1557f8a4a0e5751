//! Addresses of accounts and contracts.

use vstd::prelude::*;

verus! {

/// What an address stands for.
#[derive(Clone, Copy, PartialEq, Eq, Structural, Debug)]
pub enum AddressKind {
    /// An account; the identifier is its Ed25519 master key.
    Account,
    /// A contract; the identifier is the contract's hash.
    Contract,
}

/// An address on the network: its kind and its 256-bit identifier, most
/// significant half first.
#[derive(Clone, Copy, PartialEq, Eq, Structural, Debug)]
pub struct Address {
    pub kind: AddressKind,
    pub high: u128,
    pub low: u128,
}

} // verus!
