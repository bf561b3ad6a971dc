//! A registry of uniquely owned tokens: ownership, third-party approvals,
//! royalty-split payouts, and an optimistic transfer protocol that hands a
//! token to a receiving program and reconciles the outcome through a later
//! callback.
//!
//! Every operation takes an explicit [`RequestContext`] in place of ambient
//! environment lookups, so authorization and budget partitioning are plain
//! functions of their arguments.

use vstd::prelude::*;

pub mod codec;
pub mod contract_source;
pub mod laws;
pub mod market;
pub mod nft_core;
pub mod registry;
pub mod royalty;
pub mod str_map;
pub mod token;

verus! {

/// Account identifiers are strings of 2 to 64 characters, as the host
/// environment validates them before a call reaches the registry.
pub type AccountId = String;

/// Tokens are identified by an opaque string id.
pub type TokenId = String;

/// Cap in basis points on the registry-owner royalty rate.
pub const CONTRACT_ROYALTY_CAP: u32 = 1000;

/// Cap in basis points on the platform royalty rate.
pub const CONTRACT_ROYALTY_CAP_SATORI: u32 = 250;

/// Cap in basis points on the total royalty a minter may configure.
pub const MINTER_ROYALTY_CAP: u32 = 2000;

/// The fixed platform account that receives the platform royalty share.
pub const SATORI_ROYALTY_ACCOUNT: &'static str = "snft.near";

/// Price of one byte of durable storage, in native balance units.
pub const STORAGE_PRICE_PER_BYTE: u128 = 10_000_000_000_000_000_000;

/// Budget handed to the approval notification.
pub const GAS_FOR_NFT_APPROVE: u64 = 25_000_000_000_000;

/// Budget reserved for the reconciliation step of a notify-variant
/// transfer; under-provisioning it could make rollback itself fail.
pub const GAS_FOR_RESOLVE_TRANSFER: u64 = 10_000_000_000_000;

/// Least budget a notify-variant transfer needs: the receiver's share
/// plus the reserved reconciliation share.
pub const GAS_FOR_NFT_TRANSFER_CALL: u64 = 25_000_000_000_000 + 10_000_000_000_000;

/// Everything a registry call needs from its environment: who called,
/// what deposit the call attached, and how much computation budget remains.
pub struct RequestContext {
    /// The account that issued this call.
    pub predecessor_id: AccountId,
    /// Native balance units attached to the call for storage rent.
    pub attached_deposit: u128,
    /// Remaining computation budget for this call chain.
    pub prepaid_gas: u64,
}

/// Why a registry operation was refused. Every failure leaves the
/// registry unchanged.
#[derive(Clone, Copy, Debug, PartialEq, Eq, Structural)]
pub enum Error {
    /// The named token (or other record) does not exist.
    NotFound,
    /// The caller fails the ownership or approval check.
    Unauthorized,
    /// The token's royalty map has more entries than the payout budget allows.
    TooManyReceivers,
    /// The combined royalty total exceeds the configured caps.
    RoyaltyCapExceeded,
    /// The attached deposit does not cover the storage growth.
    InsufficientDeposit,
}

/// An account identifier the host environment would accept.
pub open spec fn valid_account_id(s: Seq<char>) -> bool {
    2 <= s.len() <= 64
}

} // verus!
