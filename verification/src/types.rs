//! Core data model: asset identifiers, balances, pair lifecycle state and
//! the closed error taxonomy surfaced to callers.

use vstd::prelude::*;

verus! {

/// Balance or amount of a fungible asset. All arithmetic on balances is
/// checked or saturating, never silently wrapping.
pub type AssetBalance = u128;

/// Account identifier. User accounts are arbitrary values; each pair's
/// settlement account is derived deterministically from a hash of the
/// sorted pair.
pub type AccountId = u128;

/// Block height, the time source consulted when a bootstrap deadline is
/// checked. The surrounding ledger supplies it.
pub type BlockNumber = u64;

/// Asset class of pool-share (LP) assets minted by this module.
pub const LOCAL: u8 = 2;

/// Identifier of a fungible asset: chain scope, asset class and numeric
/// index. Totally ordered; the order is the canonicalization key for pairs.
#[derive(Clone, Copy, PartialEq, Eq, Structural, Debug)]
pub struct AssetId {
    pub chain_id: u32,
    pub asset_type: u8,
    pub asset_index: u64,
}

impl AssetId {
    /// Lexicographic order on (chain_id, asset_type, asset_index).
    pub open spec fn lt_spec(self, other: Self) -> bool {
        ||| self.chain_id < other.chain_id
        ||| (self.chain_id == other.chain_id && self.asset_type < other.asset_type)
        ||| (self.chain_id == other.chain_id && self.asset_type == other.asset_type
            && self.asset_index < other.asset_index)
    }

    pub fn lt(&self, other: &Self) -> (r: bool)
        ensures
            r == self.lt_spec(*other),
    {
        if self.chain_id != other.chain_id {
            self.chain_id < other.chain_id
        } else if self.asset_type != other.asset_type {
            self.asset_type < other.asset_type
        } else {
            self.asset_index < other.asset_index
        }
    }
}

/// The order on asset ids is total: two ids neither of which is below the
/// other are equal.
pub proof fn lemma_asset_order_total(a: AssetId, b: AssetId)
    ensures
        !a.lt_spec(b) && !b.lt_spec(a) ==> a == b,
{
}

/// Canonical form of a pair: the numerically smaller asset id first.
pub open spec fn sort_spec(asset_0: AssetId, asset_1: AssetId) -> (AssetId, AssetId) {
    if asset_0.lt_spec(asset_1) {
        (asset_0, asset_1)
    } else {
        (asset_1, asset_0)
    }
}

/// A canonical (sorted) pair of asset ids, the key of all per-pair stores.
#[derive(Clone, Copy, PartialEq, Eq, Structural)]
pub struct PairKey {
    pub asset_0: AssetId,
    pub asset_1: AssetId,
}

/// The canonical key of the pair that two asset ids name.
pub open spec fn pair_of(asset_0: AssetId, asset_1: AssetId) -> PairKey {
    let p = sort_spec(asset_0, asset_1);
    PairKey { asset_0: p.0, asset_1: p.1 }
}

/// Executable form of `pair_of`.
pub fn pair_key(asset_0: AssetId, asset_1: AssetId) -> (r: PairKey)
    ensures
        r == pair_of(asset_0, asset_1),
{
    if asset_0.lt(&asset_1) {
        PairKey { asset_0, asset_1 }
    } else {
        PairKey { asset_0: asset_1, asset_1: asset_0 }
    }
}

/// Metadata of an enabled (trading) pair.
#[derive(Clone, Copy)]
pub struct PairMetadata {
    /// Settlement account holding the pair's reserves.
    pub pair_account: AccountId,
    /// Outstanding LP shares for this pair.
    pub total_supply: AssetBalance,
}

/// Parameters of a pair collecting bootstrap contributions.
#[derive(Clone, Copy)]
pub struct BootstrapParameter {
    /// Per-contributor floor: at least one side of a contribution must
    /// reach its minimum.
    pub min_contribution: (AssetBalance, AssetBalance),
    /// Activation threshold per side.
    pub target_supply: (AssetBalance, AssetBalance),
    /// Running totals contributed per side.
    pub accumulated_supply: (AssetBalance, AssetBalance),
    /// Deadline after which activation becomes eligible.
    pub end_block_number: BlockNumber,
}

/// Lifecycle state of a trading pair. Exactly one variant holds at any
/// time; a pair absent from the registry behaves as `Disable`.
#[derive(Clone, Copy)]
pub enum PairStatus {
    /// Not trading; contributions, if any, await refund.
    Disable,
    /// Collecting contributions until deadline and targets are met.
    Bootstrap(BootstrapParameter),
    /// Trading with constant-product pricing.
    Enable(PairMetadata),
}

/// Closed error taxonomy surfaced to the caller. A failed operation leaves
/// the state unchanged.
#[derive(Clone, Copy, PartialEq, Eq, Structural, Debug)]
pub enum DispatchError {
    PairNotExists,
    NotInBootstrap,
    InsufficientAssetBalance,
    InsufficientLiquidity,
    InsufficientTargetAmount,
    ExcessiveSoldAmount,
    IncorrectAssetAmountRange,
    InvalidPath,
    InvariantCheckFailed,
    InsufficientPairReserve,
    InvalidContributionAmount,
    UnqualifiedBootstrap,
    ZeroContribute,
    Overflow,
}

} // verus!
