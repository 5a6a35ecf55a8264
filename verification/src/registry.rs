//! Pair registry: canonicalizes asset pairs, derives each pair's
//! deterministic settlement account from a hash of the sorted pair, and
//! creates or retires registry entries.

use vstd::prelude::*;

use blake2::Digest;

use crate::state::Pallet;
use crate::state::State;
use crate::state::status_of;
use crate::types::AccountId;
use crate::types::AssetBalance;
use crate::types::AssetId;
use crate::types::BlockNumber;
use crate::types::BootstrapParameter;
use crate::types::DispatchError;
use crate::types::LOCAL;
use crate::types::PairMetadata;
use crate::types::PairStatus;
use crate::types::pair_key;
use crate::types::pair_of;
use crate::types::sort_spec;

verus! {

/// The digest that a sorted pair's fields hash to; a pure function of the
/// twelve field values.
pub uninterp spec fn pair_account_hash(
    chain_0: u32,
    type_0: u8,
    index_0: u64,
    chain_1: u32,
    type_1: u8,
    index_1: u64,
) -> AccountId;

/// Relies on `blake2::Blake2b128`: a deterministic 128-bit digest of the
/// bytes fed to it, here the fields of the two asset ids in order.
#[verifier::external_body]
fn derive_pair_account(asset_0: &AssetId, asset_1: &AssetId) -> (r: AccountId)
    ensures
        r == pair_account_hash(
            asset_0.chain_id,
            asset_0.asset_type,
            asset_0.asset_index,
            asset_1.chain_id,
            asset_1.asset_type,
            asset_1.asset_index,
        ),
{
    let mut hasher = blake2::Blake2b128::new();
    hasher.update(&asset_0.chain_id.to_le_bytes());
    hasher.update(&[asset_0.asset_type]);
    hasher.update(&asset_0.asset_index.to_le_bytes());
    hasher.update(&asset_1.chain_id.to_le_bytes());
    hasher.update(&[asset_1.asset_type]);
    hasher.update(&asset_1.asset_index.to_le_bytes());
    let digest = hasher.finalize();
    u128::from_le_bytes(digest.0)
}

/// Settlement account of a pair: the digest of its canonical form.
pub open spec fn pair_account_spec(asset_0: AssetId, asset_1: AssetId) -> AccountId {
    let p = sort_spec(asset_0, asset_1);
    pair_account_hash(
        p.0.chain_id,
        p.0.asset_type,
        p.0.asset_index,
        p.1.chain_id,
        p.1.asset_type,
        p.1.asset_index,
    )
}

/// Index of the LP asset registered for a sorted pair: the low 16 bits of
/// each member's index packed above an LP discriminant.
pub open spec fn lp_index_spec(index_0: u64, index_1: u64) -> u64 {
    ((((index_0 & 0xffff) << 16) + ((index_1 & 0xffff) << 32) + ((6 as u64) << 8))) as u64
}

/// The LP asset minted for a pair: a local asset of the configured chain.
pub open spec fn lp_asset_spec(para_id: u32, asset_0: AssetId, asset_1: AssetId) -> AssetId {
    let p = sort_spec(asset_0, asset_1);
    AssetId {
        chain_id: para_id,
        asset_type: LOCAL,
        asset_index: lp_index_spec(p.0.asset_index, p.1.asset_index),
    }
}

/// The settlement account does not depend on the order the assets are
/// named in: it is derived from the canonical form.
pub proof fn lemma_pair_account_symmetric(asset_0: AssetId, asset_1: AssetId)
    ensures
        pair_account_spec(asset_0, asset_1) == pair_account_spec(asset_1, asset_0),
{
    crate::types::lemma_asset_order_total(asset_0, asset_1);
}

/// Amounts given per caller-side orientation, re-oriented to the canonical
/// (sorted) pair.
pub open spec fn oriented(asset_0: AssetId, asset_1: AssetId, x0: u128, x1: u128) -> (u128, u128) {
    if sort_spec(asset_0, asset_1).0 == asset_0 {
        (x0, x1)
    } else {
        (x1, x0)
    }
}

impl Pallet {
    /// Sorted form of an assets pair.
    pub fn sort_asset_id(asset_0: AssetId, asset_1: AssetId) -> (r: (AssetId, AssetId))
        ensures
            r == sort_spec(asset_0, asset_1),
    {
        if asset_0.lt(&asset_1) {
            (asset_0, asset_1)
        } else {
            (asset_1, asset_0)
        }
    }

    /// The account that holds a pair's reserves: a pure function of the
    /// sorted pair, stable across calls.
    pub fn pair_account_id(asset_0: AssetId, asset_1: AssetId) -> (r: AccountId)
        ensures
            r == pair_account_spec(asset_0, asset_1),
    {
        let (a, b) = Self::sort_asset_id(asset_0, asset_1);
        derive_pair_account(&a, &b)
    }

    /// The LP asset of a pair.
    pub fn lp_asset_id(&self, asset_0: &AssetId, asset_1: &AssetId) -> (r: AssetId)
        ensures
            r == lp_asset_spec(self@.self_para_id, *asset_0, *asset_1),
    {
        let (a, b) = Self::sort_asset_id(*asset_0, *asset_1);
        let currency_0 = (a.asset_index & 0x0000_0000_0000_ffff) << 16;
        let currency_1 = (b.asset_index & 0x0000_0000_0000_ffff) << 32;
        let discr = 6u64 << 8;
        proof {
            let ai = a.asset_index;
            let bi = b.asset_index;
            assert((ai & 0x0000_0000_0000_ffff) << 16 <= 0xffff0000u64) by (bit_vector);
            assert((bi & 0x0000_0000_0000_ffff) << 32 <= 0xffff00000000u64) by (bit_vector);
            assert(6u64 << 8 == 1536u64) by (bit_vector);
        }
        let index = currency_0 + currency_1 + discr;
        AssetId { chain_id: self.self_para_id(), asset_type: LOCAL, asset_index: index }
    }

    /// Registers the LP asset of a pair in the registry.
    pub fn mutate_lp_pairs(&mut self, asset_0: AssetId, asset_1: AssetId)
        requires
            old(self).wf(),
        ensures
            final(self).wf(),
            final(self)@ == (State {
                lp_pairs: old(self)@.lp_pairs.insert(
                    pair_of(asset_0, asset_1),
                    lp_asset_spec(old(self)@.self_para_id, asset_0, asset_1),
                ),
                ..old(self)@
            }),
    {
        let lp = self.lp_asset_id(&asset_0, &asset_1);
        let pair = pair_key(asset_0, asset_1);
        self.set_lp_pair(pair, lp);
    }

    /// Creates a pair directly into the trading state with no outstanding
    /// LP supply, and registers its LP asset. Governance-level setup: the
    /// pair must not exist yet.
    pub fn create_pair(&mut self, asset_0: AssetId, asset_1: AssetId)
        requires
            old(self).wf(),
            status_of(old(self)@, pair_of(asset_0, asset_1)) is Disable,
        ensures
            final(self).wf(),
            final(self)@ == (State {
                statuses: old(self)@.statuses.insert(
                    pair_of(asset_0, asset_1),
                    PairStatus::Enable(
                        PairMetadata {
                            pair_account: pair_account_spec(asset_0, asset_1),
                            total_supply: 0,
                        },
                    ),
                ),
                lp_pairs: old(self)@.lp_pairs.insert(
                    pair_of(asset_0, asset_1),
                    lp_asset_spec(old(self)@.self_para_id, asset_0, asset_1),
                ),
                ..old(self)@
            }),
    {
        let pair = pair_key(asset_0, asset_1);
        let account = Self::pair_account_id(asset_0, asset_1);
        self.mutate_lp_pairs(asset_0, asset_1);
        self.set_status(pair, PairStatus::Enable(PairMetadata { pair_account: account, total_supply: 0 }));
    }

    /// Creates a pair into the bootstrap state with the given thresholds
    /// (caller-side orientation), and registers its LP asset. Governance-
    /// level setup: the pair must not exist yet.
    pub fn bootstrap_create(
        &mut self,
        asset_0: AssetId,
        asset_1: AssetId,
        target_0: AssetBalance,
        target_1: AssetBalance,
        min_0: AssetBalance,
        min_1: AssetBalance,
        end_block_number: BlockNumber,
    )
        requires
            old(self).wf(),
            status_of(old(self)@, pair_of(asset_0, asset_1)) is Disable,
        ensures
            final(self).wf(),
            final(self)@ == (State {
                statuses: old(self)@.statuses.insert(
                    pair_of(asset_0, asset_1),
                    PairStatus::Bootstrap(
                        BootstrapParameter {
                            min_contribution: oriented(asset_0, asset_1, min_0, min_1),
                            target_supply: oriented(asset_0, asset_1, target_0, target_1),
                            accumulated_supply: (0, 0),
                            end_block_number: end_block_number,
                        },
                    ),
                ),
                lp_pairs: old(self)@.lp_pairs.insert(
                    pair_of(asset_0, asset_1),
                    lp_asset_spec(old(self)@.self_para_id, asset_0, asset_1),
                ),
                ..old(self)@
            }),
    {
        let pair = pair_key(asset_0, asset_1);
        let (target, min) = if pair.asset_0 == asset_0 {
            ((target_0, target_1), (min_0, min_1))
        } else {
            ((target_1, target_0), (min_1, min_0))
        };
        self.mutate_lp_pairs(asset_0, asset_1);
        self.set_status(
            pair,
            PairStatus::Bootstrap(
                BootstrapParameter {
                    min_contribution: min,
                    target_supply: target,
                    accumulated_supply: (0, 0),
                    end_block_number,
                },
            ),
        );
    }

    /// Abandons a bootstrap: the pair reverts to `Disable`, keeping the
    /// contribution records for individual refunds.
    pub fn bootstrap_disable(&mut self, asset_0: AssetId, asset_1: AssetId) -> (r: Result<
        (),
        DispatchError,
    >)
        requires
            old(self).wf(),
        ensures
            final(self).wf(),
            match status_of(old(self)@, pair_of(asset_0, asset_1)) {
                PairStatus::Bootstrap(_) => r == Ok::<(), DispatchError>(()) && final(self)@
                    == (State {
                    statuses: old(self)@.statuses.insert(
                        pair_of(asset_0, asset_1),
                        PairStatus::Disable,
                    ),
                    ..old(self)@
                }),
                _ => r == Err::<(), DispatchError>(DispatchError::NotInBootstrap) && final(self)@
                    == old(self)@,
            },
    {
        let pair = pair_key(asset_0, asset_1);
        match self.pair_status(pair) {
            PairStatus::Bootstrap(_) => {
                self.set_status(pair, PairStatus::Disable);
                Ok(())
            },
            _ => Err(DispatchError::NotInBootstrap),
        }
    }
}

} // verus!
