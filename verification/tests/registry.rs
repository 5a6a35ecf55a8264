//! Pair canonicalization, settlement-account derivation and LP asset ids.

use zenlink_protocol::state::Pallet;
use zenlink_protocol::types::AssetId;

fn asset(index: u64) -> AssetId {
    AssetId { chain_id: 200, asset_type: 2, asset_index: index }
}

#[test]
fn sort_orders_by_asset_id() {
    let a = asset(1);
    let b = asset(2);
    assert_eq!(Pallet::sort_asset_id(a, b), (a, b));
    assert_eq!(Pallet::sort_asset_id(b, a), (a, b));
}

#[test]
fn sort_is_symmetric_and_idempotent() {
    let a = AssetId { chain_id: 100, asset_type: 2, asset_index: 7 };
    let b = AssetId { chain_id: 200, asset_type: 0, asset_index: 3 };
    let sorted = Pallet::sort_asset_id(a, b);
    assert_eq!(sorted, Pallet::sort_asset_id(b, a));
    assert_eq!(Pallet::sort_asset_id(sorted.0, sorted.1), sorted);
    let same = Pallet::sort_asset_id(a, a);
    assert_eq!(same, (a, a));
}

#[test]
fn sort_orders_fields_lexicographically() {
    let low_chain = AssetId { chain_id: 1, asset_type: 9, asset_index: 9 };
    let high_chain = AssetId { chain_id: 2, asset_type: 0, asset_index: 0 };
    assert_eq!(Pallet::sort_asset_id(high_chain, low_chain), (low_chain, high_chain));
    let low_type = AssetId { chain_id: 1, asset_type: 0, asset_index: 9 };
    let high_type = AssetId { chain_id: 1, asset_type: 1, asset_index: 0 };
    assert_eq!(Pallet::sort_asset_id(high_type, low_type), (low_type, high_type));
}

#[test]
fn pair_account_is_stable_and_order_insensitive() {
    let a = asset(1);
    let b = asset(2);
    let acct = Pallet::pair_account_id(a, b);
    assert_eq!(acct, Pallet::pair_account_id(a, b));
    assert_eq!(acct, Pallet::pair_account_id(b, a));
}

#[test]
fn pair_account_separates_pairs() {
    let a = asset(1);
    let b = asset(2);
    let c = asset(3);
    assert_ne!(Pallet::pair_account_id(a, b), Pallet::pair_account_id(a, c));
    assert_ne!(Pallet::pair_account_id(a, b), Pallet::pair_account_id(b, c));
}

#[test]
fn lp_asset_id_packs_sorted_indices() {
    let pallet = Pallet::new(200, None, 0);
    let a = asset(1);
    let b = asset(2);
    let lp = pallet.lp_asset_id(&a, &b);
    let expected_index = (1u64 << 16) + (2u64 << 32) + (6u64 << 8);
    assert_eq!(lp, AssetId { chain_id: 200, asset_type: 2, asset_index: expected_index });
    // Order of the arguments does not matter: the sorted pair is packed.
    assert_eq!(pallet.lp_asset_id(&b, &a), lp);
    // Only the low 16 bits of each index take part.
    let wide = asset((77u64 << 16) + 5);
    let lp_wide = pallet.lp_asset_id(&wide, &b);
    let expected_wide = (2u64 << 16) + (5u64 << 32) + (6u64 << 8);
    assert_eq!(lp_wide.asset_index, expected_wide);
}
