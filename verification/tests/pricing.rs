//! Pricing math: share amounts, liquidity minting, deposit fitting,
//! protocol-fee accrual and the single-hop swap formulas.

use zenlink_protocol::state::Pallet;
use zenlink_protocol::types::AssetId;
use zenlink_protocol::types::DispatchError;
use zenlink_protocol::types::pair_key;

fn asset(index: u64) -> AssetId {
    AssetId { chain_id: 200, asset_type: 2, asset_index: index }
}

#[test]
fn share_amount_is_proportional() {
    assert_eq!(Pallet::calculate_share_amount(50, 100, 200), 100);
    assert_eq!(Pallet::calculate_share_amount(1, 3, 10), 3);
    assert_eq!(Pallet::calculate_share_amount(7, 0, 10), 0);
    // A quotient beyond the balance width saturates toward zero.
    assert_eq!(Pallet::calculate_share_amount(u128::MAX, 1, u128::MAX), 0);
}

#[test]
fn liquidity_of_first_deposit_is_geometric_mean() {
    assert_eq!(Pallet::calculate_liquidity(4, 9, 0, 0, 0), 6);
    assert_eq!(Pallet::calculate_liquidity(1000, 4000, 0, 0, 0), 2000);
    assert_eq!(Pallet::calculate_liquidity(2, 2, 0, 0, 0), 2);
    assert_eq!(Pallet::calculate_liquidity(0, 7, 0, 0, 0), 0);
    // 10 * 10 = 100, and floor(sqrt(99)) = 9.
    assert_eq!(Pallet::calculate_liquidity(9, 11, 0, 0, 0), 9);
}

#[test]
fn liquidity_of_later_deposit_is_smaller_ratio() {
    // Shares: 100 * 1000 / 1000 = 100 against asset 0, but only
    // 50 * 1000 / 1000 = 50 against asset 1.
    assert_eq!(Pallet::calculate_liquidity(100, 50, 1000, 1000, 1000), 50);
    assert_eq!(Pallet::calculate_liquidity(50, 100, 1000, 1000, 1000), 50);
}

#[test]
fn added_amount_takes_first_deposit_as_given() {
    assert_eq!(Pallet::calculate_added_amount(10, 20, 0, 0, 0, 0), Ok((10, 20)));
    assert_eq!(Pallet::calculate_added_amount(10, 20, 0, 0, 0, 5), Ok((10, 20)));
}

#[test]
fn added_amount_fits_the_reserve_ratio() {
    // Reserves 1:2 fix the counterpart of 10 at 20.
    assert_eq!(Pallet::calculate_added_amount(10, 30, 0, 0, 100, 200), Ok((10, 20)));
    // The optimal counterpart of 10 exceeds desired 15, so the other side
    // is fitted instead: 15 * 100 / 200 = 7 (floored).
    assert_eq!(Pallet::calculate_added_amount(10, 15, 0, 0, 100, 200), Ok((7, 15)));
}

#[test]
fn added_amount_rejects_out_of_range() {
    // Counterpart 20 clears desired 30 but not the minimum 25.
    assert_eq!(
        Pallet::calculate_added_amount(10, 30, 0, 25, 100, 200),
        Err(DispatchError::IncorrectAssetAmountRange)
    );
    // Fitted amount 7 falls below the minimum 8 for side 0.
    assert_eq!(
        Pallet::calculate_added_amount(10, 15, 8, 0, 100, 200),
        Err(DispatchError::IncorrectAssetAmountRange)
    );
}

#[test]
fn amount_out_matches_closed_form() {
    // floor(100 * 997 * 1000 / (1000 * 1000 + 100 * 997)) = 90.
    assert_eq!(Pallet::get_amount_out(100, 1000, 1000), 90);
    assert_eq!(Pallet::get_amount_out(0, 1000, 1000), 0);
    assert_eq!(Pallet::get_amount_out(100, 0, 1000), 0);
    assert_eq!(Pallet::get_amount_out(100, 1000, 0), 0);
}

#[test]
fn amount_in_matches_closed_form_and_rounds_up() {
    // floor(1000 * 90 * 1000 / ((1000 - 90) * 997)) + 1 = 100.
    assert_eq!(Pallet::get_amount_in(90, 1000, 1000), 100);
    assert_eq!(Pallet::get_amount_in(0, 1000, 1000), 0);
    assert_eq!(Pallet::get_amount_in(90, 0, 1000), 0);
    assert_eq!(Pallet::get_amount_in(90, 1000, 0), 0);
    // Asking for the whole output reserve has no finite price.
    assert_eq!(Pallet::get_amount_in(1000, 1000, 1000), 0);
}

#[test]
fn round_trip_never_undercharges_single_hop() {
    let out = Pallet::get_amount_out(100, 1000, 1000);
    assert_eq!(out, 90);
    assert!(Pallet::get_amount_in(out, 1000, 1000) <= 100);
}

#[test]
fn protocol_fee_measures_invariant_growth() {
    let a = asset(1);
    let b = asset(2);
    let mut pallet = Pallet::new(200, Some(9), 5);
    // Watermark 1_000_000 (root 1000); reserves grew to 2000 * 2000
    // (root 2000); fix_fee_point = (30 - 5) / 5 = 5:
    // 1000 * (2000 - 1000) / (2000 * 5 + 1000) = 90.
    pallet.mutate_k_last(a, b, 1_000_000);
    assert_eq!(pallet.mint_protocol_fee(2000, 2000, a, b, 1000), 90);
    // No growth, no fee.
    assert_eq!(pallet.mint_protocol_fee(1000, 1000, a, b, 1000), 0);
    // No watermark, no fee.
    let pair = pair_key(a, b);
    assert_eq!(pallet.k_last(pair), 1_000_000);
    pallet.mutate_k_last(a, b, 0);
    assert_eq!(pallet.mint_protocol_fee(2000, 2000, a, b, 1000), 0);
}

#[test]
fn protocol_fee_needs_recipient_and_share() {
    let a = asset(1);
    let b = asset(2);
    let mut no_recipient = Pallet::new(200, None, 5);
    no_recipient.mutate_k_last(a, b, 1_000_000);
    assert_eq!(no_recipient.mint_protocol_fee(2000, 2000, a, b, 1000), 0);
    // A recipient-less call lazily clears the stale watermark.
    assert_eq!(no_recipient.k_last(pair_key(a, b)), 0);
    let mut no_share = Pallet::new(200, Some(9), 0);
    no_share.mutate_k_last(a, b, 1_000_000);
    assert_eq!(no_share.mint_protocol_fee(2000, 2000, a, b, 1000), 0);
}
