//! Liquidity and swap operations against a live module state: scenarios,
//! multi-hop routing and the error taxonomy.

use zenlink_protocol::state::Ledger;
use zenlink_protocol::state::Pallet;
use zenlink_protocol::types::AssetId;
use zenlink_protocol::types::DispatchError;
use zenlink_protocol::types::PairStatus;
use zenlink_protocol::types::pair_key;

fn asset(index: u64) -> AssetId {
    AssetId { chain_id: 200, asset_type: 2, asset_index: index }
}

const ALICE: u128 = 1;
const BOB: u128 = 2;

/// An enabled pair of `a`/`b` whose reserves were seeded by `who` adding
/// `(amount_a, amount_b)` of first liquidity.
fn pool(who: u128, a: AssetId, b: AssetId, amount_a: u128, amount_b: u128) -> Pallet {
    let mut pallet = Pallet::new(200, None, 0);
    pallet.create_pair(a, b);
    pallet.deposit(a, who, amount_a).unwrap();
    pallet.deposit(b, who, amount_b).unwrap();
    pallet
        .inner_add_liquidity(who, a, b, amount_a, amount_b, 0, 0)
        .unwrap();
    pallet
}

fn total_supply(pallet: &Pallet, a: AssetId, b: AssetId) -> u128 {
    match pallet.pair_status(pair_key(a, b)) {
        PairStatus::Enable(meta) => meta.total_supply,
        _ => panic!("expected an enabled pair"),
    }
}

#[test]
fn first_liquidity_mints_geometric_mean() {
    let a = asset(1);
    let b = asset(2);
    let pallet = pool(ALICE, a, b, 1000, 4000);
    let lp = pallet.lp_asset_id(&a, &b);
    assert_eq!(pallet.balance_of(lp, ALICE), 2000);
    assert_eq!(total_supply(&pallet, a, b), 2000);
    let account = Pallet::pair_account_id(a, b);
    assert_eq!(pallet.balance_of(a, account), 1000);
    assert_eq!(pallet.balance_of(b, account), 4000);
    assert_eq!(pallet.balance_of(a, ALICE), 0);
    assert_eq!(pallet.balance_of(b, ALICE), 0);
}

#[test]
fn liquidity_round_trip_returns_deposit() {
    let a = asset(1);
    let b = asset(2);
    let mut pallet = pool(ALICE, a, b, 1000, 4000);
    pallet
        .inner_remove_liquidity(ALICE, a, b, 2000, 0, 0, ALICE)
        .unwrap();
    assert_eq!(pallet.balance_of(a, ALICE), 1000);
    assert_eq!(pallet.balance_of(b, ALICE), 4000);
    assert_eq!(total_supply(&pallet, a, b), 0);
    let lp = pallet.lp_asset_id(&a, &b);
    assert_eq!(pallet.balance_of(lp, ALICE), 0);
}

#[test]
fn add_liquidity_needs_enabled_pair_and_funds() {
    let a = asset(1);
    let b = asset(2);
    let mut empty = Pallet::new(200, None, 0);
    assert_eq!(
        empty.inner_add_liquidity(ALICE, a, b, 10, 10, 0, 0),
        Err(DispatchError::PairNotExists)
    );
    let mut unfunded = Pallet::new(200, None, 0);
    unfunded.create_pair(a, b);
    assert_eq!(
        unfunded.inner_add_liquidity(ALICE, a, b, 10, 10, 0, 0),
        Err(DispatchError::InsufficientAssetBalance)
    );
}

#[test]
fn add_liquidity_of_nothing_overflows_to_zero_mint() {
    let a = asset(1);
    let b = asset(2);
    let mut pallet = Pallet::new(200, None, 0);
    pallet.create_pair(a, b);
    assert_eq!(
        pallet.inner_add_liquidity(ALICE, a, b, 0, 0, 0, 0),
        Err(DispatchError::Overflow)
    );
}

#[test]
fn remove_liquidity_enforces_bounds() {
    let a = asset(1);
    let b = asset(2);
    let mut pallet = pool(ALICE, a, b, 1000, 1000);
    assert_eq!(
        pallet.inner_remove_liquidity(ALICE, a, b, 100, 101, 0, ALICE),
        Err(DispatchError::InsufficientTargetAmount)
    );
    assert_eq!(
        pallet.inner_remove_liquidity(ALICE, a, b, 1001, 0, 0, ALICE),
        Err(DispatchError::InsufficientLiquidity)
    );
    assert_eq!(
        pallet.inner_remove_liquidity(BOB, a, b, 100, 0, 0, BOB),
        Err(DispatchError::InsufficientLiquidity)
    );
}

#[test]
fn exact_in_swap_yields_closed_form_output() {
    let a = asset(1);
    let b = asset(2);
    let mut pallet = pool(ALICE, a, b, 1000, 1000);
    pallet.deposit(a, BOB, 100).unwrap();
    let path = vec![a, b];
    assert_eq!(pallet.get_amount_out_by_path(100, &path), Ok(vec![100, 90]));
    pallet
        .inner_swap_exact_assets_for_assets(BOB, 100, 90, &path, BOB)
        .unwrap();
    assert_eq!(pallet.balance_of(a, BOB), 0);
    assert_eq!(pallet.balance_of(b, BOB), 90);
    let account = Pallet::pair_account_id(a, b);
    assert_eq!(pallet.balance_of(a, account), 1100);
    assert_eq!(pallet.balance_of(b, account), 910);
}

#[test]
fn exact_in_swap_honours_minimum_output() {
    let a = asset(1);
    let b = asset(2);
    let mut pallet = pool(ALICE, a, b, 1000, 1000);
    pallet.deposit(a, BOB, 100).unwrap();
    assert_eq!(
        pallet.inner_swap_exact_assets_for_assets(BOB, 100, 91, &vec![a, b], BOB),
        Err(DispatchError::InsufficientTargetAmount)
    );
    // The failed attempt moved nothing.
    assert_eq!(pallet.balance_of(a, BOB), 100);
}

#[test]
fn exact_out_swap_charges_closed_form_input() {
    let a = asset(1);
    let b = asset(2);
    let mut pallet = pool(ALICE, a, b, 1000, 1000);
    pallet.deposit(a, BOB, 100).unwrap();
    let path = vec![a, b];
    assert_eq!(pallet.get_amount_in_by_path(90, &path), Ok(vec![100, 90]));
    pallet
        .inner_swap_assets_for_exact_assets(BOB, 90, 100, &path, BOB)
        .unwrap();
    assert_eq!(pallet.balance_of(a, BOB), 0);
    assert_eq!(pallet.balance_of(b, BOB), 90);
}

#[test]
fn exact_out_swap_honours_maximum_input() {
    let a = asset(1);
    let b = asset(2);
    let mut pallet = pool(ALICE, a, b, 1000, 1000);
    pallet.deposit(a, BOB, 100).unwrap();
    assert_eq!(
        pallet.inner_swap_assets_for_exact_assets(BOB, 90, 99, &vec![a, b], BOB),
        Err(DispatchError::ExcessiveSoldAmount)
    );
}

#[test]
fn multi_hop_swap_routes_through_settlement_accounts() {
    let a = asset(1);
    let b = asset(2);
    let c = asset(3);
    let mut pallet = pool(ALICE, a, b, 1000, 1000);
    pallet.deposit(b, ALICE, 1000).unwrap();
    pallet.deposit(c, ALICE, 1000).unwrap();
    pallet.create_pair(b, c);
    pallet
        .inner_add_liquidity(ALICE, b, c, 1000, 1000, 0, 0)
        .unwrap();
    pallet.deposit(a, BOB, 100).unwrap();
    let path = vec![a, b, c];
    assert_eq!(pallet.get_amount_out_by_path(100, &path), Ok(vec![100, 90, 82]));
    pallet
        .inner_swap_exact_assets_for_assets(BOB, 100, 82, &path, BOB)
        .unwrap();
    assert_eq!(pallet.balance_of(c, BOB), 82);
    let account_ab = Pallet::pair_account_id(a, b);
    let account_bc = Pallet::pair_account_id(b, c);
    assert_eq!(pallet.balance_of(a, account_ab), 1100);
    assert_eq!(pallet.balance_of(b, account_ab), 910);
    assert_eq!(pallet.balance_of(b, account_bc), 1090);
    assert_eq!(pallet.balance_of(c, account_bc), 918);
}

#[test]
fn round_trip_never_undercharges_multi_hop() {
    let a = asset(1);
    let b = asset(2);
    let c = asset(3);
    let mut pallet = pool(ALICE, a, b, 1000, 1000);
    pallet.deposit(b, ALICE, 1000).unwrap();
    pallet.deposit(c, ALICE, 1000).unwrap();
    pallet.create_pair(b, c);
    pallet
        .inner_add_liquidity(ALICE, b, c, 1000, 1000, 0, 0)
        .unwrap();
    let path = vec![a, b, c];
    let out = pallet.get_amount_out_by_path(100, &path).unwrap();
    let back = pallet.get_amount_in_by_path(out[out.len() - 1], &path).unwrap();
    assert!(back[0] <= 100);
    assert_eq!(back, vec![100, 90, 82]);
}

#[test]
fn pricing_rejects_degenerate_paths() {
    let a = asset(1);
    let b = asset(2);
    let pallet = Pallet::new(200, None, 0);
    assert_eq!(
        pallet.get_amount_out_by_path(100, &vec![a]),
        Err(DispatchError::InvalidPath)
    );
    assert_eq!(
        pallet.get_amount_in_by_path(100, &vec![a]),
        Err(DispatchError::InvalidPath)
    );
    // Nonexistent pair: empty reserves.
    assert_eq!(
        pallet.get_amount_out_by_path(100, &vec![a, b]),
        Err(DispatchError::InvalidPath)
    );
}

#[test]
fn pricing_rejects_saturated_invariant() {
    let a = asset(1);
    let b = asset(2);
    let mut pallet = Pallet::new(200, None, 0);
    pallet.create_pair(a, b);
    let account = Pallet::pair_account_id(a, b);
    pallet.deposit(a, account, u128::MAX).unwrap();
    pallet.deposit(b, account, 1000).unwrap();
    // The grown input reserve saturates at the balance width, so the
    // checked post-swap product falls below the pre-swap product.
    assert_eq!(
        pallet.get_amount_out_by_path(u128::MAX, &vec![a, b]),
        Err(DispatchError::InvariantCheckFailed)
    );
}

#[test]
fn pair_swap_guards_reserves_and_status() {
    let a = asset(1);
    let b = asset(2);
    let pallet = pool(ALICE, a, b, 1000, 1000);
    let account = Pallet::pair_account_id(a, b);
    let mut bals = Ledger::new();
    bals.deposit(a, account, 1000).unwrap();
    bals.deposit(b, account, 1000).unwrap();
    assert_eq!(
        pallet.pair_swap(a, b, account, 0, 1001, BOB, &mut bals),
        Err(DispatchError::InsufficientPairReserve)
    );
    assert_eq!(pallet.pair_swap(a, b, account, 0, 500, BOB, &mut bals), Ok(()));
    assert_eq!(bals.balance_of(b, BOB), 500);
    let c = asset(3);
    assert_eq!(
        pallet.pair_swap(b, c, account, 0, 1, BOB, &mut bals),
        Err(DispatchError::PairNotExists)
    );
}

#[test]
fn ledger_deposit_overflow_is_reported() {
    let a = asset(1);
    let mut pallet = Pallet::new(200, None, 0);
    pallet.deposit(a, ALICE, u128::MAX).unwrap();
    assert_eq!(pallet.deposit(a, ALICE, 1), Err(DispatchError::Overflow));
    assert_eq!(pallet.balance_of(a, ALICE), u128::MAX);
}

#[test]
fn protocol_fee_accrues_at_liquidity_mutations() {
    let a = asset(1);
    let b = asset(2);
    const FEE_TO: u128 = 9;
    let mut pallet = Pallet::new(200, Some(FEE_TO), 5);
    pallet.create_pair(a, b);
    pallet.deposit(a, ALICE, 2_200_000).unwrap();
    pallet.deposit(b, ALICE, 2_000_000).unwrap();
    pallet
        .inner_add_liquidity(ALICE, a, b, 1_000_000, 1_000_000, 0, 0)
        .unwrap();
    // Trading grows the reserve product past the recorded watermark:
    // 100_000 in buys 90_660 out, leaving reserves (1_100_000, 909_340).
    pallet.deposit(a, BOB, 100_000).unwrap();
    pallet
        .inner_swap_exact_assets_for_assets(BOB, 100_000, 90_660, &vec![a, b], BOB)
        .unwrap();
    // The next liquidity mutation mints the protocol's cut:
    // root_k = floor(sqrt(1_100_000 * 909_340)) = 1_000_136, watermark
    // root 1_000_000, fix_fee_point (30 - 5) / 5 = 5, so the fee is
    // floor(1_000_000 * 136 / (1_000_136 * 5 + 1_000_000)) = 22 shares.
    pallet
        .inner_add_liquidity(ALICE, a, b, 1_100_000, 909_340, 0, 0)
        .unwrap();
    let lp = pallet.lp_asset_id(&a, &b);
    assert_eq!(pallet.balance_of(lp, FEE_TO), 22);
    assert_eq!(pallet.balance_of(lp, ALICE), 2_000_022);
    assert_eq!(total_supply(&pallet, a, b), 2_000_044);
}
