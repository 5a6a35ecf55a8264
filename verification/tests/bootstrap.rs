//! Bootstrap lifecycle: contribution, threshold-gated settlement, claims
//! at frozen rates, and refunds after abandonment.

use zenlink_protocol::state::Pallet;
use zenlink_protocol::types::AssetId;
use zenlink_protocol::types::DispatchError;
use zenlink_protocol::types::PairStatus;
use zenlink_protocol::types::pair_key;

fn asset(index: u64) -> AssetId {
    AssetId { chain_id: 200, asset_type: 2, asset_index: index }
}

const ALICE: u128 = 1;
const BOB: u128 = 2;
const END_BLOCK: u64 = 100;

/// A pair bootstrapping toward targets (500, 500) with no per-contributor
/// minimum, deadline at `END_BLOCK`; both contributors are funded.
fn bootstrapping() -> (Pallet, AssetId, AssetId) {
    let a = asset(1);
    let b = asset(2);
    let mut pallet = Pallet::new(200, None, 0);
    pallet.bootstrap_create(a, b, 500, 500, 0, 0, END_BLOCK);
    pallet.deposit(a, ALICE, 500).unwrap();
    pallet.deposit(b, BOB, 500).unwrap();
    (pallet, a, b)
}

#[test]
fn contribute_requires_bootstrap_status() {
    let a = asset(1);
    let b = asset(2);
    let mut pallet = Pallet::new(200, None, 0);
    assert_eq!(
        pallet.do_bootstrap_contribute(ALICE, a, b, 10, 0),
        Err(DispatchError::NotInBootstrap)
    );
}

#[test]
fn contribute_requires_one_side_at_minimum() {
    let a = asset(1);
    let b = asset(2);
    let mut pallet = Pallet::new(200, None, 0);
    pallet.bootstrap_create(a, b, 500, 500, 10, 10, END_BLOCK);
    pallet.deposit(a, ALICE, 100).unwrap();
    assert_eq!(
        pallet.do_bootstrap_contribute(ALICE, a, b, 5, 5),
        Err(DispatchError::InvalidContributionAmount)
    );
    assert_eq!(pallet.do_bootstrap_contribute(ALICE, a, b, 10, 0), Ok(()));
}

#[test]
fn contribute_escrows_and_accumulates() {
    let (mut pallet, a, b) = bootstrapping();
    pallet.do_bootstrap_contribute(ALICE, a, b, 300, 0).unwrap();
    pallet.do_bootstrap_contribute(ALICE, a, b, 200, 0).unwrap();
    let pair = pair_key(a, b);
    assert_eq!(pallet.bootstrap_personal_supply(pair, ALICE), Some((500, 0)));
    assert_eq!(pallet.balance_of(a, ALICE), 0);
    let account = Pallet::pair_account_id(a, b);
    assert_eq!(pallet.balance_of(a, account), 500);
    match pallet.pair_status(pair) {
        PairStatus::Bootstrap(params) => {
            assert_eq!(params.accumulated_supply, (500, 0));
        },
        _ => panic!("expected a bootstrapping pair"),
    }
}

#[test]
fn end_bootstrap_gates_on_deadline_and_targets() {
    let (mut pallet, a, b) = bootstrapping();
    pallet.do_bootstrap_contribute(ALICE, a, b, 500, 0).unwrap();
    pallet.do_bootstrap_contribute(BOB, a, b, 0, 500).unwrap();
    // Before the deadline.
    assert_eq!(
        pallet.do_end_bootstrap(a, b, END_BLOCK - 1),
        Err(DispatchError::UnqualifiedBootstrap)
    );
    assert_eq!(pallet.do_end_bootstrap(a, b, END_BLOCK), Ok(()));
    assert_eq!(
        pallet.do_end_bootstrap(a, b, END_BLOCK),
        Err(DispatchError::NotInBootstrap)
    );
}

#[test]
fn end_bootstrap_gates_on_each_target() {
    let (mut pallet, a, b) = bootstrapping();
    pallet.do_bootstrap_contribute(ALICE, a, b, 500, 0).unwrap();
    // Side 1 never reached its target.
    assert_eq!(
        pallet.do_end_bootstrap(a, b, END_BLOCK),
        Err(DispatchError::UnqualifiedBootstrap)
    );
}

#[test]
fn settlement_freezes_unit_rates_and_claims_pay_out() {
    let (mut pallet, a, b) = bootstrapping();
    pallet.do_bootstrap_contribute(ALICE, a, b, 500, 0).unwrap();
    pallet.do_bootstrap_contribute(BOB, a, b, 0, 500).unwrap();
    pallet.do_end_bootstrap(a, b, END_BLOCK).unwrap();
    let pair = pair_key(a, b);
    // Equal targets freeze rates (1, 1): the LP supply is 500 + 500.
    match pallet.pair_status(pair) {
        PairStatus::Enable(meta) => assert_eq!(meta.total_supply, 1000),
        _ => panic!("expected an enabled pair"),
    }
    let unit = 1_000_000_000_000_000_000u128;
    assert_eq!(pallet.freeze_pair_exchange_rates(pair), (unit, unit));
    let lp = pallet.lp_asset_id(&a, &b);
    pallet.do_bootstrap_claim(ALICE, ALICE, a, b).unwrap();
    assert_eq!(pallet.balance_of(lp, ALICE), 500);
    pallet.do_bootstrap_claim(BOB, BOB, a, b).unwrap();
    assert_eq!(pallet.balance_of(lp, BOB), 500);
    // A claim is single-use.
    assert_eq!(
        pallet.do_bootstrap_claim(ALICE, ALICE, a, b),
        Err(DispatchError::ZeroContribute)
    );
    assert_eq!(pallet.bootstrap_personal_supply(pair, ALICE), None);
}

#[test]
fn settlement_freezes_rational_rates() {
    // Targets (250, 500) freeze side 1 at rate 250/500 = 0.5.
    let a = asset(1);
    let b = asset(2);
    let mut pallet = Pallet::new(200, None, 0);
    pallet.bootstrap_create(a, b, 250, 500, 0, 0, END_BLOCK);
    pallet.deposit(a, ALICE, 250).unwrap();
    pallet.deposit(b, BOB, 500).unwrap();
    pallet.do_bootstrap_contribute(ALICE, a, b, 250, 0).unwrap();
    pallet.do_bootstrap_contribute(BOB, a, b, 0, 500).unwrap();
    pallet.do_end_bootstrap(a, b, END_BLOCK).unwrap();
    let pair = pair_key(a, b);
    let unit = 1_000_000_000_000_000_000u128;
    assert_eq!(pallet.freeze_pair_exchange_rates(pair), (unit, unit / 2));
    // Total LP: 1.0 * 250 + 0.5 * 500 = 500.
    match pallet.pair_status(pair) {
        PairStatus::Enable(meta) => assert_eq!(meta.total_supply, 500),
        _ => panic!("expected an enabled pair"),
    }
    let lp = pallet.lp_asset_id(&a, &b);
    pallet.do_bootstrap_claim(BOB, BOB, a, b).unwrap();
    assert_eq!(pallet.balance_of(lp, BOB), 250);
}

#[test]
fn end_bootstrap_with_zero_target_has_no_rate() {
    // A zero side-1 target leaves the frozen rate undefined.
    let a = asset(1);
    let b = asset(2);
    let mut pallet = Pallet::new(200, None, 0);
    pallet.bootstrap_create(a, b, 500, 0, 0, 0, END_BLOCK);
    pallet.deposit(a, ALICE, 500).unwrap();
    pallet.do_bootstrap_contribute(ALICE, a, b, 500, 0).unwrap();
    assert_eq!(
        pallet.do_end_bootstrap(a, b, END_BLOCK),
        Err(DispatchError::Overflow)
    );
}

#[test]
fn contribution_overflow_is_reported() {
    let a = asset(1);
    let b = asset(2);
    let mut pallet = Pallet::new(200, None, 0);
    pallet.bootstrap_create(a, b, 500, 500, 0, 0, END_BLOCK);
    pallet.deposit(a, ALICE, u128::MAX).unwrap();
    pallet
        .do_bootstrap_contribute(ALICE, a, b, u128::MAX, 0)
        .unwrap();
    pallet.deposit(a, ALICE, 1).unwrap();
    assert_eq!(
        pallet.do_bootstrap_contribute(ALICE, a, b, 1, 0),
        Err(DispatchError::Overflow)
    );
}

#[test]
fn claim_needs_an_enabled_pair() {
    let (mut pallet, a, b) = bootstrapping();
    pallet.do_bootstrap_contribute(ALICE, a, b, 500, 0).unwrap();
    assert_eq!(
        pallet.do_bootstrap_claim(ALICE, ALICE, a, b),
        Err(DispatchError::PairNotExists)
    );
}

#[test]
fn refund_returns_contributions_after_abandonment() {
    let (mut pallet, a, b) = bootstrapping();
    pallet.do_bootstrap_contribute(ALICE, a, b, 500, 0).unwrap();
    pallet.do_bootstrap_contribute(BOB, a, b, 0, 500).unwrap();
    // Refunds need the pair abandoned first.
    assert_eq!(
        pallet.do_bootstrap_refund(ALICE, a, b),
        Err(DispatchError::NotInBootstrap)
    );
    pallet.bootstrap_disable(a, b).unwrap();
    pallet.do_bootstrap_refund(ALICE, a, b).unwrap();
    assert_eq!(pallet.balance_of(a, ALICE), 500);
    let pair = pair_key(a, b);
    assert_eq!(pallet.bootstrap_personal_supply(pair, ALICE), None);
    // A refund is single-use.
    assert_eq!(
        pallet.do_bootstrap_refund(ALICE, a, b),
        Err(DispatchError::ZeroContribute)
    );
    pallet.do_bootstrap_refund(BOB, a, b).unwrap();
    assert_eq!(pallet.balance_of(b, BOB), 500);
    // Every contribution is refunded: the settlement account is empty and
    // the registry entry is gone (the pair behaves as never created).
    let account = Pallet::pair_account_id(a, b);
    assert_eq!(pallet.balance_of(a, account), 0);
    assert_eq!(pallet.balance_of(b, account), 0);
    assert!(matches!(pallet.pair_status(pair), PairStatus::Disable));
}

#[test]
fn contribution_amounts_follow_the_canonical_pair() {
    // Amounts given against the reversed pair are re-keyed by position to
    // the canonical orientation, and the escrow transfers follow the
    // canonical assets: the amount recorded on side 0 moves in the
    // canonical side-0 asset.
    let a = asset(1);
    let b = asset(2);
    let mut pallet = Pallet::new(200, None, 0);
    pallet.bootstrap_create(a, b, 500, 500, 0, 0, END_BLOCK);
    pallet.deposit(a, ALICE, 300).unwrap();
    pallet.do_bootstrap_contribute(ALICE, b, a, 0, 300).unwrap();
    let pair = pair_key(a, b);
    assert_eq!(pallet.bootstrap_personal_supply(pair, ALICE), Some((300, 0)));
    match pallet.pair_status(pair) {
        PairStatus::Bootstrap(params) => {
            assert_eq!(params.accumulated_supply, (300, 0));
        },
        _ => panic!("expected a bootstrapping pair"),
    }
    let account = Pallet::pair_account_id(a, b);
    assert_eq!(pallet.balance_of(a, account), 300);
    // A refund in either orientation returns the same canonical assets.
    pallet.bootstrap_disable(a, b).unwrap();
    pallet.do_bootstrap_refund(ALICE, b, a).unwrap();
    assert_eq!(pallet.balance_of(a, ALICE), 300);
    assert_eq!(pallet.balance_of(a, account), 0);
}
