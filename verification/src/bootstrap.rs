//! Bootstrap coordinator: drives a pair from first contribution through
//! threshold-based activation, or through abandonment and refund,
//! converting contributions into LP shares at a rate frozen at activation.

use vstd::prelude::*;

use crate::math::mul_div_floor;
use crate::registry::oriented;
use crate::registry::pair_account_spec;
use crate::state::Pallet;
use crate::state::PersonalKey;
use crate::state::State;
use crate::state::deposit_tr;
use crate::state::personal_of;
use crate::state::rates_of;
use crate::state::status_of;
use crate::state::transfer_tr;
use crate::types::AccountId;
use crate::types::AssetBalance;
use crate::types::AssetId;
use crate::types::BlockNumber;
use crate::types::BootstrapParameter;
use crate::types::DispatchError;
use crate::types::PairMetadata;
use crate::types::PairStatus;
use crate::types::pair_key;
use crate::types::pair_of;

verus! {

/// Unit of the fixed-point exchange rates frozen at activation.
pub const RATE_ONE: u128 = 1_000_000_000_000_000_000;

/// The fixed-point rate `n / d`: `floor(n * RATE_ONE / d)`, or nothing
/// when the denominator is zero or the scaled value does not fit.
pub open spec fn rate_from_rational(n: int, d: int) -> Option<int> {
    if d == 0 {
        None
    } else {
        let q = (n * (RATE_ONE as int)) / d;
        if q > u128::MAX {
            None
        } else {
            Some(q)
        }
    }
}

/// A fixed-point rate applied to an amount: `floor(rate * amount /
/// RATE_ONE)`, or nothing when the result does not fit.
pub open spec fn rate_mul_int(rate: int, amount: int) -> Option<int> {
    let q = (rate * amount) / (RATE_ONE as int);
    if q > u128::MAX {
        None
    } else {
        Some(q)
    }
}

/// Executable form of `rate_from_rational`.
fn rate_checked_from_rational(n: AssetBalance, d: AssetBalance) -> (r: Option<AssetBalance>)
    ensures
        r == match rate_from_rational(n as int, d as int) {
            None => None::<AssetBalance>,
            Some(q) => Some(q as AssetBalance),
        },
{
    mul_div_floor(n, RATE_ONE, d)
}

/// Executable form of `rate_mul_int`.
fn rate_checked_mul_int(rate: AssetBalance, amount: AssetBalance) -> (r: Option<AssetBalance>)
    ensures
        r == match rate_mul_int(rate as int, amount as int) {
            None => None::<AssetBalance>,
            Some(q) => Some(q as AssetBalance),
        },
{
    mul_div_floor(rate, amount, RATE_ONE)
}

/// Whole-state transition of `do_bootstrap_contribute`.
pub open spec fn contribute_tr(
    s: State,
    who: AccountId,
    asset_0: AssetId,
    asset_1: AssetId,
    amount_0_contribute: AssetBalance,
    amount_1_contribute: AssetBalance,
) -> Result<State, DispatchError> {
    let pair = pair_of(asset_0, asset_1);
    match status_of(s, pair) {
        PairStatus::Bootstrap(params) => {
            let amounts = oriented(asset_0, asset_1, amount_0_contribute, amount_1_contribute);
            let a0 = amounts.0;
            let a1 = amounts.1;
            if !(a0 >= params.min_contribution.0 || a1 >= params.min_contribution.1) {
                Err(DispatchError::InvalidContributionAmount)
            } else {
                let existing = match personal_of(s, pair, who) {
                    Some(p) => p,
                    None => (0, 0),
                };
                if existing.0 + a0 > u128::MAX {
                    Err(DispatchError::Overflow)
                } else if existing.1 + a1 > u128::MAX {
                    Err(DispatchError::Overflow)
                } else {
                    let account = pair_account_spec(asset_0, asset_1);
                    match transfer_tr(s.balances, pair.asset_0, who, account, a0) {
                        Err(e) => Err(e),
                        Ok(b1) => match transfer_tr(b1, pair.asset_1, who, account, a1) {
                            Err(e) => Err(e),
                            Ok(b2) => if params.accumulated_supply.0 + a0 > u128::MAX {
                                Err(DispatchError::Overflow)
                            } else if params.accumulated_supply.1 + a1 > u128::MAX {
                                Err(DispatchError::Overflow)
                            } else {
                                Ok(
                                    State {
                                        statuses: s.statuses.insert(
                                            pair,
                                            PairStatus::Bootstrap(
                                                BootstrapParameter {
                                                    accumulated_supply: (
                                                        (params.accumulated_supply.0 + a0) as AssetBalance,
                                                        (params.accumulated_supply.1 + a1) as AssetBalance,
                                                    ),
                                                    ..params
                                                },
                                            ),
                                        ),
                                        personal: s.personal.insert(
                                            PersonalKey { pair, who },
                                            (
                                                (existing.0 + a0) as AssetBalance,
                                                (existing.1 + a1) as AssetBalance,
                                            ),
                                        ),
                                        balances: b2,
                                        ..s
                                    },
                                )
                            },
                        },
                    }
                }
            }
        },
        _ => Err(DispatchError::NotInBootstrap),
    }
}

/// Whole-state transition of `do_end_bootstrap`, as of block `now`.
pub open spec fn end_bootstrap_tr(
    s: State,
    asset_0: AssetId,
    asset_1: AssetId,
    now: BlockNumber,
) -> Result<State, DispatchError> {
    let pair = pair_of(asset_0, asset_1);
    match status_of(s, pair) {
        PairStatus::Bootstrap(params) => {
            if !(now >= params.end_block_number && params.accumulated_supply.0
                >= params.target_supply.0 && params.accumulated_supply.1
                >= params.target_supply.1) {
                Err(DispatchError::UnqualifiedBootstrap)
            } else {
                match rate_from_rational(
                    params.target_supply.0 as int,
                    params.target_supply.1 as int,
                ) {
                    None => Err(DispatchError::Overflow),
                    Some(rate_1) => match rate_mul_int(
                        RATE_ONE as int,
                        params.accumulated_supply.0 as int,
                    ) {
                        None => Err(DispatchError::Overflow),
                        Some(lp_0) => match rate_mul_int(rate_1, params.accumulated_supply.1 as int) {
                            None => Err(DispatchError::Overflow),
                            Some(lp_1) => if lp_0 + lp_1 > u128::MAX {
                                Err(DispatchError::Overflow)
                            } else {
                                let total = (lp_0 + lp_1) as AssetBalance;
                                let account = pair_account_spec(pair.asset_0, pair.asset_1);
                                if !s.lp_pairs.contains_key(pair) {
                                    Err(DispatchError::InsufficientAssetBalance)
                                } else {
                                    match deposit_tr(s.balances, s.lp_pairs[pair], account, total) {
                                        Err(e) => Err(e),
                                        Ok(b1) => Ok(
                                            State {
                                                statuses: s.statuses.insert(
                                                    pair,
                                                    PairStatus::Enable(
                                                        PairMetadata {
                                                            pair_account: account,
                                                            total_supply: total,
                                                        },
                                                    ),
                                                ),
                                                rates: s.rates.insert(
                                                    pair,
                                                    (RATE_ONE, rate_1 as AssetBalance),
                                                ),
                                                balances: b1,
                                                ..s
                                            },
                                        ),
                                    }
                                }
                            },
                        },
                    },
                }
            }
        },
        _ => Err(DispatchError::NotInBootstrap),
    }
}

/// Whole-state transition of `do_bootstrap_claim`.
pub open spec fn claim_tr(
    s: State,
    who: AccountId,
    recipient: AccountId,
    asset_0: AssetId,
    asset_1: AssetId,
) -> Result<State, DispatchError> {
    let pair = pair_of(asset_0, asset_1);
    match status_of(s, pair) {
        PairStatus::Enable(_) => match personal_of(s, pair, who) {
            None => Err(DispatchError::ZeroContribute),
            Some(contribution) => {
                let rates = rates_of(s, pair);
                match rate_mul_int(rates.0 as int, contribution.0 as int) {
                    None => Err(DispatchError::Overflow),
                    Some(lp_0) => match rate_mul_int(rates.1 as int, contribution.1 as int) {
                        None => Err(DispatchError::Overflow),
                        Some(lp_1) => if lp_0 + lp_1 > u128::MAX {
                            Err(DispatchError::Overflow)
                        } else {
                            let lp_amount = (lp_0 + lp_1) as AssetBalance;
                            let account = pair_account_spec(pair.asset_0, pair.asset_1);
                            if !s.lp_pairs.contains_key(pair) {
                                Err(DispatchError::InsufficientAssetBalance)
                            } else {
                                match transfer_tr(
                                    s.balances,
                                    s.lp_pairs[pair],
                                    account,
                                    recipient,
                                    lp_amount,
                                ) {
                                    Err(e) => Err(e),
                                    Ok(b1) => Ok(
                                        State {
                                            personal: s.personal.remove(PersonalKey { pair, who }),
                                            balances: b1,
                                            ..s
                                        },
                                    ),
                                }
                            }
                        },
                    },
                }
            },
        },
        _ => Err(DispatchError::PairNotExists),
    }
}

/// Whole-state transition of `do_bootstrap_refund`: the raw contribution
/// returns to the contributor, and once no contribution record for the
/// pair remains, the abandoned pair's registry entry is deleted.
pub open spec fn refund_tr(
    s: State,
    who: AccountId,
    asset_0: AssetId,
    asset_1: AssetId,
) -> Result<State, DispatchError> {
    let pair = pair_of(asset_0, asset_1);
    match status_of(s, pair) {
        PairStatus::Disable => match personal_of(s, pair, who) {
            None => Err(DispatchError::ZeroContribute),
            Some(contribution) => {
                let account = pair_account_spec(asset_0, asset_1);
                match transfer_tr(s.balances, pair.asset_0, account, who, contribution.0) {
                    Err(e) => Err(e),
                    Ok(b1) => match transfer_tr(b1, pair.asset_1, account, who, contribution.1) {
                        Err(e) => Err(e),
                        Ok(b2) => {
                            let personal_left = s.personal.remove(PersonalKey { pair, who });
                            let statuses_left = if exists|w: AccountId|
                                personal_left.contains_key(PersonalKey { pair, who: w }) {
                                s.statuses
                            } else {
                                s.statuses.remove(pair)
                            };
                            Ok(
                                State {
                                    statuses: statuses_left,
                                    personal: personal_left,
                                    balances: b2,
                                    ..s
                                },
                            )
                        },
                    },
                }
            },
        },
        _ => Err(DispatchError::NotInBootstrap),
    }
}

impl Pallet {
    /// Escrows a contribution into a bootstrapping pair: at least one side
    /// must clear its configured minimum; the amounts, re-keyed to the
    /// canonical pair, move in the canonical assets and grow the personal
    /// record and the running totals — all-or-nothing.
    pub fn do_bootstrap_contribute(
        &mut self,
        who: AccountId,
        asset_0: AssetId,
        asset_1: AssetId,
        amount_0_contribute: AssetBalance,
        amount_1_contribute: AssetBalance,
    ) -> (r: Result<(), DispatchError>)
        requires
            old(self).wf(),
        ensures
            final(self).wf(),
            match contribute_tr(
                old(self)@,
                who,
                asset_0,
                asset_1,
                amount_0_contribute,
                amount_1_contribute,
            ) {
                Ok(s2) => r == Ok::<(), DispatchError>(()) && final(self)@ == s2,
                Err(e) => r == Err::<(), DispatchError>(e) && final(self)@ == old(self)@,
            },
    {
        let pair = pair_key(asset_0, asset_1);
        let params = match self.pair_status(pair) {
            PairStatus::Bootstrap(p) => p,
            _ => {
                return Err(DispatchError::NotInBootstrap);
            },
        };
        let (a0, a1) = if pair.asset_0 == asset_0 {
            (amount_0_contribute, amount_1_contribute)
        } else {
            (amount_1_contribute, amount_0_contribute)
        };
        if !(a0 >= params.min_contribution.0 || a1 >= params.min_contribution.1) {
            return Err(DispatchError::InvalidContributionAmount);
        }
        let existing = match self.bootstrap_personal_supply(pair, who) {
            Some(p) => p,
            None => (0, 0),
        };
        let personal_0 = match existing.0.checked_add(a0) {
            Some(v) => v,
            None => {
                return Err(DispatchError::Overflow);
            },
        };
        let personal_1 = match existing.1.checked_add(a1) {
            Some(v) => v,
            None => {
                return Err(DispatchError::Overflow);
            },
        };
        let account = Self::pair_account_id(asset_0, asset_1);
        let mut bals = self.ledger_copy();
        if let Err(e) = bals.transfer(pair.asset_0, who, account, a0) {
            return Err(e);
        }
        if let Err(e) = bals.transfer(pair.asset_1, who, account, a1) {
            return Err(e);
        }
        let accumulated_0 = match params.accumulated_supply.0.checked_add(a0) {
            Some(v) => v,
            None => {
                return Err(DispatchError::Overflow);
            },
        };
        let accumulated_1 = match params.accumulated_supply.1.checked_add(a1) {
            Some(v) => v,
            None => {
                return Err(DispatchError::Overflow);
            },
        };
        self.set_personal_supply(pair, who, (personal_0, personal_1));
        self.set_status(
            pair,
            PairStatus::Bootstrap(
                BootstrapParameter {
                    min_contribution: params.min_contribution,
                    target_supply: params.target_supply,
                    accumulated_supply: (accumulated_0, accumulated_1),
                    end_block_number: params.end_block_number,
                },
            ),
        );
        self.commit_ledger(bals);
        proof {
            let t = contribute_tr(
                old(self)@,
                who,
                asset_0,
                asset_1,
                amount_0_contribute,
                amount_1_contribute,
            );
            match t {
                Ok(s2) => {
                    assert(self@ =~= s2);
                },
                Err(_) => {
                    assert(false);
                },
            }
        }
        Ok(())
    }

    /// Settles a qualified bootstrap as of block `now`: freezes the
    /// exchange rates, mints the whole LP supply to the settlement account
    /// and transitions the pair to trading — all-or-nothing. Fails with
    /// `UnqualifiedBootstrap` before the deadline or below either target.
    pub fn do_end_bootstrap(&mut self, asset_0: AssetId, asset_1: AssetId, now: BlockNumber) -> (r:
        Result<(), DispatchError>)
        requires
            old(self).wf(),
        ensures
            final(self).wf(),
            match end_bootstrap_tr(old(self)@, asset_0, asset_1, now) {
                Ok(s2) => r == Ok::<(), DispatchError>(()) && final(self)@ == s2,
                Err(e) => r == Err::<(), DispatchError>(e) && final(self)@ == old(self)@,
            },
    {
        let pair = pair_key(asset_0, asset_1);
        let params = match self.pair_status(pair) {
            PairStatus::Bootstrap(p) => p,
            _ => {
                return Err(DispatchError::NotInBootstrap);
            },
        };
        if !(now >= params.end_block_number && params.accumulated_supply.0
            >= params.target_supply.0 && params.accumulated_supply.1 >= params.target_supply.1) {
            return Err(DispatchError::UnqualifiedBootstrap);
        }
        let rate_1 = match rate_checked_from_rational(
            params.target_supply.0,
            params.target_supply.1,
        ) {
            Some(v) => v,
            None => {
                return Err(DispatchError::Overflow);
            },
        };
        let lp_from_contribute_0 = match rate_checked_mul_int(
            RATE_ONE,
            params.accumulated_supply.0,
        ) {
            Some(v) => v,
            None => {
                return Err(DispatchError::Overflow);
            },
        };
        let lp_from_contribute_1 = match rate_checked_mul_int(rate_1, params.accumulated_supply.1) {
            Some(v) => v,
            None => {
                return Err(DispatchError::Overflow);
            },
        };
        let total_lp_supply = match lp_from_contribute_0.checked_add(lp_from_contribute_1) {
            Some(v) => v,
            None => {
                return Err(DispatchError::Overflow);
            },
        };
        let pair_account = Self::pair_account_id(pair.asset_0, pair.asset_1);
        let lp_asset = match self.lp_pairs(pair) {
            Some(a) => a,
            None => {
                return Err(DispatchError::InsufficientAssetBalance);
            },
        };
        let mut bals = self.ledger_copy();
        if let Err(e) = bals.deposit(lp_asset, pair_account, total_lp_supply) {
            return Err(e);
        }
        self.set_status(
            pair,
            PairStatus::Enable(
                PairMetadata { pair_account, total_supply: total_lp_supply },
            ),
        );
        self.set_rates(pair, (RATE_ONE, rate_1));
        self.commit_ledger(bals);
        proof {
            let t = end_bootstrap_tr(old(self)@, asset_0, asset_1, now);
            match t {
                Ok(s2) => {
                    assert(self@ =~= s2);
                },
                Err(_) => {
                    assert(false);
                },
            }
        }
        Ok(())
    }

    /// Converts a contributor's escrowed contribution into LP shares at
    /// the frozen rates and sends them to the recipient, clearing the
    /// single-use record — all-or-nothing. A pair that is not trading
    /// fails with `PairNotExists`, as for any operation that expects an
    /// enabled pair.
    pub fn do_bootstrap_claim(
        &mut self,
        who: AccountId,
        recipient: AccountId,
        asset_0: AssetId,
        asset_1: AssetId,
    ) -> (r: Result<(), DispatchError>)
        requires
            old(self).wf(),
        ensures
            final(self).wf(),
            match claim_tr(old(self)@, who, recipient, asset_0, asset_1) {
                Ok(s2) => r == Ok::<(), DispatchError>(()) && final(self)@ == s2,
                Err(e) => r == Err::<(), DispatchError>(e) && final(self)@ == old(self)@,
            },
    {
        let pair = pair_key(asset_0, asset_1);
        match self.pair_status(pair) {
            PairStatus::Enable(_) => {},
            _ => {
                return Err(DispatchError::PairNotExists);
            },
        }
        let contribution = match self.bootstrap_personal_supply(pair, who) {
            Some(c) => c,
            None => {
                return Err(DispatchError::ZeroContribute);
            },
        };
        let rates = self.freeze_pair_exchange_rates(pair);
        let lp_from_contribute_0 = match rate_checked_mul_int(rates.0, contribution.0) {
            Some(v) => v,
            None => {
                return Err(DispatchError::Overflow);
            },
        };
        let lp_from_contribute_1 = match rate_checked_mul_int(rates.1, contribution.1) {
            Some(v) => v,
            None => {
                return Err(DispatchError::Overflow);
            },
        };
        let lp_amount = match lp_from_contribute_0.checked_add(lp_from_contribute_1) {
            Some(v) => v,
            None => {
                return Err(DispatchError::Overflow);
            },
        };
        let pair_account = Self::pair_account_id(pair.asset_0, pair.asset_1);
        let lp_asset = match self.lp_pairs(pair) {
            Some(a) => a,
            None => {
                return Err(DispatchError::InsufficientAssetBalance);
            },
        };
        let mut bals = self.ledger_copy();
        if let Err(e) = bals.transfer(lp_asset, pair_account, recipient, lp_amount) {
            return Err(e);
        }
        self.remove_personal_supply(pair, who);
        self.commit_ledger(bals);
        proof {
            let t = claim_tr(old(self)@, who, recipient, asset_0, asset_1);
            match t {
                Ok(s2) => {
                    assert(self@ =~= s2);
                },
                Err(_) => {
                    assert(false);
                },
            }
        }
        Ok(())
    }

    /// Returns a contributor's raw contribution, in the canonical assets,
    /// out of the settlement account of an abandoned pair and clears the
    /// single-use record; the registry entry is deleted once no
    /// contribution record for the pair remains — all-or-nothing.
    pub fn do_bootstrap_refund(&mut self, who: AccountId, asset_0: AssetId, asset_1: AssetId) -> (r:
        Result<(), DispatchError>)
        requires
            old(self).wf(),
        ensures
            final(self).wf(),
            match refund_tr(old(self)@, who, asset_0, asset_1) {
                Ok(s2) => r == Ok::<(), DispatchError>(()) && final(self)@ == s2,
                Err(e) => r == Err::<(), DispatchError>(e) && final(self)@ == old(self)@,
            },
    {
        let pair = pair_key(asset_0, asset_1);
        match self.pair_status(pair) {
            PairStatus::Disable => {},
            _ => {
                return Err(DispatchError::NotInBootstrap);
            },
        }
        let contribution = match self.bootstrap_personal_supply(pair, who) {
            Some(c) => c,
            None => {
                return Err(DispatchError::ZeroContribute);
            },
        };
        let pair_account = Self::pair_account_id(asset_0, asset_1);
        let mut bals = self.ledger_copy();
        if let Err(e) = bals.transfer(pair.asset_0, pair_account, who, contribution.0) {
            return Err(e);
        }
        if let Err(e) = bals.transfer(pair.asset_1, pair_account, who, contribution.1) {
            return Err(e);
        }
        self.remove_personal_supply(pair, who);
        self.commit_ledger(bals);
        if !self.personal_supply_has_pair(pair) {
            self.remove_status(pair);
        }
        proof {
            let t = refund_tr(old(self)@, who, asset_0, asset_1);
            match t {
                Ok(s2) => {
                    assert(self@ =~= s2);
                },
                Err(_) => {
                    assert(false);
                },
            }
        }
        Ok(())
    }
}

} // verus!
