//! Liquidity engine and protocol-fee accrual: computes liquidity-mint and
//! liquidity-burn amounts against current reserves and outstanding LP
//! supply, and applies them transactionally.

use vstd::prelude::*;

use crate::math::isqrt;
use crate::math::lemma_isqrt_exists;
use crate::math::lemma_isqrt_unique;
use crate::math::mul_div_floor;
use crate::math::sat_mul_spec;
use crate::math::sat_mul_u128;
use crate::math::sqrt_floor;
use crate::state::Pallet;
use crate::state::State;
use crate::state::bal_of;
use crate::state::deposit_tr;
use crate::state::k_last_of;
use crate::state::status_of;
use crate::state::transfer_tr;
use crate::types::AccountId;
use crate::types::AssetBalance;
use crate::types::AssetId;
use crate::types::DispatchError;
use crate::types::PairMetadata;
use crate::types::PairStatus;
use crate::types::pair_key;
use crate::types::pair_of;

verus! {

/// `floor(amount * reserve_to / reserve_from)`, zero when the division
/// fails or the quotient does not fit in a balance.
pub open spec fn share_amount_spec(amount: int, reserve_from: int, reserve_to: int) -> int {
    if reserve_from == 0 {
        0
    } else {
        let q = (amount * reserve_to) / reserve_from;
        if q > u128::MAX {
            0
        } else {
            q
        }
    }
}

/// LP shares minted for a deposit: the geometric mean bootstraps an empty
/// pool; otherwise the smaller of the two contributed ratios.
pub open spec fn liquidity_spec(
    amount_0: int,
    amount_1: int,
    reserve_0: int,
    reserve_1: int,
    total: int,
) -> int {
    if total == 0 {
        isqrt(sat_mul_spec(amount_0, amount_1))
    } else {
        let s0 = share_amount_spec(amount_0, reserve_0, total);
        let s1 = share_amount_spec(amount_1, reserve_1, total);
        if s0 <= s1 {
            s0
        } else {
            s1
        }
    }
}

/// Two-sided amounts actually deposited for the desired amounts: a first
/// deposit is taken as given; otherwise the reserve ratio fixes the
/// counterpart of one desired amount, within the caller's bounds.
pub open spec fn added_amount_spec(
    amount_0_desired: int,
    amount_1_desired: int,
    amount_0_min: int,
    amount_1_min: int,
    reserve_0: int,
    reserve_1: int,
) -> Result<(int, int), DispatchError> {
    if reserve_0 == 0 || reserve_1 == 0 {
        Ok((amount_0_desired, amount_1_desired))
    } else {
        let amount_1_optimal = share_amount_spec(amount_0_desired, reserve_0, reserve_1);
        if amount_1_optimal <= amount_1_desired {
            if amount_1_optimal >= amount_1_min {
                Ok((amount_0_desired, amount_1_optimal))
            } else {
                Err(DispatchError::IncorrectAssetAmountRange)
            }
        } else {
            let amount_0_optimal = share_amount_spec(amount_1_desired, reserve_1, reserve_0);
            if amount_0_optimal >= amount_0_min && amount_0_optimal <= amount_0_desired {
                Ok((amount_0_optimal, amount_1_desired))
            } else {
                Err(DispatchError::IncorrectAssetAmountRange)
            }
        }
    }
}

/// Fee-entitled LP amount at a liquidity mutation: a cut of the invariant
/// growth since the last recorded reserve product, in the configured
/// thirtieths scale; zero when no recipient is configured, no watermark is
/// recorded, or the invariant has not grown.
pub open spec fn protocol_fee_spec(
    fee_to: Option<AccountId>,
    fee_point: u8,
    k_last: int,
    reserve_0: int,
    reserve_1: int,
    total: int,
) -> int {
    if fee_to is Some && k_last != 0 && fee_point > 0 {
        let root_k = isqrt(sat_mul_spec(reserve_0, reserve_1));
        let root_k_last = isqrt(k_last);
        if root_k > root_k_last {
            let fix_fee_point = (30 - fee_point) as int / fee_point as int;
            let num = total * (root_k - root_k_last);
            let den = root_k * fix_fee_point + root_k_last;
            if den == 0 {
                0
            } else {
                let q = num / den;
                if q > u128::MAX {
                    0
                } else {
                    q
                }
            }
        } else {
            0
        }
    } else {
        0
    }
}

/// Whole-state transition of `inner_add_liquidity`, error precedence
/// included.
pub open spec fn add_liquidity_tr(
    s: State,
    who: AccountId,
    asset_0: AssetId,
    asset_1: AssetId,
    amount_0_desired: AssetBalance,
    amount_1_desired: AssetBalance,
    amount_0_min: AssetBalance,
    amount_1_min: AssetBalance,
) -> Result<State, DispatchError> {
    let pair = pair_of(asset_0, asset_1);
    match status_of(s, pair) {
        PairStatus::Enable(meta) => {
            let reserve_0 = bal_of(s.balances, asset_0, meta.pair_account);
            let reserve_1 = bal_of(s.balances, asset_1, meta.pair_account);
            match added_amount_spec(
                amount_0_desired as int,
                amount_1_desired as int,
                amount_0_min as int,
                amount_1_min as int,
                reserve_0 as int,
                reserve_1 as int,
            ) {
                Err(e) => Err(e),
                Ok(amounts) => {
                    let amount_0 = amounts.0 as AssetBalance;
                    let amount_1 = amounts.1 as AssetBalance;
                    if !(bal_of(s.balances, asset_0, who) >= amount_0 && bal_of(
                        s.balances,
                        asset_1,
                        who,
                    ) >= amount_1) {
                        Err(DispatchError::InsufficientAssetBalance)
                    } else if !s.lp_pairs.contains_key(pair) {
                        Err(DispatchError::InsufficientAssetBalance)
                    } else {
                        let lp_asset = s.lp_pairs[pair];
                        let mint_fee = protocol_fee_spec(
                            s.fee_to,
                            s.fee_point,
                            k_last_of(s, pair) as int,
                            reserve_0 as int,
                            reserve_1 as int,
                            meta.total_supply as int,
                        ) as AssetBalance;
                        add_liquidity_mint(
                            s,
                            who,
                            asset_0,
                            asset_1,
                            meta,
                            lp_asset,
                            mint_fee,
                            amount_0,
                            amount_1,
                            reserve_0,
                            reserve_1,
                        )
                    }
                },
            }
        },
        _ => Err(DispatchError::PairNotExists),
    }
}

/// Mint-and-settle tail of `add_liquidity_tr`: protocol fee, LP mint, the
/// two escrow transfers and the watermark refresh.
pub open spec fn add_liquidity_mint(
    s: State,
    who: AccountId,
    asset_0: AssetId,
    asset_1: AssetId,
    meta: PairMetadata,
    lp_asset: AssetId,
    mint_fee: AssetBalance,
    amount_0: AssetBalance,
    amount_1: AssetBalance,
    reserve_0: AssetBalance,
    reserve_1: AssetBalance,
) -> Result<State, DispatchError> {
    let pair = pair_of(asset_0, asset_1);
    let fee_minted = s.fee_to is Some && mint_fee > 0 && s.fee_point > 0;
    let fee_step: Result<(Map<crate::state::BalanceKey, AssetBalance>, AssetBalance),
        DispatchError,
    > = if fee_minted {
        match deposit_tr(s.balances, lp_asset, s.fee_to->0, mint_fee) {
            Err(e) => Err(e),
            Ok(m) => if meta.total_supply + mint_fee > u128::MAX {
                Err(DispatchError::Overflow)
            } else {
                Ok((m, (meta.total_supply + mint_fee) as AssetBalance))
            },
        }
    } else {
        Ok((s.balances, meta.total_supply))
    };
    match fee_step {
        Err(e) => Err(e),
        Ok(step) => {
            let balances_1 = step.0;
            let total_1 = step.1;
            let mint_liquidity = liquidity_spec(
                amount_0 as int,
                amount_1 as int,
                reserve_0 as int,
                reserve_1 as int,
                total_1 as int,
            );
            if !(mint_liquidity > 0) {
                Err(DispatchError::Overflow)
            } else if total_1 + mint_liquidity > u128::MAX {
                Err(DispatchError::Overflow)
            } else {
                let total_2 = (total_1 + mint_liquidity) as AssetBalance;
                match deposit_tr(balances_1, lp_asset, who, mint_liquidity as AssetBalance) {
                    Err(e) => Err(e),
                    Ok(balances_2) => match transfer_tr(
                        balances_2,
                        asset_0,
                        who,
                        meta.pair_account,
                        amount_0,
                    ) {
                        Err(e) => Err(e),
                        Ok(balances_3) => match transfer_tr(
                            balances_3,
                            asset_1,
                            who,
                            meta.pair_account,
                            amount_1,
                        ) {
                            Err(e) => Err(e),
                            Ok(balances_4) => Ok(
                                State {
                                    statuses: s.statuses.insert(
                                        pair,
                                        PairStatus::Enable(
                                            PairMetadata {
                                                pair_account: meta.pair_account,
                                                total_supply: total_2,
                                            },
                                        ),
                                    ),
                                    k_last: k_last_update(s, pair, asset_0, asset_1, balances_4, meta.pair_account),
                                    balances: balances_4,
                                    ..s
                                },
                            ),
                        },
                    },
                }
            }
        },
    }
}

/// Watermark refresh at the end of a liquidity mutation: the new reserve
/// product while fees accrue, a reset of a stale watermark when no
/// recipient is configured, untouched otherwise.
pub open spec fn k_last_update(
    s: State,
    pair: crate::types::PairKey,
    asset_0: AssetId,
    asset_1: AssetId,
    balances: Map<crate::state::BalanceKey, AssetBalance>,
    pair_account: AccountId,
) -> Map<crate::types::PairKey, AssetBalance> {
    if s.fee_to is Some {
        if s.fee_point > 0 {
            let r0 = bal_of(balances, asset_0, pair_account);
            let r1 = bal_of(balances, asset_1, pair_account);
            s.k_last.insert(pair, sat_mul_spec(r0 as int, r1 as int) as AssetBalance)
        } else {
            s.k_last
        }
    } else {
        if k_last_of(s, pair) != 0 {
            s.k_last.insert(pair, 0)
        } else {
            s.k_last
        }
    }
}

/// Whole-state transition of `inner_remove_liquidity`, error precedence
/// included.
pub open spec fn remove_liquidity_tr(
    s: State,
    who: AccountId,
    asset_0: AssetId,
    asset_1: AssetId,
    remove_liquidity: AssetBalance,
    amount_0_min: AssetBalance,
    amount_1_min: AssetBalance,
    recipient: AccountId,
) -> Result<State, DispatchError> {
    let pair = pair_of(asset_0, asset_1);
    match status_of(s, pair) {
        PairStatus::Enable(meta) => {
            let reserve_0 = bal_of(s.balances, asset_0, meta.pair_account);
            let reserve_1 = bal_of(s.balances, asset_1, meta.pair_account);
            let amount_0 = share_amount_spec(
                remove_liquidity as int,
                meta.total_supply as int,
                reserve_0 as int,
            ) as AssetBalance;
            let amount_1 = share_amount_spec(
                remove_liquidity as int,
                meta.total_supply as int,
                reserve_1 as int,
            ) as AssetBalance;
            if !(amount_0 >= amount_0_min && amount_1 >= amount_1_min) {
                Err(DispatchError::InsufficientTargetAmount)
            } else if !s.lp_pairs.contains_key(pair) {
                Err(DispatchError::InsufficientAssetBalance)
            } else {
                let lp_asset = s.lp_pairs[pair];
                let mint_fee = protocol_fee_spec(
                    s.fee_to,
                    s.fee_point,
                    k_last_of(s, pair) as int,
                    reserve_0 as int,
                    reserve_1 as int,
                    meta.total_supply as int,
                ) as AssetBalance;
                remove_liquidity_burn(
                    s,
                    who,
                    asset_0,
                    asset_1,
                    meta,
                    lp_asset,
                    mint_fee,
                    remove_liquidity,
                    amount_0,
                    amount_1,
                    recipient,
                )
            }
        },
        _ => Err(DispatchError::PairNotExists),
    }
}

/// Burn-and-settle tail of `remove_liquidity_tr`: protocol fee, LP burn,
/// the two withdrawal transfers and the watermark refresh.
pub open spec fn remove_liquidity_burn(
    s: State,
    who: AccountId,
    asset_0: AssetId,
    asset_1: AssetId,
    meta: PairMetadata,
    lp_asset: AssetId,
    mint_fee: AssetBalance,
    remove_liquidity: AssetBalance,
    amount_0: AssetBalance,
    amount_1: AssetBalance,
    recipient: AccountId,
) -> Result<State, DispatchError> {
    let pair = pair_of(asset_0, asset_1);
    let fee_minted = s.fee_to is Some && mint_fee > 0 && s.fee_point > 0;
    let fee_step: Result<(Map<crate::state::BalanceKey, AssetBalance>, AssetBalance),
        DispatchError,
    > = if fee_minted {
        match deposit_tr(s.balances, lp_asset, s.fee_to->0, mint_fee) {
            Err(e) => Err(e),
            Ok(m) => if meta.total_supply + mint_fee > u128::MAX {
                Err(DispatchError::Overflow)
            } else {
                Ok((m, (meta.total_supply + mint_fee) as AssetBalance))
            },
        }
    } else {
        Ok((s.balances, meta.total_supply))
    };
    match fee_step {
        Err(e) => Err(e),
        Ok(step) => {
            let balances_1 = step.0;
            let total_1 = step.1;
            if total_1 < remove_liquidity {
                Err(DispatchError::InsufficientLiquidity)
            } else if bal_of(balances_1, lp_asset, who) < remove_liquidity {
                Err(DispatchError::InsufficientLiquidity)
            } else {
                let total_2 = (total_1 - remove_liquidity) as AssetBalance;
                let balances_2 = balances_1.insert(
                    crate::state::BalanceKey { asset: lp_asset, account: who },
                    (bal_of(balances_1, lp_asset, who) - remove_liquidity) as AssetBalance,
                );
                match transfer_tr(balances_2, asset_0, meta.pair_account, recipient, amount_0) {
                    Err(e) => Err(e),
                    Ok(balances_3) => match transfer_tr(
                        balances_3,
                        asset_1,
                        meta.pair_account,
                        recipient,
                        amount_1,
                    ) {
                        Err(e) => Err(e),
                        Ok(balances_4) => Ok(
                            State {
                                statuses: s.statuses.insert(
                                    pair,
                                    PairStatus::Enable(
                                        PairMetadata {
                                            pair_account: meta.pair_account,
                                            total_supply: total_2,
                                        },
                                    ),
                                ),
                                k_last: k_last_update(s, pair, asset_0, asset_1, balances_4, meta.pair_account),
                                balances: balances_4,
                                ..s
                            },
                        ),
                    },
                }
            }
        },
    }
}

impl Pallet {
    /// `floor(amount_0 * reserve_1 / reserve_0)` in a double-width
    /// intermediate, saturating toward zero on division failure.
    pub fn calculate_share_amount(
        amount_0: AssetBalance,
        reserve_0: AssetBalance,
        reserve_1: AssetBalance,
    ) -> (r: AssetBalance)
        ensures
            r == share_amount_spec(amount_0 as int, reserve_0 as int, reserve_1 as int),
    {
        match mul_div_floor(amount_0, reserve_1, reserve_0) {
            Some(v) => v,
            None => 0,
        }
    }

    /// LP shares minted for depositing the given amounts against the given
    /// reserves and outstanding supply.
    pub fn calculate_liquidity(
        amount_0: AssetBalance,
        amount_1: AssetBalance,
        reserve_0: AssetBalance,
        reserve_1: AssetBalance,
        total_liquidity: AssetBalance,
    ) -> (r: AssetBalance)
        ensures
            r == liquidity_spec(
                amount_0 as int,
                amount_1 as int,
                reserve_0 as int,
                reserve_1 as int,
                total_liquidity as int,
            ),
    {
        if total_liquidity == 0 {
            let p = sat_mul_u128(amount_0, amount_1);
            let r = sqrt_floor(p);
            proof {
                lemma_isqrt_exists(p as int);
                lemma_isqrt_unique(p as int, r as int, isqrt(p as int));
            }
            r
        } else {
            let s0 = Self::calculate_share_amount(amount_0, reserve_0, total_liquidity);
            let s1 = Self::calculate_share_amount(amount_1, reserve_1, total_liquidity);
            if s0 <= s1 {
                s0
            } else {
                s1
            }
        }
    }

    /// The two-sided amounts actually deposited for the desired amounts,
    /// or the range error when the reserve ratio puts the counterpart
    /// outside the caller's bounds.
    pub fn calculate_added_amount(
        amount_0_desired: AssetBalance,
        amount_1_desired: AssetBalance,
        amount_0_min: AssetBalance,
        amount_1_min: AssetBalance,
        reserve_0: AssetBalance,
        reserve_1: AssetBalance,
    ) -> (r: Result<(AssetBalance, AssetBalance), DispatchError>)
        ensures
            match r {
                Ok(a) => added_amount_spec(
                    amount_0_desired as int,
                    amount_1_desired as int,
                    amount_0_min as int,
                    amount_1_min as int,
                    reserve_0 as int,
                    reserve_1 as int,
                ) == Ok::<(int, int), DispatchError>((a.0 as int, a.1 as int)),
                Err(e) => added_amount_spec(
                    amount_0_desired as int,
                    amount_1_desired as int,
                    amount_0_min as int,
                    amount_1_min as int,
                    reserve_0 as int,
                    reserve_1 as int,
                ) == Err::<(int, int), DispatchError>(e),
            },
    {
        if reserve_0 == 0 || reserve_1 == 0 {
            return Ok((amount_0_desired, amount_1_desired));
        }
        let amount_1_optimal = Self::calculate_share_amount(amount_0_desired, reserve_0, reserve_1);
        if amount_1_optimal <= amount_1_desired {
            if amount_1_optimal >= amount_1_min {
                Ok((amount_0_desired, amount_1_optimal))
            } else {
                Err(DispatchError::IncorrectAssetAmountRange)
            }
        } else {
            let amount_0_optimal = Self::calculate_share_amount(
                amount_1_desired,
                reserve_1,
                reserve_0,
            );
            if amount_0_optimal >= amount_0_min && amount_0_optimal <= amount_0_desired {
                Ok((amount_0_optimal, amount_1_desired))
            } else {
                Err(DispatchError::IncorrectAssetAmountRange)
            }
        }
    }

    /// The protocol's cut of trading fees at a liquidity-supply mutation,
    /// measured by invariant growth over the recorded watermark. When no
    /// fee recipient is configured but a stale watermark exists, the
    /// watermark is lazily cleared to zero; nothing else changes.
    pub fn mint_protocol_fee(
        &mut self,
        reserve_0: AssetBalance,
        reserve_1: AssetBalance,
        asset_0: AssetId,
        asset_1: AssetId,
        total_liquidity: AssetBalance,
    ) -> (r: AssetBalance)
        requires
            old(self).wf(),
        ensures
            final(self).wf(),
            r == protocol_fee_spec(
                old(self)@.fee_to,
                old(self)@.fee_point,
                k_last_of(old(self)@, pair_of(asset_0, asset_1)) as int,
                reserve_0 as int,
                reserve_1 as int,
                total_liquidity as int,
            ),
            final(self)@ == (State {
                k_last: if old(self)@.fee_to is None && k_last_of(
                    old(self)@,
                    pair_of(asset_0, asset_1),
                ) != 0 {
                    old(self)@.k_last.insert(pair_of(asset_0, asset_1), 0)
                } else {
                    old(self)@.k_last
                },
                ..old(self)@
            }),
    {
        let pair = pair_key(asset_0, asset_1);
        let new_k_last = self.k_last(pair);
        let (fee_to, fee_point) = self.fee_meta();
        proof {
            self.lemma_wf_fee_point();
        }
        match fee_to {
            Some(_) => {
                if new_k_last != 0 && fee_point > 0 {
                    let k_now = sat_mul_u128(reserve_0, reserve_1);
                    let root_k = sqrt_floor(k_now);
                    let root_k_last = sqrt_floor(new_k_last);
                    proof {
                        lemma_isqrt_exists(k_now as int);
                        lemma_isqrt_unique(k_now as int, root_k as int, isqrt(k_now as int));
                        lemma_isqrt_exists(new_k_last as int);
                        lemma_isqrt_unique(
                            new_k_last as int,
                            root_k_last as int,
                            isqrt(new_k_last as int),
                        );
                    }
                    if root_k > root_k_last {
                        let fix_fee_point = ((30 - fee_point) / fee_point) as u128;
                        proof {
                            assert(root_k < 0x10000000000000000u128) by (nonlinear_arith)
                                requires
                                    root_k as int * root_k as int <= u128::MAX,
                            ;
                            assert(root_k as int * fix_fee_point as int <= 0xffffffffffffffffint
                                * 29) by (nonlinear_arith)
                                requires
                                    0 <= root_k as int <= 0xffffffffffffffffint,
                                    0 <= fix_fee_point as int <= 29,
                            ;
                        }
                        let den = root_k * fix_fee_point + root_k_last;
                        match mul_div_floor(total_liquidity, root_k - root_k_last, den) {
                            Some(l) => l,
                            None => 0,
                        }
                    } else {
                        0
                    }
                } else {
                    0
                }
            },
            None => {
                if new_k_last != 0 {
                    self.mutate_k_last(asset_0, asset_1, 0);
                }
                0
            },
        }
    }

    /// Adds liquidity to an enabled pair: mints the protocol fee, mints LP
    /// shares for the deposited amounts, and escrows both assets into the
    /// settlement account — all-or-nothing, exactly as `add_liquidity_tr`
    /// states.
    pub fn inner_add_liquidity(
        &mut self,
        who: AccountId,
        asset_0: AssetId,
        asset_1: AssetId,
        amount_0_desired: AssetBalance,
        amount_1_desired: AssetBalance,
        amount_0_min: AssetBalance,
        amount_1_min: AssetBalance,
    ) -> (r: Result<(), DispatchError>)
        requires
            old(self).wf(),
        ensures
            final(self).wf(),
            match add_liquidity_tr(
                old(self)@,
                who,
                asset_0,
                asset_1,
                amount_0_desired,
                amount_1_desired,
                amount_0_min,
                amount_1_min,
            ) {
                Ok(s2) => r == Ok::<(), DispatchError>(()) && final(self)@ == s2,
                Err(e) => r == Err::<(), DispatchError>(e) && final(self)@ == old(self)@,
            },
    {
        let pair = pair_key(asset_0, asset_1);
        let status = self.pair_status(pair);
        match status {
            PairStatus::Enable(meta) => {
                let reserve_0 = self.balance_of(asset_0, meta.pair_account);
                let reserve_1 = self.balance_of(asset_1, meta.pair_account);
                let amounts = match Self::calculate_added_amount(
                    amount_0_desired,
                    amount_1_desired,
                    amount_0_min,
                    amount_1_min,
                    reserve_0,
                    reserve_1,
                ) {
                    Ok(a) => a,
                    Err(e) => {
                        return Err(e);
                    },
                };
                let amount_0 = amounts.0;
                let amount_1 = amounts.1;
                let balance_asset_0 = self.balance_of(asset_0, who);
                let balance_asset_1 = self.balance_of(asset_1, who);
                if !(balance_asset_0 >= amount_0 && balance_asset_1 >= amount_1) {
                    return Err(DispatchError::InsufficientAssetBalance);
                }
                let lp_asset = match self.lp_pairs(pair) {
                    Some(a) => a,
                    None => {
                        return Err(DispatchError::InsufficientAssetBalance);
                    },
                };
                let (fee_to, fee_point) = self.fee_meta();
                // While a recipient is configured the fee call leaves the
                // watermark untouched; the lazy reset a recipient-less
                // call would perform is applied at the commit below,
                // keeping this operation all-or-nothing.
                let mint_fee = match fee_to {
                    Some(_) => self.mint_protocol_fee(
                        reserve_0,
                        reserve_1,
                        asset_0,
                        asset_1,
                        meta.total_supply,
                    ),
                    None => 0,
                };
                proof {
                    assert(self@ =~= old(self)@);
                }
                let mut bals = self.ledger_copy();
                let mut total_supply = meta.total_supply;
                match fee_to {
                    Some(ft) => {
                        if mint_fee > 0 && fee_point > 0 {
                            if let Err(e) = bals.deposit(lp_asset, ft, mint_fee) {
                                return Err(e);
                            }
                            total_supply = match total_supply.checked_add(mint_fee) {
                                Some(t) => t,
                                None => {
                                    return Err(DispatchError::Overflow);
                                },
                            };
                        }
                    },
                    None => {},
                }
                let mint_liquidity = Self::calculate_liquidity(
                    amount_0,
                    amount_1,
                    reserve_0,
                    reserve_1,
                    total_supply,
                );
                if !(mint_liquidity > 0) {
                    return Err(DispatchError::Overflow);
                }
                total_supply = match total_supply.checked_add(mint_liquidity) {
                    Some(t) => t,
                    None => {
                        return Err(DispatchError::Overflow);
                    },
                };
                if let Err(e) = bals.deposit(lp_asset, who, mint_liquidity) {
                    return Err(e);
                }
                if let Err(e) = bals.transfer(asset_0, who, meta.pair_account, amount_0) {
                    return Err(e);
                }
                if let Err(e) = bals.transfer(asset_1, who, meta.pair_account, amount_1) {
                    return Err(e);
                }
                match fee_to {
                    Some(_) => {
                        if fee_point > 0 {
                            let new_reserve_0 = bals.balance_of(asset_0, meta.pair_account);
                            let new_reserve_1 = bals.balance_of(asset_1, meta.pair_account);
                            let k = sat_mul_u128(new_reserve_0, new_reserve_1);
                            self.mutate_k_last(asset_0, asset_1, k);
                        }
                    },
                    None => {
                        if self.k_last(pair) != 0 {
                            self.mutate_k_last(asset_0, asset_1, 0);
                        }
                    },
                }
                self.commit_ledger(bals);
                self.set_status(
                    pair,
                    PairStatus::Enable(
                        PairMetadata { pair_account: meta.pair_account, total_supply },
                    ),
                );
                proof {
                    let t = add_liquidity_tr(
                        old(self)@,
                        who,
                        asset_0,
                        asset_1,
                        amount_0_desired,
                        amount_1_desired,
                        amount_0_min,
                        amount_1_min,
                    );
                    match t {
                        Ok(s2) => {
                            assert(self@ =~= s2);
                        },
                        Err(_) => {
                            assert(false);
                        },
                    }
                }
                Ok(())
            },
            _ => Err(DispatchError::PairNotExists),
        }
    }

    /// Removes liquidity from an enabled pair: mints the protocol fee,
    /// burns the requested LP amount, and pays both assets out of the
    /// settlement account to the recipient — all-or-nothing, exactly as
    /// `remove_liquidity_tr` states.
    pub fn inner_remove_liquidity(
        &mut self,
        who: AccountId,
        asset_0: AssetId,
        asset_1: AssetId,
        remove_liquidity: AssetBalance,
        amount_0_min: AssetBalance,
        amount_1_min: AssetBalance,
        recipient: AccountId,
    ) -> (r: Result<(), DispatchError>)
        requires
            old(self).wf(),
        ensures
            final(self).wf(),
            match remove_liquidity_tr(
                old(self)@,
                who,
                asset_0,
                asset_1,
                remove_liquidity,
                amount_0_min,
                amount_1_min,
                recipient,
            ) {
                Ok(s2) => r == Ok::<(), DispatchError>(()) && final(self)@ == s2,
                Err(e) => r == Err::<(), DispatchError>(e) && final(self)@ == old(self)@,
            },
    {
        let pair = pair_key(asset_0, asset_1);
        let status = self.pair_status(pair);
        match status {
            PairStatus::Enable(meta) => {
                let reserve_0 = self.balance_of(asset_0, meta.pair_account);
                let reserve_1 = self.balance_of(asset_1, meta.pair_account);
                let amount_0 = Self::calculate_share_amount(
                    remove_liquidity,
                    meta.total_supply,
                    reserve_0,
                );
                let amount_1 = Self::calculate_share_amount(
                    remove_liquidity,
                    meta.total_supply,
                    reserve_1,
                );
                if !(amount_0 >= amount_0_min && amount_1 >= amount_1_min) {
                    return Err(DispatchError::InsufficientTargetAmount);
                }
                let lp_asset = match self.lp_pairs(pair) {
                    Some(a) => a,
                    None => {
                        return Err(DispatchError::InsufficientAssetBalance);
                    },
                };
                let (fee_to, fee_point) = self.fee_meta();
                // While a recipient is configured the fee call leaves the
                // watermark untouched; the lazy reset a recipient-less
                // call would perform is applied at the commit below,
                // keeping this operation all-or-nothing.
                let mint_fee = match fee_to {
                    Some(_) => self.mint_protocol_fee(
                        reserve_0,
                        reserve_1,
                        asset_0,
                        asset_1,
                        meta.total_supply,
                    ),
                    None => 0,
                };
                proof {
                    assert(self@ =~= old(self)@);
                }
                let mut bals = self.ledger_copy();
                let mut total_supply = meta.total_supply;
                match fee_to {
                    Some(ft) => {
                        if mint_fee > 0 && fee_point > 0 {
                            if let Err(e) = bals.deposit(lp_asset, ft, mint_fee) {
                                return Err(e);
                            }
                            total_supply = match total_supply.checked_add(mint_fee) {
                                Some(t) => t,
                                None => {
                                    return Err(DispatchError::Overflow);
                                },
                            };
                        }
                    },
                    None => {},
                }
                if total_supply < remove_liquidity {
                    return Err(DispatchError::InsufficientLiquidity);
                }
                total_supply = total_supply - remove_liquidity;
                let who_lp = bals.balance_of(lp_asset, who);
                if who_lp < remove_liquidity {
                    return Err(DispatchError::InsufficientLiquidity);
                }
                if let Err(e) = bals.withdraw(lp_asset, who, remove_liquidity) {
                    return Err(e);
                }
                if let Err(e) = bals.transfer(asset_0, meta.pair_account, recipient, amount_0) {
                    return Err(e);
                }
                if let Err(e) = bals.transfer(asset_1, meta.pair_account, recipient, amount_1) {
                    return Err(e);
                }
                match fee_to {
                    Some(_) => {
                        if fee_point > 0 {
                            let new_reserve_0 = bals.balance_of(asset_0, meta.pair_account);
                            let new_reserve_1 = bals.balance_of(asset_1, meta.pair_account);
                            let k = sat_mul_u128(new_reserve_0, new_reserve_1);
                            self.mutate_k_last(asset_0, asset_1, k);
                        }
                    },
                    None => {
                        if self.k_last(pair) != 0 {
                            self.mutate_k_last(asset_0, asset_1, 0);
                        }
                    },
                }
                self.commit_ledger(bals);
                self.set_status(
                    pair,
                    PairStatus::Enable(
                        PairMetadata { pair_account: meta.pair_account, total_supply },
                    ),
                );
                proof {
                    let t = remove_liquidity_tr(
                        old(self)@,
                        who,
                        asset_0,
                        asset_1,
                        remove_liquidity,
                        amount_0_min,
                        amount_1_min,
                        recipient,
                    );
                    match t {
                        Ok(s2) => {
                            assert(self@ =~= s2);
                        },
                        Err(_) => {
                            assert(false);
                        },
                    }
                }
                Ok(())
            },
            _ => Err(DispatchError::PairNotExists),
        }
    }
}

} // verus!
