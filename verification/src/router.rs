//! Swap router: prices single-hop and multi-hop swaps in both directions,
//! enforces the constant-product invariant at every hop, and executes the
//! chained transfers directly between settlement accounts.

use vstd::prelude::*;

use crate::math::product_ge;
use crate::math::sat_add_spec;
use crate::math::sat_add_u128;
use crate::math::sat_sub_spec;
use crate::math::sat_sub_u128;
use crate::math::swap_in_core;
use crate::math::swap_in_formula;
use crate::math::swap_out_core;
use crate::math::swap_out_formula;
use crate::registry::pair_account_spec;
use crate::state::BalanceKey;
use crate::state::Ledger;
use crate::state::Pallet;
use crate::state::State;
use crate::state::bal_of;
use crate::state::status_of;
use crate::state::transfer_tr;
use crate::types::AccountId;
use crate::types::AssetBalance;
use crate::types::AssetId;
use crate::types::DispatchError;
use crate::types::PairStatus;
use crate::types::pair_key;
use crate::types::pair_of;
use crate::types::sort_spec;

verus! {

/// Output bought by an exact input against the given reserves, after the
/// 0.3% trading fee; zero if any operand is zero.
pub open spec fn amount_out_spec(input_amount: int, input_reserve: int, output_reserve: int) -> int {
    if input_reserve == 0 || output_reserve == 0 || input_amount == 0 {
        0
    } else {
        swap_out_formula(input_amount, input_reserve, output_reserve, 997, 1000)
    }
}

/// Input owed for an exact output against the given reserves, after the
/// 0.3% trading fee, rounded up; zero if any operand is zero.
pub open spec fn amount_in_spec(output_amount: int, input_reserve: int, output_reserve: int) -> int {
    if input_reserve == 0 || output_reserve == 0 || output_amount == 0 {
        0
    } else {
        swap_in_formula(output_amount, input_reserve, output_reserve, 997, 1000)
    }
}

/// The per-hop invariant guard: the post-swap reserve product, with the
/// reserve moves saturated at the balance width, must not fall below the
/// pre-swap product.
pub open spec fn invariant_holds(reserve_in: int, reserve_out: int, amount_in: int, amount_out: int) -> bool {
    sat_add_spec(reserve_in, amount_in) * sat_sub_spec(reserve_out, amount_out) >= reserve_in
        * reserve_out
}

/// Left-to-right walk of `get_amount_out_by_path` from hop `i`, extending
/// the per-hop amount sequence.
pub open spec fn amounts_out_loop(
    s: State,
    path: Seq<AssetId>,
    out_vec: Seq<AssetBalance>,
    i: nat,
) -> Result<Seq<AssetBalance>, DispatchError>
    decreases path.len() - i,
{
    if i + 1 >= path.len() {
        Ok(out_vec)
    } else {
        let account = pair_account_spec(path[i as int], path[i as int + 1]);
        let reserve_0 = bal_of(s.balances, path[i as int], account);
        let reserve_1 = bal_of(s.balances, path[i as int + 1], account);
        if !(reserve_1 > 0 && reserve_0 > 0) {
            Err(DispatchError::InvalidPath)
        } else {
            let amount = amount_out_spec(out_vec[i as int] as int, reserve_0 as int, reserve_1 as int);
            if !(amount > 0) {
                Err(DispatchError::InvalidPath)
            } else if !invariant_holds(reserve_0 as int, reserve_1 as int, out_vec[i as int] as int, amount) {
                Err(DispatchError::InvariantCheckFailed)
            } else {
                amounts_out_loop(s, path, out_vec.push(amount as AssetBalance), i + 1)
            }
        }
    }
}

/// The per-hop amount sequence of an exact-in swap along a path, or the
/// first error the walk meets.
pub open spec fn amounts_out_spec(s: State, amount_in: AssetBalance, path: Seq<AssetId>) -> Result<
    Seq<AssetBalance>,
    DispatchError,
> {
    if path.len() <= 1 {
        Err(DispatchError::InvalidPath)
    } else {
        amounts_out_loop(s, path, seq![amount_in], 0)
    }
}

/// Right-to-left walk of `get_amount_in_by_path` down to hop `i`,
/// extending the reversed per-hop amount sequence.
pub open spec fn amounts_in_loop(
    s: State,
    path: Seq<AssetId>,
    vec: Seq<AssetBalance>,
    i: nat,
) -> Result<Seq<AssetBalance>, DispatchError>
    decreases i,
{
    if i == 0 {
        Ok(vec.reverse())
    } else {
        let account = pair_account_spec(path[i as int], path[i as int - 1]);
        let reserve_0 = bal_of(s.balances, path[i as int], account);
        let reserve_1 = bal_of(s.balances, path[i as int - 1], account);
        if !(reserve_1 > 0 && reserve_0 > 0) {
            Err(DispatchError::InvalidPath)
        } else {
            let out_here = vec[path.len() - 1 - i as int] as int;
            let amount = amount_in_spec(out_here, reserve_1 as int, reserve_0 as int);
            if !(amount > 1) {
                Err(DispatchError::InvalidPath)
            } else if !invariant_holds(reserve_1 as int, reserve_0 as int, amount, out_here) {
                Err(DispatchError::InvariantCheckFailed)
            } else {
                amounts_in_loop(s, path, vec.push(amount as AssetBalance), (i - 1) as nat)
            }
        }
    }
}

/// The per-hop amount sequence of an exact-out swap along a path,
/// front-loaded with the required initial input, or the first error the
/// walk meets.
pub open spec fn amounts_in_spec(s: State, amount_out: AssetBalance, path: Seq<AssetId>) -> Result<
    Seq<AssetBalance>,
    DispatchError,
> {
    if path.len() <= 1 {
        Err(DispatchError::InvalidPath)
    } else {
        amounts_in_loop(s, path, seq![amount_out], (path.len() - 1) as nat)
    }
}

/// What a successful exact-in walk establishes at hop `j`: nonzero
/// reserves, the priced positive output, and the invariant guard.
pub open spec fn out_hop_ok(s: State, path: Seq<AssetId>, v: Seq<AssetBalance>, j: int) -> bool {
    let account = pair_account_spec(path[j], path[j + 1]);
    let reserve_0 = bal_of(s.balances, path[j], account);
    let reserve_1 = bal_of(s.balances, path[j + 1], account);
    &&& reserve_0 > 0
    &&& reserve_1 > 0
    &&& v[j + 1] == amount_out_spec(v[j] as int, reserve_0 as int, reserve_1 as int)
    &&& v[j + 1] > 0
    &&& invariant_holds(reserve_0 as int, reserve_1 as int, v[j] as int, v[j + 1] as int)
}

/// A successful exact-in walk extends its prefix and establishes
/// `out_hop_ok` at every hop it prices.
pub proof fn lemma_amounts_out_characterize(
    s: State,
    path: Seq<AssetId>,
    out_vec: Seq<AssetBalance>,
    i: nat,
)
    requires
        out_vec.len() == i + 1,
        i + 1 <= path.len(),
    ensures
        match amounts_out_loop(s, path, out_vec, i) {
            Ok(v) => {
                &&& v.len() == path.len()
                &&& v.take(out_vec.len() as int) == out_vec
                &&& forall|j: int| i <= j < path.len() - 1 ==> out_hop_ok(s, path, v, j)
            },
            Err(_) => true,
        },
    decreases path.len() - i,
{
    if i + 1 >= path.len() {
        assert(out_vec.take(out_vec.len() as int) =~= out_vec);
    } else {
        let account = pair_account_spec(path[i as int], path[i as int + 1]);
        let reserve_0 = bal_of(s.balances, path[i as int], account);
        let reserve_1 = bal_of(s.balances, path[i as int + 1], account);
        if reserve_1 > 0 && reserve_0 > 0 {
            let amount = amount_out_spec(
                out_vec[i as int] as int,
                reserve_0 as int,
                reserve_1 as int,
            );
            if amount > 0 && invariant_holds(
                reserve_0 as int,
                reserve_1 as int,
                out_vec[i as int] as int,
                amount,
            ) {
                let pushed = out_vec.push(amount as AssetBalance);
                lemma_amounts_out_characterize(s, path, pushed, i + 1);
                match amounts_out_loop(s, path, pushed, i + 1) {
                    Ok(v) => {
                        assert forall|k: int| 0 <= k < pushed.len() implies v[k] == pushed[k] by {
                            assert(v.take(pushed.len() as int)[k] == pushed[k]);
                        }
                        assert(v.take(out_vec.len() as int) =~= out_vec);
                        assert(v[i as int] == out_vec[i as int]);
                        assert(v[i as int + 1] == amount as AssetBalance);
                        assert(out_hop_ok(s, path, v, i as int));
                    },
                    Err(_) => {},
                }
            }
        }
    }
}

/// A successful exact-in walk prices every hop: one amount per path entry.
pub proof fn lemma_amounts_out_len(
    s: State,
    path: Seq<AssetId>,
    out_vec: Seq<AssetBalance>,
    i: nat,
)
    requires
        out_vec.len() == i + 1,
        i + 1 <= path.len(),
    ensures
        match amounts_out_loop(s, path, out_vec, i) {
            Ok(v) => v.len() == path.len(),
            Err(_) => true,
        },
    decreases path.len() - i,
{
    if i + 1 >= path.len() {
    } else {
        let account = pair_account_spec(path[i as int], path[i as int + 1]);
        let reserve_0 = bal_of(s.balances, path[i as int], account);
        let reserve_1 = bal_of(s.balances, path[i as int + 1], account);
        if reserve_1 > 0 && reserve_0 > 0 {
            let amount = amount_out_spec(out_vec[i as int] as int, reserve_0 as int, reserve_1 as int);
            if amount > 0 && invariant_holds(
                reserve_0 as int,
                reserve_1 as int,
                out_vec[i as int] as int,
                amount,
            ) {
                lemma_amounts_out_len(s, path, out_vec.push(amount as AssetBalance), i + 1);
            }
        }
    }
}

/// A successful exact-out walk prices every hop: one amount per path entry.
pub proof fn lemma_amounts_in_len(s: State, path: Seq<AssetId>, vec: Seq<AssetBalance>, i: nat)
    requires
        vec.len() + i == path.len(),
        i + 1 <= path.len(),
    ensures
        match amounts_in_loop(s, path, vec, i) {
            Ok(v) => v.len() == path.len(),
            Err(_) => true,
        },
    decreases i,
{
    if i == 0 {
    } else {
        let account = pair_account_spec(path[i as int], path[i as int - 1]);
        let reserve_0 = bal_of(s.balances, path[i as int], account);
        let reserve_1 = bal_of(s.balances, path[i as int - 1], account);
        if reserve_1 > 0 && reserve_0 > 0 {
            let out_here = vec[path.len() - 1 - i as int] as int;
            let amount = amount_in_spec(out_here, reserve_1 as int, reserve_0 as int);
            if amount > 1 && invariant_holds(reserve_1 as int, reserve_0 as int, amount, out_here) {
                lemma_amounts_in_len(s, path, vec.push(amount as AssetBalance), (i - 1) as nat);
            }
        }
    }
}

/// One hop's settlement: requires the pair enabled and the moves covered
/// by the reserves, then pays out of the settlement account. The second
/// component is the balance map as the attempt leaves it (on an error
/// after the first move, that move).
pub open spec fn pair_swap_tr(
    s: State,
    balances: Map<BalanceKey, AssetBalance>,
    asset_0: AssetId,
    asset_1: AssetId,
    pair_account: AccountId,
    amount_0: AssetBalance,
    amount_1: AssetBalance,
    recipient: AccountId,
) -> (Result<(), DispatchError>, Map<BalanceKey, AssetBalance>) {
    match status_of(s, pair_of(asset_0, asset_1)) {
        PairStatus::Enable(_) => {
            let reserve_0 = bal_of(balances, asset_0, pair_account);
            let reserve_1 = bal_of(balances, asset_1, pair_account);
            if !(amount_0 <= reserve_0 && amount_1 <= reserve_1) {
                (Err(DispatchError::InsufficientPairReserve), balances)
            } else {
                let step_0 = if amount_0 > 0 {
                    transfer_tr(balances, asset_0, pair_account, recipient, amount_0)
                } else {
                    Ok(balances)
                };
                match step_0 {
                    Err(e) => (Err(e), balances),
                    Ok(b1) => if amount_1 > 0 {
                        match transfer_tr(b1, asset_1, pair_account, recipient, amount_1) {
                            Err(e) => (Err(e), b1),
                            Ok(b2) => (Ok(()), b2),
                        }
                    } else {
                        (Ok(()), b1)
                    },
                }
            }
        },
        _ => (Err(DispatchError::PairNotExists), balances),
    }
}

/// Hop-by-hop settlement of a priced path from hop `i`: each hop routes
/// its output to the next hop's settlement account, the last to the
/// recipient.
pub open spec fn swap_loop_tr(
    s: State,
    amounts: Seq<AssetBalance>,
    path: Seq<AssetId>,
    recipient: AccountId,
    balances: Map<BalanceKey, AssetBalance>,
    i: nat,
) -> Result<Map<BalanceKey, AssetBalance>, DispatchError>
    decreases amounts.len() - i,
{
    if i + 1 >= amounts.len() {
        Ok(balances)
    } else {
        let input = path[i as int];
        let output = path[i as int + 1];
        let sorted = sort_spec(input, output);
        let amount_0_out: AssetBalance = if input != sorted.0 {
            amounts[i as int + 1]
        } else {
            0
        };
        let amount_1_out: AssetBalance = if input != sorted.0 {
            0
        } else {
            amounts[i as int + 1]
        };
        let account = pair_account_spec(sorted.0, sorted.1);
        let to = if i + 2 < amounts.len() {
            pair_account_spec(output, path[i as int + 2])
        } else {
            recipient
        };
        let t = pair_swap_tr(s, balances, sorted.0, sorted.1, account, amount_0_out, amount_1_out, to);
        match t.0 {
            Err(e) => Err(e),
            Ok(_) => swap_loop_tr(s, amounts, path, recipient, t.1, i + 1),
        }
    }
}

/// Whole-path settlement of a priced path against the current balances.
pub open spec fn swap_tr(
    s: State,
    amounts: Seq<AssetBalance>,
    path: Seq<AssetId>,
    recipient: AccountId,
) -> Result<Map<BalanceKey, AssetBalance>, DispatchError> {
    swap_loop_tr(s, amounts, path, recipient, s.balances, 0)
}

/// Whole-state transition of `inner_swap_exact_assets_for_assets`.
pub open spec fn swap_exact_in_tr(
    s: State,
    who: AccountId,
    amount_in: AssetBalance,
    amount_out_min: AssetBalance,
    path: Seq<AssetId>,
    recipient: AccountId,
) -> Result<State, DispatchError> {
    match amounts_out_spec(s, amount_in, path) {
        Err(e) => Err(e),
        Ok(amounts) => if !(amounts[amounts.len() - 1] >= amount_out_min) {
            Err(DispatchError::InsufficientTargetAmount)
        } else {
            let account = pair_account_spec(path[0], path[1]);
            match transfer_tr(s.balances, path[0], who, account, amount_in) {
                Err(e) => Err(e),
                Ok(b1) => match swap_loop_tr(s, amounts, path, recipient, b1, 0) {
                    Err(e) => Err(e),
                    Ok(m) => Ok(State { balances: m, ..s }),
                },
            }
        },
    }
}

/// Whole-state transition of `inner_swap_assets_for_exact_assets`.
pub open spec fn swap_exact_out_tr(
    s: State,
    who: AccountId,
    amount_out: AssetBalance,
    amount_in_max: AssetBalance,
    path: Seq<AssetId>,
    recipient: AccountId,
) -> Result<State, DispatchError> {
    match amounts_in_spec(s, amount_out, path) {
        Err(e) => Err(e),
        Ok(amounts) => if !(amounts[0] <= amount_in_max) {
            Err(DispatchError::ExcessiveSoldAmount)
        } else {
            let account = pair_account_spec(path[0], path[1]);
            match transfer_tr(s.balances, path[0], who, account, amounts[0]) {
                Err(e) => Err(e),
                Ok(b1) => match swap_loop_tr(s, amounts, path, recipient, b1, 0) {
                    Err(e) => Err(e),
                    Ok(m) => Ok(State { balances: m, ..s }),
                },
            }
        },
    }
}

impl Pallet {
    /// Output bought by an exact input at the 0.3% trading fee.
    pub fn get_amount_out(
        input_amount: AssetBalance,
        input_reserve: AssetBalance,
        output_reserve: AssetBalance,
    ) -> (r: AssetBalance)
        ensures
            r == amount_out_spec(input_amount as int, input_reserve as int, output_reserve as int),
    {
        if input_reserve == 0 || output_reserve == 0 || input_amount == 0 {
            return 0;
        }
        swap_out_core(input_amount, input_reserve, output_reserve, 997, 1000)
    }

    /// Input owed for an exact output at the 0.3% trading fee, rounded up
    /// so the router never under-charges the payer.
    pub fn get_amount_in(
        output_amount: AssetBalance,
        input_reserve: AssetBalance,
        output_reserve: AssetBalance,
    ) -> (r: AssetBalance)
        ensures
            r == amount_in_spec(output_amount as int, input_reserve as int, output_reserve as int),
    {
        if input_reserve == 0 || output_reserve == 0 || output_amount == 0 {
            return 0;
        }
        swap_in_core(output_amount, input_reserve, output_reserve, 997, 1000)
    }

    /// Walks a path left to right from an exact input, feeding each hop's
    /// output into the next, and returns the full per-hop amount sequence;
    /// every hop needs nonzero reserves, a positive output, and a reserve
    /// product that does not fall.
    pub fn get_amount_out_by_path(&self, amount_in: AssetBalance, path: &Vec<AssetId>) -> (r:
        Result<Vec<AssetBalance>, DispatchError>)
        requires
            self.wf(),
        ensures
            match r {
                Ok(v) => amounts_out_spec(self@, amount_in, path@) == Ok::<
                    Seq<AssetBalance>,
                    DispatchError,
                >(v@),
                Err(e) => amounts_out_spec(self@, amount_in, path@) == Err::<
                    Seq<AssetBalance>,
                    DispatchError,
                >(e),
            },
    {
        if path.len() <= 1 {
            return Err(DispatchError::InvalidPath);
        }
        let len = path.len() - 1;
        let mut out_vec: Vec<AssetBalance> = Vec::new();
        out_vec.push(amount_in);
        proof {
            assert(out_vec@ =~= seq![amount_in]);
        }
        let mut i: usize = 0;
        while i < len
            invariant
                self.wf(),
                path@.len() == len + 1,
                i <= len,
                out_vec@.len() == i + 1,
                amounts_out_spec(self@, amount_in, path@) == amounts_out_loop(
                    self@,
                    path@,
                    out_vec@,
                    i as nat,
                ),
            decreases len - i,
        {
            let pair_account = Self::pair_account_id(path[i], path[i + 1]);
            let reserve_0 = self.balance_of(path[i], pair_account);
            let reserve_1 = self.balance_of(path[i + 1], pair_account);
            if !(reserve_1 > 0 && reserve_0 > 0) {
                return Err(DispatchError::InvalidPath);
            }
            let amount = Self::get_amount_out(out_vec[i], reserve_0, reserve_1);
            if !(amount > 0) {
                return Err(DispatchError::InvalidPath);
            }
            let grown = sat_add_u128(reserve_0, out_vec[i]);
            let shrunk = sat_sub_u128(reserve_1, amount);
            if !product_ge(grown, shrunk, reserve_0, reserve_1) {
                return Err(DispatchError::InvariantCheckFailed);
            }
            out_vec.push(amount);
            i += 1;
        }
        Ok(out_vec)
    }

    /// Walks a path right to left from an exact final output, charging
    /// each hop's required input, and returns the full per-hop amount
    /// sequence front-loaded with the required initial input.
    pub fn get_amount_in_by_path(&self, amount_out: AssetBalance, path: &Vec<AssetId>) -> (r:
        Result<Vec<AssetBalance>, DispatchError>)
        requires
            self.wf(),
        ensures
            match r {
                Ok(v) => amounts_in_spec(self@, amount_out, path@) == Ok::<
                    Seq<AssetBalance>,
                    DispatchError,
                >(v@),
                Err(e) => amounts_in_spec(self@, amount_out, path@) == Err::<
                    Seq<AssetBalance>,
                    DispatchError,
                >(e),
            },
    {
        let len = path.len();
        if len <= 1 {
            return Err(DispatchError::InvalidPath);
        }
        let mut out_vec: Vec<AssetBalance> = Vec::new();
        out_vec.push(amount_out);
        proof {
            assert(out_vec@ =~= seq![amount_out]);
        }
        let mut i: usize = len - 1;
        while i > 0
            invariant
                self.wf(),
                path@.len() == len,
                1 <= len,
                i <= len - 1,
                out_vec@.len() == len - i,
                amounts_in_spec(self@, amount_out, path@) == amounts_in_loop(
                    self@,
                    path@,
                    out_vec@,
                    i as nat,
                ),
            decreases i,
        {
            let pair_account = Self::pair_account_id(path[i], path[i - 1]);
            let reserve_0 = self.balance_of(path[i], pair_account);
            let reserve_1 = self.balance_of(path[i - 1], pair_account);
            if !(reserve_1 > 0 && reserve_0 > 0) {
                return Err(DispatchError::InvalidPath);
            }
            let amount = Self::get_amount_in(out_vec[len - 1 - i], reserve_1, reserve_0);
            if !(amount > 1) {
                return Err(DispatchError::InvalidPath);
            }
            let grown = sat_add_u128(reserve_1, amount);
            let shrunk = sat_sub_u128(reserve_0, out_vec[len - 1 - i]);
            if !product_ge(grown, shrunk, reserve_0, reserve_1) {
                return Err(DispatchError::InvariantCheckFailed);
            }
            out_vec.push(amount);
            i -= 1;
        }
        let mut reversed: Vec<AssetBalance> = Vec::new();
        let mut j: usize = out_vec.len();
        while j > 0
            invariant
                j <= out_vec@.len(),
                reversed@.len() == out_vec@.len() - j,
                forall|k: int|
                    0 <= k < reversed@.len() ==> reversed@[k] == out_vec@[out_vec@.len() - 1 - k],
            decreases j,
        {
            j -= 1;
            reversed.push(out_vec[j]);
        }
        proof {
            assert(reversed@ =~= out_vec@.reverse());
        }
        Ok(reversed)
    }

    /// Settles one hop out of a buffered ledger: requires the pair
    /// enabled and the moves covered by the reserves. On an error after
    /// its first move the buffer holds that move; callers commit a buffer
    /// only after the whole operation has passed, keeping each operation
    /// all-or-nothing.
    pub fn pair_swap(
        &self,
        asset_0: AssetId,
        asset_1: AssetId,
        pair_account: AccountId,
        amount_0: AssetBalance,
        amount_1: AssetBalance,
        recipient: AccountId,
        bals: &mut Ledger,
    ) -> (r: Result<(), DispatchError>)
        requires
            self.wf(),
            old(bals).wf(),
        ensures
            final(bals).wf(),
            ({
                let t = pair_swap_tr(
                    self@,
                    old(bals)@,
                    asset_0,
                    asset_1,
                    pair_account,
                    amount_0,
                    amount_1,
                    recipient,
                );
                r == t.0 && final(bals)@ == t.1
            }),
    {
        let pair = pair_key(asset_0, asset_1);
        match self.pair_status(pair) {
            PairStatus::Enable(_) => {},
            _ => {
                return Err(DispatchError::PairNotExists);
            },
        }
        let reserve_0 = bals.balance_of(asset_0, pair_account);
        let reserve_1 = bals.balance_of(asset_1, pair_account);
        if !(amount_0 <= reserve_0 && amount_1 <= reserve_1) {
            return Err(DispatchError::InsufficientPairReserve);
        }
        if amount_0 > 0 {
            if let Err(e) = bals.transfer(asset_0, pair_account, recipient, amount_0) {
                return Err(e);
            }
        }
        if amount_1 > 0 {
            if let Err(e) = bals.transfer(asset_1, pair_account, recipient, amount_1) {
                return Err(e);
            }
        }
        Ok(())
    }

    /// Hop-by-hop settlement of a priced path on a buffered ledger.
    pub(crate) fn swap_hops(
        &self,
        amounts: &Vec<AssetBalance>,
        path: &Vec<AssetId>,
        recipient: AccountId,
        bals: &mut Ledger,
    ) -> (r: Result<(), DispatchError>)
        requires
            self.wf(),
            old(bals).wf(),
            amounts@.len() == path@.len(),
            amounts@.len() >= 1,
        ensures
            final(bals).wf(),
            match swap_loop_tr(self@, amounts@, path@, recipient, old(bals)@, 0) {
                Ok(m) => r == Ok::<(), DispatchError>(()) && final(bals)@ == m,
                Err(e) => r == Err::<(), DispatchError>(e),
            },
    {
        let mut i: usize = 0;
        while i < amounts.len() - 1
            invariant
                self.wf(),
                bals.wf(),
                amounts@.len() == path@.len(),
                amounts@.len() >= 1,
                i <= amounts@.len() - 1,
                swap_loop_tr(self@, amounts@, path@, recipient, old(bals)@, 0) == swap_loop_tr(
                    self@,
                    amounts@,
                    path@,
                    recipient,
                    bals@,
                    i as nat,
                ),
            decreases amounts@.len() - i,
        {
            let input = path[i];
            let output = path[i + 1];
            let (asset_0, asset_1) = Self::sort_asset_id(input, output);
            let mut amount_0_out: AssetBalance = 0;
            let mut amount_1_out: AssetBalance = amounts[i + 1];
            if input != asset_0 {
                amount_0_out = amounts[i + 1];
                amount_1_out = 0;
            }
            let pair_account = Self::pair_account_id(asset_0, asset_1);
            let r = if i < amounts.len() - 2 {
                let mid_account = Self::pair_account_id(output, path[i + 2]);
                self.pair_swap(
                    asset_0,
                    asset_1,
                    pair_account,
                    amount_0_out,
                    amount_1_out,
                    mid_account,
                    bals,
                )
            } else {
                self.pair_swap(
                    asset_0,
                    asset_1,
                    pair_account,
                    amount_0_out,
                    amount_1_out,
                    recipient,
                    bals,
                )
            };
            if let Err(e) = r {
                return Err(e);
            }
            i += 1;
        }
        Ok(())
    }

    /// Settles a priced path: for each hop, routes the output amount from
    /// the hop's settlement account to the next hop's (or the recipient on
    /// the final hop) — all-or-nothing.
    pub fn swap(
        &mut self,
        amounts: &Vec<AssetBalance>,
        path: &Vec<AssetId>,
        recipient: AccountId,
    ) -> (r: Result<(), DispatchError>)
        requires
            old(self).wf(),
            amounts@.len() == path@.len(),
            amounts@.len() >= 1,
        ensures
            final(self).wf(),
            match swap_tr(old(self)@, amounts@, path@, recipient) {
                Ok(m) => r == Ok::<(), DispatchError>(()) && final(self)@ == (State {
                    balances: m,
                    ..old(self)@
                }),
                Err(e) => r == Err::<(), DispatchError>(e) && final(self)@ == old(self)@,
            },
    {
        let mut bals = self.ledger_copy();
        match self.swap_hops(amounts, path, recipient, &mut bals) {
            Ok(()) => {
                self.commit_ledger(bals);
                Ok(())
            },
            Err(e) => Err(e),
        }
    }

    /// Exact-in entry point: prices the path, enforces the caller's
    /// minimum output, pulls the input leg from the caller into the first
    /// settlement account and settles every hop — all-or-nothing.
    pub fn inner_swap_exact_assets_for_assets(
        &mut self,
        who: AccountId,
        amount_in: AssetBalance,
        amount_out_min: AssetBalance,
        path: &Vec<AssetId>,
        recipient: AccountId,
    ) -> (r: Result<(), DispatchError>)
        requires
            old(self).wf(),
        ensures
            final(self).wf(),
            match swap_exact_in_tr(old(self)@, who, amount_in, amount_out_min, path@, recipient) {
                Ok(s2) => r == Ok::<(), DispatchError>(()) && final(self)@ == s2,
                Err(e) => r == Err::<(), DispatchError>(e) && final(self)@ == old(self)@,
            },
    {
        let amounts = match self.get_amount_out_by_path(amount_in, path) {
            Ok(v) => v,
            Err(e) => {
                return Err(e);
            },
        };
        proof {
            lemma_amounts_out_len(self@, path@, seq![amount_in], 0);
        }
        if !(amounts[amounts.len() - 1] >= amount_out_min) {
            return Err(DispatchError::InsufficientTargetAmount);
        }
        let pair_account = Self::pair_account_id(path[0], path[1]);
        let mut bals = self.ledger_copy();
        if let Err(e) = bals.transfer(path[0], who, pair_account, amount_in) {
            return Err(e);
        }
        if let Err(e) = self.swap_hops(&amounts, path, recipient, &mut bals) {
            return Err(e);
        }
        self.commit_ledger(bals);
        Ok(())
    }

    /// Exact-out entry point: prices the path backwards, enforces the
    /// caller's maximum input, pulls the required input leg from the
    /// caller into the first settlement account and settles every hop —
    /// all-or-nothing.
    pub fn inner_swap_assets_for_exact_assets(
        &mut self,
        who: AccountId,
        amount_out: AssetBalance,
        amount_in_max: AssetBalance,
        path: &Vec<AssetId>,
        recipient: AccountId,
    ) -> (r: Result<(), DispatchError>)
        requires
            old(self).wf(),
        ensures
            final(self).wf(),
            match swap_exact_out_tr(old(self)@, who, amount_out, amount_in_max, path@, recipient) {
                Ok(s2) => r == Ok::<(), DispatchError>(()) && final(self)@ == s2,
                Err(e) => r == Err::<(), DispatchError>(e) && final(self)@ == old(self)@,
            },
    {
        let amounts = match self.get_amount_in_by_path(amount_out, path) {
            Ok(v) => v,
            Err(e) => {
                return Err(e);
            },
        };
        proof {
            if path@.len() > 1 {
                lemma_amounts_in_len(self@, path@, seq![amount_out], (path@.len() - 1) as nat);
            }
        }
        if !(amounts[0] <= amount_in_max) {
            return Err(DispatchError::ExcessiveSoldAmount);
        }
        let pair_account = Self::pair_account_id(path[0], path[1]);
        let mut bals = self.ledger_copy();
        if let Err(e) = bals.transfer(path[0], who, pair_account, amounts[0]) {
            return Err(e);
        }
        if let Err(e) = self.swap_hops(&amounts, path, recipient, &mut bals) {
            return Err(e);
        }
        self.commit_ledger(bals);
        Ok(())
    }
}

} // verus!
