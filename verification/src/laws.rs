//! Laws of the pricing and lifecycle machinery, proved from the public
//! specifications: canonicalization is symmetric and idempotent, a swap
//! never lowers the reserve product, exact-in and exact-out pricing are
//! consistent, first-deposit liquidity round-trips, the bootstrap gate is
//! exact, and refunds complete the teardown of an abandoned pair.

use vstd::prelude::*;

use vstd::arithmetic::div_mod::lemma_div_multiples_vanish;
use vstd::arithmetic::div_mod::lemma_fundamental_div_mod;
use vstd::arithmetic::div_mod::lemma_mod_bound;
use vstd::arithmetic::div_mod::lemma_multiply_divide_lt;

use crate::liquidity::add_liquidity_tr;
use crate::liquidity::liquidity_spec;
use crate::liquidity::remove_liquidity_tr;
use crate::liquidity::share_amount_spec;
use crate::bootstrap::end_bootstrap_tr;
use crate::bootstrap::refund_tr;
use crate::math::is_int_sqrt;
use crate::math::isqrt;
use crate::math::lemma_isqrt_exists;
use crate::math::sat256;
use crate::math::sat_mul_spec;
use crate::router::amount_in_spec;
use crate::router::amount_out_spec;
use crate::router::invariant_holds;
use crate::state::State;
use crate::state::personal_of;
use crate::state::status_of;
use crate::types::AssetId;
use crate::types::BlockNumber;
use crate::types::DispatchError;
use crate::types::PairStatus;
use crate::types::lemma_asset_order_total;
use crate::types::pair_of;
use crate::types::sort_spec;

verus! {

/// Sorting a pair is symmetric in its arguments and idempotent: the
/// canonical form does not depend on the order given, and sorting a
/// canonical form returns it unchanged.
pub proof fn lemma_sort_idempotent_symmetric(a: AssetId, b: AssetId)
    ensures
        sort_spec(a, b) == sort_spec(b, a),
        sort_spec(sort_spec(a, b).0, sort_spec(a, b).1) == sort_spec(a, b),
{
    lemma_asset_order_total(a, b);
}

/// The amount bought out of a hop never reaches the output reserve, and
/// its fee-discounted price inequality: `y * (1000*r0 + 997*x) <= 997*x*r1`.
proof fn lemma_out_le(x: int, r0: int, r1: int)
    requires
        0 < x <= u128::MAX,
        0 < r0 <= u128::MAX,
        0 < r1 <= u128::MAX,
    ensures
        ({
            let y = amount_out_spec(x, r0, r1);
            0 <= y < r1 && y * (1000 * r0 + 997 * x) <= 997 * x * r1
        }),
{
    let y = amount_out_spec(x, r0, r1);
    let xf = x * 997;
    let num = sat256(xf * r1);
    let den = r0 * 1000 + xf;
    assert(0 < xf <= 997 * (u128::MAX as int)) by (nonlinear_arith)
        requires
            0 < x <= u128::MAX,
            xf == x * 997,
    ;
    assert(0 < xf * r1) by (nonlinear_arith)
        requires
            0 < xf,
            0 < r1,
    ;
    assert(den == 1000 * r0 + 997 * x);
    assert(sat256(r0 * 1000 + xf) == den);
    if y == 0 {
        assert(0 * (1000 * r0 + 997 * x) <= 997 * x * r1) by (nonlinear_arith)
            requires
                0 < x,
                0 < r0,
                0 < r1,
        ;
    } else {
        let q = num / den;
        assert(y == q && q <= u128::MAX);
        lemma_fundamental_div_mod(num, den);
        lemma_mod_bound(num, den);
        assert(q * den <= num) by (nonlinear_arith)
            requires
                num == den * q + (num % den),
                num % den >= 0,
        ;
        assert(num <= xf * r1);
        assert(y * den <= xf * r1);
        assert(y < r1) by (nonlinear_arith)
            requires
                y * den <= xf * r1,
                den == r0 * 1000 + xf,
                xf == x * 997,
                0 < x,
                0 < r0,
                0 < r1,
                0 < y,
        ;
        assert(y * (1000 * r0 + 997 * x) <= 997 * x * r1) by (nonlinear_arith)
            requires
                y * den <= xf * r1,
                den == r0 * 1000 + xf,
                xf == x * 997,
        ;
    }
}

/// Invariant non-decrease: a single-hop swap of a positive input against
/// nonzero reserves leaves the reserve product no smaller, both as plain
/// integers and as the router's saturating per-hop guard checks it. The
/// grown input reserve is a balance, so it fits the balance width.
pub proof fn lemma_swap_invariant_non_decrease(x: int, r0: int, r1: int)
    requires
        0 < x <= u128::MAX,
        0 < r0 <= u128::MAX,
        0 < r1 <= u128::MAX,
        r0 + x <= u128::MAX,
    ensures
        ({
            let y = amount_out_spec(x, r0, r1);
            0 <= y < r1 && (r0 + x) * (r1 - y) >= r0 * r1 && invariant_holds(r0, r1, x, y)
        }),
{
    let y = amount_out_spec(x, r0, r1);
    lemma_out_le(x, r0, r1);
    assert(y * (r0 + x) <= x * r1) by (nonlinear_arith)
        requires
            y * (1000 * r0 + 997 * x) <= 997 * x * r1,
            0 <= y,
            0 < r0,
            0 < x,
    ;
    assert((r0 + x) * (r1 - y) >= r0 * r1) by (nonlinear_arith)
        requires
            y * (r0 + x) <= x * r1,
            0 <= y,
            0 < r0,
            0 < x,
            0 < r1,
    ;
}

/// Chained hop bound: pricing back any required output no larger than
/// what an exact-in swap of `x` bought asks no more than `x`. The one
/// family of inputs left out is the exact-division boundary, where the
/// output formula loses nothing to rounding and the round trip lands at
/// the original input plus one.
proof fn lemma_in_hop_bound(x: int, v: int, r0: int, r1: int)
    requires
        0 < x <= u128::MAX,
        0 < r0 <= u128::MAX,
        0 < r1 <= u128::MAX,
        0 < v <= amount_out_spec(x, r0, r1),
        amount_out_spec(x, r0, r1) * (1000 * r0 + 997 * x) != 997 * x * r1,
    ensures
        amount_in_spec(v, r0, r1) <= x,
{
    let y = amount_out_spec(x, r0, r1);
    lemma_out_le(x, r0, r1);
    assert(y * (1000 * r0 + 997 * x) < 997 * x * r1);
    assert(1000 * r0 * y < 997 * x * (r1 - y)) by (nonlinear_arith)
        requires
            y * (1000 * r0 + 997 * x) < 997 * x * r1,
    ;
    let num = sat256(r0 * v * 1000);
    let den = (r1 - v) * 997;
    assert(den > 0) by (nonlinear_arith)
        requires
            v < r1,
            den == (r1 - v) * 997,
    ;
    assert(num <= r0 * v * 1000);
    assert(num < den * x) by (nonlinear_arith)
        requires
            num <= r0 * v * 1000,
            0 < v <= y,
            y < r1,
            1000 * r0 * y < 997 * x * (r1 - y),
            den == (r1 - v) * 997,
            0 < x,
            0 < r0,
    ;
    lemma_multiply_divide_lt(num, den, x);
    let q = num / den;
    assert(q < x);
    assert(amount_in_spec(v, r0, r1) <= x);
}

/// Exact-in/exact-out consistency at one hop: pricing back the output of
/// an exact-in swap asks no more than the original input, outside the
/// exact-division boundary.
pub proof fn lemma_exact_in_out_consistency(x: int, r0: int, r1: int)
    requires
        0 < x <= u128::MAX,
        0 < r0 <= u128::MAX,
        0 < r1 <= u128::MAX,
        amount_out_spec(x, r0, r1) * (1000 * r0 + 997 * x) != 997 * x * r1,
    ensures
        amount_in_spec(amount_out_spec(x, r0, r1), r0, r1) <= x,
{
    let y = amount_out_spec(x, r0, r1);
    if y == 0 {
    } else {
        lemma_in_hop_bound(x, y, r0, r1);
    }
}

/// The exact-division boundary at hop `j` of a priced exact-in walk: the
/// hop's output times its divisor meets the fee-discounted product
/// exactly, so the output formula lost nothing to rounding there.
pub open spec fn out_hop_exact_division(
    s: State,
    path: Seq<AssetId>,
    v: Seq<crate::types::AssetBalance>,
    j: int,
) -> bool {
    let account = crate::registry::pair_account_spec(path[j], path[j + 1]);
    let reserve_0 = crate::state::bal_of(s.balances, path[j], account);
    let reserve_1 = crate::state::bal_of(s.balances, path[j + 1], account);
    v[j + 1] * (1000 * reserve_0 + 997 * v[j]) == 997 * v[j] * reserve_1
}

/// Walking the exact-out pricing back over a priced exact-in walk keeps
/// every per-hop amount bounded by the exact-in amount at that hop.
proof fn lemma_in_walk_bounded(
    s: State,
    path: Seq<AssetId>,
    vec: Seq<crate::types::AssetBalance>,
    i: nat,
    outs: Seq<crate::types::AssetBalance>,
)
    requires
        path.len() >= 2,
        outs.len() == path.len(),
        outs[0] > 0,
        forall|j: int| 0 <= j < path.len() - 1 ==> crate::router::out_hop_ok(s, path, outs, j),
        forall|j: int| 0 <= j < path.len() - 1 ==> !out_hop_exact_division(s, path, outs, j),
        i + 1 <= path.len(),
        vec.len() + i == path.len(),
        forall|k: int| 0 <= k < vec.len() ==> 0 < #[trigger] vec[k] <= outs[path.len() - 1 - k],
    ensures
        match crate::router::amounts_in_loop(s, path, vec, i) {
            Ok(ins) => ins.len() == path.len() && forall|j: int|
                0 <= j < path.len() ==> ins[j] <= outs[j],
            Err(_) => true,
        },
    decreases i,
{
    assert forall|m: int| 0 <= m < path.len() implies outs[m] > 0 by {
        if m > 0 {
            assert(crate::router::out_hop_ok(s, path, outs, m - 1));
        }
    }
    if i == 0 {
        let ins = vec.reverse();
        assert forall|j: int| 0 <= j < path.len() implies ins[j] <= outs[j] by {
            assert(ins[j] == vec[path.len() - 1 - j]);
        }
    } else {
        let account = crate::registry::pair_account_spec(path[i as int], path[i as int - 1]);
        let reserve_0 = crate::state::bal_of(s.balances, path[i as int], account);
        let reserve_1 = crate::state::bal_of(s.balances, path[i as int - 1], account);
        crate::registry::lemma_pair_account_symmetric(path[i as int], path[i as int - 1]);
        assert(crate::router::out_hop_ok(s, path, outs, i as int - 1));
        assert(!out_hop_exact_division(s, path, outs, i as int - 1));
        if reserve_1 > 0 && reserve_0 > 0 {
            let out_here = vec[path.len() - 1 - i as int] as int;
            let amount = amount_in_spec(out_here, reserve_1 as int, reserve_0 as int);
            assert(0 < out_here <= outs[i as int]);
            assert(outs[i as int] == amount_out_spec(
                outs[i as int - 1] as int,
                reserve_1 as int,
                reserve_0 as int,
            ));
            lemma_in_hop_bound(
                outs[i as int - 1] as int,
                out_here,
                reserve_1 as int,
                reserve_0 as int,
            );
            assert(amount <= outs[i as int - 1]);
            if amount > 1 {
                if invariant_holds(reserve_1 as int, reserve_0 as int, amount, out_here) {
                    let pushed = vec.push(amount as crate::types::AssetBalance);
                    assert forall|k: int| 0 <= k < pushed.len() implies 0 < #[trigger] pushed[k]
                        <= outs[path.len() - 1 - k] by {
                        if k < vec.len() {
                            assert(pushed[k] == vec[k]);
                        } else {
                            assert(pushed[k] == amount as crate::types::AssetBalance);
                        }
                    }
                    lemma_in_walk_bounded(s, path, pushed, (i - 1) as nat, outs);
                }
            }
        }
    }
}

/// Exact-in/exact-out consistency along a whole path: pricing the output
/// of a successful exact-in walk back through the exact-out walk asks no
/// more than the original input at the first hop, nor at any other. The
/// inputs left out are those meeting the exact-division boundary at some
/// hop.
pub proof fn lemma_exact_in_out_consistency_by_path(
    s: State,
    x: crate::types::AssetBalance,
    path: Seq<AssetId>,
)
    requires
        x > 0,
        match crate::router::amounts_out_spec(s, x, path) {
            Ok(outs) => forall|j: int|
                0 <= j < path.len() - 1 ==> !out_hop_exact_division(s, path, outs, j),
            Err(_) => false,
        },
    ensures
        match crate::router::amounts_out_spec(s, x, path) {
            Ok(outs) => match crate::router::amounts_in_spec(s, outs.last(), path) {
                Ok(ins) => ins.len() == path.len() && ins[0] <= x && (forall|j: int|
                    0 <= j < path.len() ==> ins[j] <= outs[j]),
                Err(_) => true,
            },
            Err(_) => true,
        },
{
    match crate::router::amounts_out_spec(s, x, path) {
        Ok(outs) => {
            crate::router::lemma_amounts_out_characterize(s, path, seq![x], 0);
            assert(outs[0] == x) by {
                assert(outs.take(1int)[0] == seq![x][0]);
            }
            assert(crate::router::out_hop_ok(s, path, outs, path.len() - 2));
            assert(outs[path.len() - 1] > 0);
            match crate::router::amounts_in_spec(s, outs.last(), path) {
                Ok(ins) => {
                    lemma_in_walk_bounded(
                        s,
                        path,
                        seq![outs.last()],
                        (path.len() - 1) as nat,
                        outs,
                    );
                },
                Err(_) => {},
            }
        },
        Err(_) => {},
    }
}

/// No burn pays out more than its share: removing `l` of `total`
/// outstanding LP shares returns at most the reserve itself, so a
/// round-trip through a larger, fee-diluted supply can only return less.
pub proof fn lemma_share_no_more_than_reserve(l: int, total: int, reserve: int)
    requires
        0 < l <= total,
        0 <= reserve <= u128::MAX,
    ensures
        share_amount_spec(l, total, reserve) <= reserve,
{
    let q = (l * reserve) / total;
    assert(l * reserve <= total * reserve) by (nonlinear_arith)
        requires
            0 < l <= total,
            0 <= reserve,
    ;
    lemma_fundamental_div_mod(l * reserve, total);
    lemma_mod_bound(l * reserve, total);
    assert(q * total <= l * reserve) by (nonlinear_arith)
        requires
            l * reserve == total * q + ((l * reserve) % total),
            (l * reserve) % total >= 0,
    ;
    assert(q <= reserve) by (nonlinear_arith)
        requires
            q * total <= total * reserve,
            0 < total,
    ;
}

/// Liquidity round-trip on empty reserves: the first deposit mints the
/// floor square root of the (saturated) amount product, and immediately
/// burning all of it returns exactly the deposited amounts.
pub proof fn lemma_liquidity_round_trip(amount_0: int, amount_1: int)
    requires
        0 < amount_0 <= u128::MAX,
        0 < amount_1 <= u128::MAX,
    ensures
        ({
            let l = liquidity_spec(amount_0, amount_1, 0, 0, 0);
            &&& is_int_sqrt(sat_mul_spec(amount_0, amount_1), l)
            &&& l > 0
            &&& share_amount_spec(l, l, amount_0) == amount_0
            &&& share_amount_spec(l, l, amount_1) == amount_1
        }),
{
    let p = sat_mul_spec(amount_0, amount_1);
    assert(p >= 1) by (nonlinear_arith)
        requires
            amount_0 >= 1,
            amount_1 >= 1,
            p == sat_mul_spec(amount_0, amount_1),
            sat_mul_spec(amount_0, amount_1) == if amount_0 * amount_1 > u128::MAX {
                u128::MAX as int
            } else {
                amount_0 * amount_1
            },
    ;
    lemma_isqrt_exists(p);
    let l = isqrt(p);
    assert(l >= 1);
    lemma_div_multiples_vanish(amount_0, l);
    lemma_div_multiples_vanish(amount_1, l);
}

/// Liquidity round-trip at the operation level: on a freshly enabled pair
/// (no supply, no reserves, no watermark, no fee recipient), adding the
/// desired amounts succeeds, mints exactly the floor square root of their
/// product, and escrows them; immediately removing all of that liquidity
/// succeeds and returns the caller's balances in both assets and in LP
/// shares to what they were. Left out are inputs the item cannot mean: a
/// degenerate pair, a trading asset colliding with the pair's LP asset,
/// and an LP balance the mint would overflow.
pub proof fn lemma_liquidity_round_trip_ops(
    s: State,
    who: crate::types::AccountId,
    asset_0: AssetId,
    asset_1: AssetId,
    amount_0: crate::types::AssetBalance,
    amount_1: crate::types::AssetBalance,
)
    requires
        s.fee_to is None,
        asset_0 != asset_1,
        status_of(s, pair_of(asset_0, asset_1)) matches PairStatus::Enable(meta)
            && meta.total_supply == 0
            && crate::state::bal_of(s.balances, asset_0, meta.pair_account) == 0
            && crate::state::bal_of(s.balances, asset_1, meta.pair_account) == 0,
        crate::state::k_last_of(s, pair_of(asset_0, asset_1)) == 0,
        s.lp_pairs.contains_key(pair_of(asset_0, asset_1)),
        s.lp_pairs[pair_of(asset_0, asset_1)] != asset_0,
        s.lp_pairs[pair_of(asset_0, asset_1)] != asset_1,
        amount_0 > 0,
        amount_1 > 0,
        crate::state::bal_of(s.balances, asset_0, who) >= amount_0,
        crate::state::bal_of(s.balances, asset_1, who) >= amount_1,
        crate::state::bal_of(s.balances, s.lp_pairs[pair_of(asset_0, asset_1)], who) + isqrt(
            sat_mul_spec(amount_0 as int, amount_1 as int),
        ) <= u128::MAX,
    ensures
        ({
            let pair = pair_of(asset_0, asset_1);
            let lp = s.lp_pairs[pair];
            let minted = isqrt(sat_mul_spec(amount_0 as int, amount_1 as int));
            match add_liquidity_tr(s, who, asset_0, asset_1, amount_0, amount_1, 0, 0) {
                Ok(s2) => {
                    &&& minted > 0
                    &&& is_int_sqrt(sat_mul_spec(amount_0 as int, amount_1 as int), minted)
                    &&& status_of(s2, pair) matches PairStatus::Enable(m2) && m2.total_supply
                        == minted
                    &&& crate::state::bal_of(s2.balances, lp, who) == crate::state::bal_of(
                        s.balances,
                        lp,
                        who,
                    ) + minted
                    &&& match remove_liquidity_tr(
                        s2,
                        who,
                        asset_0,
                        asset_1,
                        minted as crate::types::AssetBalance,
                        0,
                        0,
                        who,
                    ) {
                        Ok(s3) => {
                            &&& crate::state::bal_of(s3.balances, asset_0, who)
                                == crate::state::bal_of(s.balances, asset_0, who)
                            &&& crate::state::bal_of(s3.balances, asset_1, who)
                                == crate::state::bal_of(s.balances, asset_1, who)
                            &&& crate::state::bal_of(s3.balances, lp, who) == crate::state::bal_of(
                                s.balances,
                                lp,
                                who,
                            )
                            &&& status_of(s3, pair) matches PairStatus::Enable(m3)
                                && m3.total_supply == 0
                        },
                        Err(_) => false,
                    }
                },
                Err(_) => false,
            }
        }),
{
    let pair = pair_of(asset_0, asset_1);
    let lp = s.lp_pairs[pair];
    let meta = match status_of(s, pair) {
        PairStatus::Enable(m) => m,
        _ => arbitrary(),
    };
    let account = meta.pair_account;
    let p = sat_mul_spec(amount_0 as int, amount_1 as int);
    assert(p >= 1) by (nonlinear_arith)
        requires
            amount_0 >= 1,
            amount_1 >= 1,
            p == if amount_0 as int * amount_1 as int > u128::MAX {
                u128::MAX as int
            } else {
                amount_0 as int * amount_1 as int
            },
    ;
    lemma_isqrt_exists(p);
    let minted = isqrt(p);
    assert(minted >= 1) by (nonlinear_arith)
        requires
            minted >= 0,
            p < (minted + 1) * (minted + 1),
            p >= 1,
    ;
    assert(minted <= u128::MAX) by (nonlinear_arith)
        requires
            minted >= 1,
            minted * minted <= p,
            p <= u128::MAX,
    ;
    // The caller and the settlement account differ: the account holds
    // nothing of asset 0, the caller holds a positive amount.
    assert(who != account);
    // The first deposit mints the geometric mean: no watermark, no fee.
    assert(liquidity_spec(amount_0 as int, amount_1 as int, 0, 0, 0) == minted);
    match add_liquidity_tr(s, who, asset_0, asset_1, amount_0, amount_1, 0, 0) {
        Ok(s2) => {
            lemma_div_multiples_vanish(amount_0 as int, minted);
            lemma_div_multiples_vanish(amount_1 as int, minted);
            assert(share_amount_spec(minted, minted, amount_0 as int) == amount_0);
            assert(share_amount_spec(minted, minted, amount_1 as int) == amount_1);
            match remove_liquidity_tr(
                s2,
                who,
                asset_0,
                asset_1,
                minted as crate::types::AssetBalance,
                0,
                0,
                who,
            ) {
                Ok(s3) => {},
                Err(_) => {
                    assert(false);
                },
            }
        },
        Err(_) => {
            assert(false);
        },
    }
}

/// Bootstrap threshold gate: settlement fails with `UnqualifiedBootstrap`
/// exactly when the pair is bootstrapping and the deadline or either
/// accumulated target is not yet met; and whenever settlement succeeds,
/// the pair has transitioned to trading.
pub proof fn lemma_bootstrap_threshold_gate(
    s: State,
    asset_0: AssetId,
    asset_1: AssetId,
    now: BlockNumber,
)
    ensures
        (end_bootstrap_tr(s, asset_0, asset_1, now) == Err::<State, DispatchError>(
            DispatchError::UnqualifiedBootstrap,
        )) <==> (match status_of(s, pair_of(asset_0, asset_1)) {
            PairStatus::Bootstrap(params) => !(now >= params.end_block_number
                && params.accumulated_supply.0 >= params.target_supply.0
                && params.accumulated_supply.1 >= params.target_supply.1),
            _ => false,
        }),
        match end_bootstrap_tr(s, asset_0, asset_1, now) {
            Ok(s2) => status_of(s2, pair_of(asset_0, asset_1)) is Enable,
            Err(_) => true,
        },
{
}

/// Refund completeness: a successful refund clears the contributor's
/// single-use record, and the refund that clears the pair's last
/// contribution record deletes the abandoned pair's registry entry.
pub proof fn lemma_refund_completeness(
    s: State,
    who: crate::types::AccountId,
    asset_0: AssetId,
    asset_1: AssetId,
)
    ensures
        match refund_tr(s, who, asset_0, asset_1) {
            Ok(s2) => personal_of(s2, pair_of(asset_0, asset_1), who) is None && ((forall|w:
                crate::types::AccountId|
                !s2.personal.contains_key(
                    crate::state::PersonalKey { pair: pair_of(asset_0, asset_1), who: w },
                )) ==> !s2.statuses.contains_key(pair_of(asset_0, asset_1))),
            Err(_) => true,
        },
{
}

} // verus!
