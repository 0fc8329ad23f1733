use vstd::prelude::*;
use vstd::arithmetic::div_mod::{lemma_remainder_lower, lemma_remainder_upper};

verus! {

/// Total swap fee taken from an input of `amount`, floored.
pub open spec fn fee_amount(amount: int, nom: int, den: int) -> int {
    amount * nom / den
}

/// Constant-product output for a net input of `net` swapped against the
/// reserves `reserve_in` and `reserve_out`, floored.
pub open spec fn swap_output(reserve_in: int, reserve_out: int, net: int) -> int {
    net * reserve_out / (reserve_in + net)
}

/// Division rounded toward positive infinity, for a positive divisor.
pub open spec fn div_ceil(a: int, b: int) -> int {
    (a + b - 1) / b
}

/// Cost per side of minting `shares` new shares against a pool holding
/// `reserve` of the side and `total` outstanding shares, rounded up so
/// rounding never dilutes the pool.
pub open spec fn invest_cost(shares: int, reserve: int, total: int) -> int {
    div_ceil(shares * reserve, total)
}

/// Payout per side of burning `shares` shares, rounded down so rounding
/// never overdraws the pool.
pub open spec fn divest_cost(shares: int, reserve: int, total: int) -> int {
    shares * reserve / total
}

/// Floor division of a nonnegative value by a positive divisor lands in
/// `[0, a/b*b <= a < a/b*b + b)`.
pub proof fn lemma_div_bounds(a: int, b: int)
    requires
        a >= 0,
        b > 0,
    ensures
        0 <= a / b,
        (a / b) * b <= a,
        a < (a / b) * b + b,
{
    lemma_remainder_lower(a, b);
    lemma_remainder_upper(a, b);
    assert(a / b >= 0) by (nonlinear_arith)
        requires
            a >= 0,
            b > 0,
            (a / b) * b <= a,
            a < (a / b) * b + b,
    ;
}

/// The floored fee never exceeds the amount it is charged on, as long as
/// the fee rate is at most one.
pub proof fn lemma_fee_le_amount(amount: int, nom: int, den: int)
    requires
        amount >= 0,
        0 <= nom <= den,
        den > 0,
    ensures
        0 <= fee_amount(amount, nom, den) <= amount,
{
    assert(amount * nom >= 0) by (nonlinear_arith)
        requires
            amount >= 0,
            nom >= 0,
    ;
    lemma_div_bounds(amount * nom, den);
    let f = fee_amount(amount, nom, den);
    assert(f <= amount) by (nonlinear_arith)
        requires
            f * den <= amount * nom,
            f < amount + 1 || f * den <= amount * nom,
            nom <= den,
            den > 0,
            amount >= 0,
            f >= 0,
    ;
}

/// The constant-product output is nonnegative and strictly smaller than
/// the output-side reserve, so a swap can never drain the pool.
pub proof fn lemma_swap_output_bounds(reserve_in: int, reserve_out: int, net: int)
    requires
        reserve_in >= 1,
        reserve_out >= 1,
        net >= 0,
    ensures
        0 <= swap_output(reserve_in, reserve_out, net) < reserve_out,
{
    assert(net * reserve_out >= 0) by (nonlinear_arith)
        requires
            net >= 0,
            reserve_out >= 0,
    ;
    lemma_div_bounds(net * reserve_out, reserve_in + net);
    let q = swap_output(reserve_in, reserve_out, net);
    assert(q < reserve_out) by (nonlinear_arith)
        requires
            q * (reserve_in + net) <= net * reserve_out,
            q >= 0,
            reserve_in >= 1,
            reserve_out >= 1,
            net >= 0,
    ;
}

/// Invariant monotonicity of a swap: after the net input joins the
/// input-side reserve (plus any nonnegative pool fee `pool_fee`) and the
/// floored output leaves the other side, the product of the reserves has
/// not decreased.
pub proof fn lemma_invariant_monotone(reserve_in: int, reserve_out: int, net: int, pool_fee: int)
    requires
        reserve_in >= 1,
        reserve_out >= 1,
        net >= 0,
        pool_fee >= 0,
    ensures
        (reserve_in + net + pool_fee) * (reserve_out - swap_output(reserve_in, reserve_out, net))
            >= reserve_in * reserve_out,
{
    let q = swap_output(reserve_in, reserve_out, net);
    lemma_swap_output_bounds(reserve_in, reserve_out, net);
    assert(net * reserve_out >= 0) by (nonlinear_arith)
        requires
            net >= 0,
            reserve_out >= 0,
    ;
    lemma_div_bounds(net * reserve_out, reserve_in + net);
    assert((reserve_in + net + pool_fee) * (reserve_out - q) >= reserve_in * reserve_out)
        by (nonlinear_arith)
        requires
            q * (reserve_in + net) <= net * reserve_out,
            0 <= q < reserve_out,
            reserve_in >= 1,
            reserve_out >= 1,
            net >= 0,
            pool_fee >= 0,
    ;
}

/// Ceiling division of a nonnegative value by a positive divisor covers
/// the dividend and is positive whenever the dividend is.
pub proof fn lemma_ceil_bounds(a: int, b: int)
    requires
        a >= 0,
        b > 0,
    ensures
        div_ceil(a, b) * b >= a,
        div_ceil(a, b) >= 0,
        a > 0 ==> div_ceil(a, b) >= 1,
        a == 0 ==> div_ceil(a, b) == 0,
{
    lemma_div_bounds(a + b - 1, b);
    let c = div_ceil(a, b);
    assert(c * b >= a && c >= 0 && (a > 0 ==> c >= 1) && (a == 0 ==> c == 0)) by (nonlinear_arith)
        requires
            c * b <= a + b - 1,
            a + b - 1 < c * b + b,
            c >= 0,
            a >= 0,
            b > 0,
    ;
}

/// The rounded-up cost of minting shares into a live pool is positive.
pub proof fn lemma_invest_cost_positive(shares: int, reserve: int, total: int)
    requires
        shares >= 1,
        reserve >= 1,
        total >= 1,
    ensures
        invest_cost(shares, reserve, total) >= 1,
{
    assert(shares * reserve >= 1) by (nonlinear_arith)
        requires
            shares >= 1,
            reserve >= 1,
    ;
    lemma_ceil_bounds(shares * reserve, total);
}

/// The rounded-down payout for burning shares never exceeds the reserve;
/// burning every outstanding share pays out the reserve exactly, and
/// burning fewer leaves a positive reserve behind.
pub proof fn lemma_divest_cost_bounds(shares: int, reserve: int, total: int)
    requires
        0 <= shares <= total,
        total >= 1,
        reserve >= 0,
    ensures
        0 <= divest_cost(shares, reserve, total) <= reserve,
        shares == total ==> divest_cost(shares, reserve, total) == reserve,
        shares < total && reserve >= 1 ==> divest_cost(shares, reserve, total) < reserve,
{
    assert(shares * reserve >= 0) by (nonlinear_arith)
        requires
            shares >= 0,
            reserve >= 0,
    ;
    lemma_div_bounds(shares * reserve, total);
    let d = divest_cost(shares, reserve, total);
    assert(d <= reserve && (shares == total ==> d == reserve) && (shares < total && reserve >= 1
        ==> d < reserve)) by (nonlinear_arith)
        requires
            d * total <= shares * reserve,
            shares * reserve < d * total + total,
            d >= 0,
            0 <= shares <= total,
            total >= 1,
            reserve >= 0,
    ;
}

/// Round-trip conservation: the rounded-down payout for burning `shares`
/// right after investing them never exceeds the rounded-up cost that was
/// just paid in, so an invest immediately undone can only favor the pool.
pub proof fn lemma_divest_le_invest(shares: int, reserve: int, total: int)
    requires
        shares >= 1,
        reserve >= 0,
        total >= 1,
    ensures
        divest_cost(shares, reserve + invest_cost(shares, reserve, total), total + shares)
            <= invest_cost(shares, reserve, total),
{
    let c = invest_cost(shares, reserve, total);
    let d = divest_cost(shares, reserve + c, total + shares);
    assert(shares * reserve >= 0) by (nonlinear_arith)
        requires
            shares >= 0,
            reserve >= 0,
    ;
    lemma_ceil_bounds(shares * reserve, total);
    assert(shares * (reserve + c) >= 0) by (nonlinear_arith)
        requires
            shares >= 0,
            reserve >= 0,
            c >= 0,
    ;
    lemma_div_bounds(shares * (reserve + c), total + shares);
    assert(d <= c) by (nonlinear_arith)
        requires
            c * total >= shares * reserve,
            d * (total + shares) <= shares * (reserve + c),
            shares * (reserve + c) < d * (total + shares) + (total + shares),
            c >= 0,
            d >= 0,
            shares >= 1,
            total >= 1,
    ;
}

} // verus!
