//! The constant-product curve with a proportional fee, over integers.
//!
//! A pool holds `reserve_in` of the token that comes in and `reserve_out` of
//! the token that goes out. Of an input, the share `fee_num / fee_den` is
//! kept as the net input `n`, rounded down; the pool then pays
//! `reserve_out * n / (reserve_in + n)`, rounded down, which keeps the
//! product of the reserves from falling.

use vstd::prelude::*;

verus! {

/// What is left of `input` after the fee, rounded down.
pub open spec fn net_input(input: nat, fee_num: nat, fee_den: nat) -> nat {
    if fee_den == 0 {
        0
    } else {
        input * fee_num / fee_den
    }
}

/// What the pool pays for a net input of `net`, rounded down.
pub open spec fn pool_output(reserve_in: nat, reserve_out: nat, net: nat) -> nat {
    if reserve_in + net == 0 {
        0
    } else {
        reserve_out * net / (reserve_in + net)
    }
}

/// What the pool pays for `input` before the fee.
pub open spec fn quote(
    input: nat,
    reserve_in: nat,
    reserve_out: nat,
    fee_num: nat,
    fee_den: nat,
) -> nat {
    pool_output(reserve_in, reserve_out, net_input(input, fee_num, fee_den))
}

/// A quotient is the only `q` with `q * d <= x < (q + 1) * d`.
pub proof fn lemma_div_unique(x: int, d: int, q: int)
    by (nonlinear_arith)
    requires
        d > 0,
        q * d <= x,
        x < (q + 1) * d,
    ensures
        x / d == q,
{
    let r = x - q * d;
    assert(x == q * d + r);
    assert(0 <= r < d);
    vstd::arithmetic::div_mod::lemma_fundamental_div_mod_converse(x, d, q, r);
}

/// The bounds that define a quotient.
pub proof fn lemma_div_bounds(x: int, d: int)
    requires
        d > 0,
    ensures
        (x / d) * d <= x,
        x < (x / d + 1) * d,
{
    vstd::arithmetic::div_mod::lemma_fundamental_div_mod(x, d);
    vstd::arithmetic::div_mod::lemma_mod_bound(x, d);
    assert((x / d + 1) * d == (x / d) * d + d) by (nonlinear_arith);
    assert(d * (x / d) == (x / d) * d) by (nonlinear_arith);
}

/// A fraction with the larger cross product is the larger quotient.
pub proof fn lemma_div_cross_ordered(a: int, b: int, c: int, d: int)
    requires
        0 <= a,
        0 <= c,
        b > 0,
        d > 0,
        a * d <= c * b,
    ensures
        a / b <= c / d,
{
    lemma_div_bounds(a, b);
    lemma_div_bounds(c, d);
    let p = a / b;
    let q = c / d;
    assert(p <= q) by (nonlinear_arith)
        requires
            b > 0,
            d > 0,
            p * b <= a,
            c < (q + 1) * d,
            a * d <= c * b,
            0 <= a,
            0 <= c,
    {
        if p >= q + 1 {
            assert(p * b * d >= (q + 1) * b * d);
            assert(a * d >= p * b * d);
            assert(c * b < (q + 1) * d * b);
        }
    }
}

/// The net input does not fall when the input grows.
pub proof fn lemma_net_input_monotone(s1: nat, s2: nat, fee_num: nat, fee_den: nat)
    requires
        s1 <= s2,
    ensures
        net_input(s1, fee_num, fee_den) <= net_input(s2, fee_num, fee_den),
{
    if fee_den > 0 {
        assert(s1 * fee_num <= s2 * fee_num) by (nonlinear_arith)
            requires
                s1 <= s2,
        ;
        vstd::arithmetic::div_mod::lemma_div_is_ordered(
            (s1 * fee_num) as int,
            (s2 * fee_num) as int,
            fee_den as int,
        );
    }
}

/// What the pool pays does not fall when the net input grows.
pub proof fn lemma_pool_output_monotone(reserve_in: nat, reserve_out: nat, n1: nat, n2: nat)
    requires
        n1 <= n2,
    ensures
        pool_output(reserve_in, reserve_out, n1) <= pool_output(reserve_in, reserve_out, n2),
{
    if reserve_in + n1 == 0 {
    } else {
        let a = (reserve_out * n1) as int;
        let b = (reserve_in + n1) as int;
        let c = (reserve_out * n2) as int;
        let d = (reserve_in + n2) as int;
        assert(a * d <= c * b) by (nonlinear_arith)
            requires
                a == reserve_out * n1,
                b == reserve_in + n1,
                c == reserve_out * n2,
                d == reserve_in + n2,
                n1 <= n2,
        ;
        assert(0 <= a && 0 <= c) by (nonlinear_arith)
            requires
                a == reserve_out * n1,
                c == reserve_out * n2,
        ;
        lemma_div_cross_ordered(a, b, c, d);
    }
}

/// A fee that leaves less of the input never gets the input a larger quote.
pub proof fn lemma_quote_monotone_in_fee(
    input: nat,
    reserve_in: nat,
    reserve_out: nat,
    fee_num_1: nat,
    fee_num_2: nat,
    fee_den: nat,
)
    requires
        fee_num_1 <= fee_num_2,
    ensures
        quote(input, reserve_in, reserve_out, fee_num_1, fee_den) <= quote(
            input,
            reserve_in,
            reserve_out,
            fee_num_2,
            fee_den,
        ),
{
    if fee_den > 0 {
        assert(input * fee_num_1 <= input * fee_num_2) by (nonlinear_arith)
            requires
                fee_num_1 <= fee_num_2,
        ;
        vstd::arithmetic::div_mod::lemma_div_is_ordered(
            (input * fee_num_1) as int,
            (input * fee_num_2) as int,
            fee_den as int,
        );
    }
    lemma_pool_output_monotone(
        reserve_in,
        reserve_out,
        net_input(input, fee_num_1, fee_den),
        net_input(input, fee_num_2, fee_den),
    );
}

/// A larger input never gets a smaller quote, whatever the reserves and the
/// fee.
pub proof fn lemma_quote_monotone(
    s1: nat,
    s2: nat,
    reserve_in: nat,
    reserve_out: nat,
    fee_num: nat,
    fee_den: nat,
)
    requires
        s1 <= s2,
    ensures
        quote(s1, reserve_in, reserve_out, fee_num, fee_den) <= quote(
            s2,
            reserve_in,
            reserve_out,
            fee_num,
            fee_den,
        ),
{
    lemma_net_input_monotone(s1, s2, fee_num, fee_den);
    lemma_pool_output_monotone(
        reserve_in,
        reserve_out,
        net_input(s1, fee_num, fee_den),
        net_input(s2, fee_num, fee_den),
    );
}

/// The pool never pays out more than it holds, and pays nothing for nothing.
pub proof fn lemma_pool_output_bounds(reserve_in: nat, reserve_out: nat, net: nat)
    ensures
        pool_output(reserve_in, reserve_out, net) <= reserve_out,
        net == 0 ==> pool_output(reserve_in, reserve_out, net) == 0,
        reserve_in > 0 && reserve_out > 0 ==> pool_output(reserve_in, reserve_out, net)
            < reserve_out,
{
    if reserve_in + net > 0 {
        let d = (reserve_in + net) as int;
        let x = (reserve_out * net) as int;
        lemma_div_bounds(x, d);
        let q = x / d;
        assert(q <= reserve_out) by (nonlinear_arith)
            requires
                q * d <= x,
                x == reserve_out * net,
                d == reserve_in + net,
                d > 0,
        {
            if q > reserve_out {
                assert(q * d >= (reserve_out + 1) * d);
            }
        }
        if reserve_in > 0 && reserve_out > 0 {
            assert(q < reserve_out) by (nonlinear_arith)
                requires
                    q * d <= x,
                    x == reserve_out * net,
                    d == reserve_in + net,
                    reserve_in > 0,
                    reserve_out > 0,
            {
                if q >= reserve_out {
                    assert(q * d >= reserve_out * d);
                    assert(reserve_out * d == reserve_out * reserve_in + reserve_out * net);
                    assert(reserve_out * reserve_in > 0);
                }
            }
        }
        if net == 0 {
            assert(x == 0) by (nonlinear_arith)
                requires
                    x == reserve_out * net,
                    net == 0,
            ;
        }
    }
}

/// Rounded-up quotients of one number by three divisors, the middle one at
/// least half way, bend upward by at most one.
proof fn lemma_ceil_quotients_convex(
    k: int,
    a: int,
    b: int,
    c: int,
    c0: int,
    c1: int,
    c2: int,
)
    by (nonlinear_arith)
    requires
        0 <= k,
        0 < a <= b,
        b <= c,
        c - b <= b - a,
        c0 * a >= k,
        c2 * c >= k,
        (c1 - 1) * b < k,
    ensures
        2 * c1 <= c0 + c2 + 1,
{
    let m = c1 - 1;
    let d1 = b - a;
    let d2 = c - b;
    if 2 * m >= c0 + c2 {
        assert(c0 >= 0) by {
            if c0 < 0 {
                assert(c0 * a < 0);
            }
        }
        assert(c2 >= 0) by {
            if c2 < 0 {
                assert(c2 * c < 0);
            }
        }
        assert(m * b < c0 * a);
        assert(m * b < c2 * c);
        assert(c0 * a == c0 * b - c0 * d1);
        assert(c2 * c == c2 * b + c2 * d2);
        assert((c0 - m) * b > c0 * d1);
        assert(c0 * d1 >= 0);
        assert(c0 > m) by {
            if c0 <= m {
                assert((c0 - m) * b <= 0);
            }
        }
        assert(m > c2);
        assert((2 * m - c0 - c2) * b == m * b + m * b - c0 * b - c2 * b);
        assert((2 * m - c0 - c2) * b >= 0);
        assert(c2 * d2 > c0 * d1);
        assert(c0 * d1 >= c2 * d1);
        assert(c2 * d1 >= c2 * d2);
    }
}

/// The constant product: a trade never lets the product of the reserves
/// fall, and paying one unit more would. In terms of what the pool keeps of
/// `reserve_out`, this says that it keeps the product of the reserves
/// divided by the new input reserve, rounded up.
pub proof fn lemma_product_kept(reserve_in: nat, reserve_out: nat, net: nat)
    requires
        reserve_in + net > 0,
    ensures
        ({
            let kept = reserve_out - pool_output(reserve_in, reserve_out, net);
            &&& kept * (reserve_in + net) >= reserve_out * reserve_in
            &&& (kept - 1) * (reserve_in + net) < reserve_out * reserve_in
        }),
{
    let d = (reserve_in + net) as int;
    let x = (reserve_out * net) as int;
    let q = x / d;
    lemma_div_bounds(x, d);
    let kept = reserve_out - q;
    assert(kept * d >= reserve_out * reserve_in && (kept - 1) * d < reserve_out * reserve_in)
        by (nonlinear_arith)
        requires
            kept == reserve_out - q,
            q * d <= x,
            x < (q + 1) * d,
            x == reserve_out * net,
            d == reserve_in + net,
    {
        assert(reserve_out * d == reserve_out * reserve_in + reserve_out * net);
        assert(kept * d == reserve_out * d - q * d);
        assert((kept - 1) * d == reserve_out * d - (q + 1) * d);
    }
}

/// Over three net inputs of which the second step is no longer than the
/// first, the second gain exceeds the first by at most one unit: the curve
/// is concave up to the rounding of its two ends.
pub proof fn lemma_pool_output_concave(
    reserve_in: nat,
    reserve_out: nat,
    n0: nat,
    n1: nat,
    n2: nat,
)
    requires
        n0 <= n1 <= n2,
        n2 - n1 <= n1 - n0,
    ensures
        pool_output(reserve_in, reserve_out, n2) - pool_output(reserve_in, reserve_out, n1)
            <= pool_output(reserve_in, reserve_out, n1) - pool_output(reserve_in, reserve_out, n0)
            + 1,
{
    if reserve_in + n0 == 0 {
        lemma_pool_output_bounds(reserve_in, reserve_out, n0);
        lemma_pool_output_bounds(reserve_in, reserve_out, n1);
        lemma_pool_output_bounds(reserve_in, reserve_out, n2);
        if n1 > 0 {
            vstd::arithmetic::div_mod::lemma_div_multiples_vanish(reserve_out as int, n1 as int);
            assert(reserve_out * n1 == n1 * reserve_out) by (nonlinear_arith);
        }
    } else {
        lemma_product_kept(reserve_in, reserve_out, n0);
        lemma_product_kept(reserve_in, reserve_out, n1);
        lemma_product_kept(reserve_in, reserve_out, n2);
        assert(0 <= reserve_out * reserve_in) by (nonlinear_arith);
        lemma_ceil_quotients_convex(
            (reserve_out * reserve_in) as int,
            (reserve_in + n0) as int,
            (reserve_in + n1) as int,
            (reserve_in + n2) as int,
            reserve_out - pool_output(reserve_in, reserve_out, n0),
            reserve_out - pool_output(reserve_in, reserve_out, n1),
            reserve_out - pool_output(reserve_in, reserve_out, n2),
        );
    }
}

/// Whether three quotes taken at evenly spaced inputs bend upward by at most
/// one unit: the second gain may exceed the first by one, no more.
pub open spec fn gains_concave(out_0: nat, out_1: nat, out_2: nat) -> bool {
    out_2 - out_1 <= out_1 - out_0 + 1
}

/// Quotes at three inputs are concave up to one unit wherever the fee
/// rounding leaves the second net step no longer than the first.
pub proof fn lemma_quote_concave(
    s0: nat,
    s1: nat,
    s2: nat,
    reserve_in: nat,
    reserve_out: nat,
    fee_num: nat,
    fee_den: nat,
)
    requires
        s0 <= s1 <= s2,
        net_input(s2, fee_num, fee_den) - net_input(s1, fee_num, fee_den) <= net_input(
            s1,
            fee_num,
            fee_den,
        ) - net_input(s0, fee_num, fee_den),
    ensures
        gains_concave(
            quote(s0, reserve_in, reserve_out, fee_num, fee_den),
            quote(s1, reserve_in, reserve_out, fee_num, fee_den),
            quote(s2, reserve_in, reserve_out, fee_num, fee_den),
        ),
{
    lemma_net_input_monotone(s0, s1, fee_num, fee_den);
    lemma_net_input_monotone(s1, s2, fee_num, fee_den);
    lemma_pool_output_concave(
        reserve_in,
        reserve_out,
        net_input(s0, fee_num, fee_den),
        net_input(s1, fee_num, fee_den),
        net_input(s2, fee_num, fee_den),
    );
}

/// A step whose fee share is whole moves the net input by exactly that
/// share.
pub proof fn lemma_net_input_whole_step(s: nat, step: nat, fee_num: nat, fee_den: nat)
    requires
        fee_den > 0,
        (step * fee_num) % fee_den == 0,
    ensures
        net_input(s + step, fee_num, fee_den) == net_input(s, fee_num, fee_den) + step * fee_num
            / fee_den,
{
    let w = (step * fee_num / fee_den) as int;
    vstd::arithmetic::div_mod::lemma_fundamental_div_mod((step * fee_num) as int, fee_den as int);
    assert((s + step) * fee_num == s * fee_num + step * fee_num) by (nonlinear_arith);
    assert(step * fee_num == w * fee_den) by (nonlinear_arith)
        requires
            step * fee_num == fee_den * w + 0,
    ;
    lemma_div_bounds((s * fee_num) as int, fee_den as int);
    let q = (s * fee_num / fee_den) as int;
    assert((q + w) * fee_den <= (s + step) * fee_num && (s + step) * fee_num < (q + w + 1)
        * fee_den) by (nonlinear_arith)
        requires
            q * fee_den <= s * fee_num,
            s * fee_num < (q + 1) * fee_den,
            (s + step) * fee_num == s * fee_num + step * fee_num,
            step * fee_num == w * fee_den,
    ;
    lemma_div_unique(((s + step) * fee_num) as int, fee_den as int, q + w);
}

/// Quotes at three inputs one `step` apart are concave up to one unit
/// whenever the fee share of the step is whole.
pub proof fn lemma_quote_concave_even_steps(
    s: nat,
    step: nat,
    reserve_in: nat,
    reserve_out: nat,
    fee_num: nat,
    fee_den: nat,
)
    requires
        fee_den > 0,
        (step * fee_num) % fee_den == 0,
    ensures
        gains_concave(
            quote(s, reserve_in, reserve_out, fee_num, fee_den),
            quote(s + step, reserve_in, reserve_out, fee_num, fee_den),
            quote(s + step + step, reserve_in, reserve_out, fee_num, fee_den),
        ),
{
    lemma_net_input_whole_step(s, step, fee_num, fee_den);
    lemma_net_input_whole_step(s + step, step, fee_num, fee_den);
    lemma_quote_concave(s, s + step, s + step + step, reserve_in, reserve_out, fee_num, fee_den);
}

/// The product of two 64-bit integers fits in 128 bits with room to spare.
proof fn lemma_u64_product_fits(a: u64, b: u64)
    by (nonlinear_arith)
    ensures
        0 <= a * b <= 0xffff_ffff_ffff_ffff * 0xffff_ffff_ffff_ffff,
{
}

/// Quotes a swap against a pool with both reserves above zero: the input
/// after the fee share `fee_num / fee_den`, then the constant-product
/// payout, both rounded down.
pub fn swap_output(input: u64, reserve_in: u64, reserve_out: u64, fee_num: u64, fee_den: u64) -> (out:
    u64)
    requires
        reserve_in > 0,
        reserve_out > 0,
        0 < fee_den,
        fee_num <= fee_den,
    ensures
        out == quote(
            input as nat,
            reserve_in as nat,
            reserve_out as nat,
            fee_num as nat,
            fee_den as nat,
        ),
        out < reserve_out,
{
    proof {
        lemma_u64_product_fits(reserve_out, reserve_in);
        lemma_u64_product_fits(input, fee_num);
    }
    let k: u128 = reserve_out as u128 * reserve_in as u128;
    let gross: u128 = input as u128 * fee_num as u128;
    let net: u128 = gross / fee_den as u128;
    proof {
        assert(gross <= input as u128 * fee_den as u128) by (nonlinear_arith)
            requires
                gross == input as u128 * fee_num as u128,
                fee_num <= fee_den,
        ;
        assert(net <= input) by {
            vstd::arithmetic::div_mod::lemma_div_is_ordered(
                gross as int,
                (input as u128 * fee_den as u128) as int,
                fee_den as int,
            );
            vstd::arithmetic::div_mod::lemma_div_multiples_vanish(input as int, fee_den as int);
            assert(input as u128 * fee_den as u128 == fee_den as int * input as int)
                by (nonlinear_arith);
        }
    }
    let new_in: u128 = reserve_in as u128 + net;
    let kept: u128 = (k + new_in - 1) / new_in;
    proof {
        let paid = pool_output(reserve_in as nat, reserve_out as nat, net as nat);
        lemma_product_kept(reserve_in as nat, reserve_out as nat, net as nat);
        lemma_pool_output_bounds(reserve_in as nat, reserve_out as nat, net as nat);
        let c = reserve_out - paid;
        assert(c * new_in <= k + new_in - 1 && k + new_in - 1 < (c + 1) * new_in) by (nonlinear_arith)
            requires
                c * new_in >= k,
                (c - 1) * new_in < k,
                new_in > 0,
        {
            assert(c * new_in == (c - 1) * new_in + new_in);
            assert((c + 1) * new_in == c * new_in + new_in);
        }
        lemma_div_unique((k + new_in - 1) as int, new_in as int, c);
    }
    let out: u128 = (reserve_out as u128).saturating_sub(kept);
    out as u64
}

} // verus!
