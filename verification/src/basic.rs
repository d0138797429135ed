//! Integer square root by Newton's method. A single-threaded routine,
//! independent of the matrix engine.
use vstd::arithmetic::div_mod::{lemma_div_pos_is_pos, lemma_fundamental_div_mod, lemma_mod_bound};
use vstd::prelude::*;

verus! {

/// `cur` is at least the integer square root of `num`.
spec fn above_root(cur: u64, num: u64) -> bool {
    num < (cur + 1) * (cur + 1)
}

/// One Newton step keeps the iterate at or above the integer square root:
/// for `1 <= cur` with `num < (cur + 1)^2`, also
/// `num < ((cur + num / cur) / 2 + 1)^2`.
proof fn lemma_newton_step_above_root(cur: u64, num: u64)
    requires
        1 <= cur,
        2 <= num,
        above_root(cur, num),
    ensures
        above_root(((cur + num / cur) / 2) as u64, num),
{
    let c = cur as int;
    let n = num as int;
    let q = n / c;
    let s = (c + q) / 2;
    lemma_fundamental_div_mod(n, c);
    lemma_div_pos_is_pos(n, c);
    assert(q * c <= n) by (nonlinear_arith)
        requires
            n == q * c + n % c,
            0 <= n % c,
    ;
    assert(n < q * c + c);
    lemma_fundamental_div_mod(c + q, 2);
    assert(2 * s <= c + q <= 2 * s + 1);
    // (c + q)^2 >= 4*q*c, since (c - q)^2 >= 0.
    assert((c + q) * (c + q) >= 4 * (q * c)) by (nonlinear_arith);
    // Hence (2s + 2)^2 > (c + q)^2 >= 4*q*c > 4*(n - c), and adding the
    // cross terms recovers 4n < (2s + 2)^2 = 4(s + 1)^2.
    assert(n < (s + 1) * (s + 1)) by (nonlinear_arith)
        requires
            2 * s <= c + q <= 2 * s + 1,
            (c + q) * (c + q) >= 4 * (q * c),
            n < q * c + c,
            n < (c + 1) * (c + 1),
            1 <= c,
            0 <= q,
            2 <= n,
    ;
}

/// The next Newton iterate does not overflow: for an iterate at or above the
/// root with `1 <= cur <= num / 2`, the sum `cur + num / cur` stays within
/// `num` (within `4`, for `num` up to `3`).
proof fn lemma_newton_step_bounded(cur: u64, num: u64)
    requires
        2 <= num,
        1 <= cur,
        cur <= num / 2,
        above_root(cur, num),
    ensures
        num <= 3 ==> cur + num / cur <= 4,
        num >= 4 ==> cur + num / cur <= num,
{
    let c = cur as int;
    let n = num as int;
    let q = n / c;
    lemma_fundamental_div_mod(n, c);
    lemma_div_pos_is_pos(n, c);
    lemma_fundamental_div_mod(n, 2);
    assert(q * c <= n) by (nonlinear_arith)
        requires
            n == q * c + n % c,
            0 <= n % c,
    ;
    if n <= 3 {
        assert(c == 1);
        lemma_fundamental_div_mod(n, 1);
        assert(q == n);
    } else {
        if c == 1 {
            // `num < (1 + 1)^2 = 4` contradicts `num >= 4`.
            assert((c + 1) * (c + 1) == 4) by (nonlinear_arith)
                requires
                    c == 1,
            ;
            assert(false);
        }
        if q >= 1 {
            // (q - 1)(c - 1) >= 0 gives q + c <= q*c + 1 <= n + 1; equality
            // would force q == 1 and c == n, impossible for c <= n / 2.
            assert(c + q <= q * c + 1) by (nonlinear_arith)
                requires
                    1 <= q,
                    2 <= c,
            ;
            if c + q == n + 1 {
                assert(q * c == n);
                assert((q - 1) * (c - 1) == 0) by (nonlinear_arith)
                    requires
                        c + q == q * c + 1,
                ;
                assert(q == 1) by (nonlinear_arith)
                    requires
                        (q - 1) * (c - 1) == 0,
                        2 <= c,
                ;
                assert(c == n);
                assert(2 * c <= n);
                assert(false);
            }
        }
    }
}

/// The integer square root of `num` by Newton's method: the unique `r` with
/// `r^2 <= num < (r + 1)^2`, paired with whether `num` is a perfect square.
pub fn integer_sqrt(num: u64) -> (r: (u64, bool))
    ensures
        r.0 * r.0 <= num < (r.0 + 1) * (r.0 + 1),
        r.1 <==> r.0 * r.0 == num,
{
    if num < 2 {
        proof {
            assert(num * num == num && num < (num + 1) * (num + 1)) by (nonlinear_arith)
                requires
                    num == 0 || num == 1,
            ;
        }
        return (num, true);
    }
    let mut cur: u64 = num / 2;
    proof {
        lemma_fundamental_div_mod(num as int, 2);
        assert(1 <= cur);
        assert(above_root(cur, num)) by (nonlinear_arith)
            requires
                2 <= num,
                1 <= cur,
                2 * cur <= num <= 2 * cur + 1,
        ;
        lemma_newton_step_bounded(cur, num);
    }
    let mut next: u64 = (cur + num / cur) / 2;
    while next < cur
        invariant
            2 <= num,
            1 <= cur,
            cur <= num / 2,
            above_root(cur, num),
            next == (cur + num / cur) / 2,
        decreases cur,
    {
        proof {
            lemma_newton_step_above_root(cur, num);
            lemma_fundamental_div_mod((cur + num / cur) as int, 2);
            lemma_fundamental_div_mod(num as int, cur as int);
            lemma_fundamental_div_mod(num as int, 2);
            lemma_div_pos_is_pos(num as int, cur as int);
            if num / cur == 0 {
                // Then `num < cur <= num / 2`, impossible.
                assert((cur as int) * ((num as int) / (cur as int)) == 0) by (nonlinear_arith)
                    requires
                        (num as int) / (cur as int) == 0,
                ;
                lemma_mod_bound(num as int, cur as int);
                assert(num < cur);
                assert(false);
            }
            lemma_mod_bound((cur + num / cur) as int, 2);
            assert(1 <= next);
        }
        cur = next;
        proof {
            lemma_newton_step_bounded(cur, num);
        }
        next = (cur + num / cur) / 2;
    }
    proof {
        // On exit `(cur + num / cur) / 2 >= cur`, so `num / cur >= cur`, so
        // `cur * cur <= num`.
        let c = cur as int;
        let n = num as int;
        lemma_fundamental_div_mod(c + n / c, 2);
        assert(n / c >= c);
        lemma_fundamental_div_mod(n, c);
        assert(c * c <= n) by (nonlinear_arith)
            requires
                n == (n / c) * c + n % c,
                0 <= n % c,
                n / c >= c,
                1 <= c,
        ;
        // `cur * cur <= num < 2^64` keeps the final square inside `u64`.
        assert(c <= 0xFFFF_FFFF) by (nonlinear_arith)
            requires
                c * c <= n,
                n <= 0xFFFF_FFFF_FFFF_FFFF,
                0 <= c,
        ;
        assert(c * c <= 0xFFFF_FFFF * 0xFFFF_FFFF) by (nonlinear_arith)
            requires
                0 <= c <= 0xFFFF_FFFF,
        ;
    }
    let proot = cur * cur == num;
    (cur, proot)
}

} // verus!
