//! Rounding to IEEE 754 single precision.  A positive value is kept as a
//! 24-bit significand `m` and an exponent `k`, standing for `m / 2^k`; a
//! ratio `p / q` of naturals rounds to the nearest such value, ties to an
//! even significand, as `as f32` and every `f32` operation round.
use vstd::prelude::*;
use vstd::arithmetic::power2::{
    lemma2_to64, lemma2_to64_rest, lemma_pow2_adds, lemma_pow2_pos, lemma_pow2_strictly_increases,
    lemma_pow2_unfold, pow2,
};

verus! {

/// Doubles `p`, counting `k` up, until `p / q` reaches `2^23`.
pub open spec fn grow(p: nat, q: nat, k: int) -> (nat, nat, int)
    decreases (if p < 8388608 * q { 8388608 * q - p } else { 0 }),
{
    if p == 0 || p >= 8388608 * q {
        (p, q, k)
    } else {
        grow(2 * p, q, k + 1)
    }
}

/// Doubles `q`, counting `k` down, until `p / q` is below `2^24`.
pub open spec fn shrink(p: nat, q: nat, k: int) -> (nat, nat, int)
    decreases (if q > 0 && p >= 8388608 * q { p + 1 - 8388608 * q } else { 0 }),
{
    if q == 0 || p < 16777216 * q {
        (p, q, k)
    } else {
        shrink(p, 2 * q, k - 1)
    }
}

/// `p / q` rounded to the nearest integer, ties to the even one.
pub open spec fn nearest_even(p: nat, q: nat) -> nat {
    let m = p / q;
    let r = p % q;
    if 2 * r > q || (2 * r == q && m % 2 == 1) {
        m + 1
    } else {
        m
    }
}

/// The single-precision value nearest to `p / q`, as `(m, k)` standing for
/// `m / 2^k`; zero is `(0, 0)`.
pub open spec fn binary32_of(p: nat, q: nat) -> (nat, int) {
    if p == 0 {
        (0, 0)
    } else {
        let g = grow(p, q, 0);
        let s = shrink(g.0, g.1, g.2);
        (nearest_even(s.0, s.1), s.2)
    }
}

/// `2^e` for an exponent that fits.
pub fn pow2_u128(e: u32) -> (r: u128)
    requires
        e < 128,
    ensures
        r == pow2(e as nat),
{
    let mut r: u128 = 1;
    let mut i: u32 = 0;
    proof {
        lemma2_to64();
    }
    while i < e
        invariant
            i <= e < 128,
            r == pow2(i as nat),
        decreases e - i,
    {
        proof {
            lemma_pow2_unfold((i + 1) as nat);
            lemma_pow2_strictly_increases((i + 1) as nat, 128);
            lemma_pow2_adds(64, 64);
            lemma2_to64();
        }
        r = r * 2;
        i = i + 1;
    }
    r
}

/// If `2^a < 2^b` then `a < b`.
pub proof fn lemma_pow2_lt_inv(a: nat, b: nat)
    requires
        pow2(a) < pow2(b),
    ensures
        a < b,
{
    if a >= b {
        if a > b {
            lemma_pow2_strictly_increases(b, a);
        }
    }
}

proof fn lemma_grow_step(p: nat, q: nat, k: int)
    requires
        p > 0,
        p < 8388608 * q,
    ensures
        grow(p, q, k) == grow(2 * p, q, k + 1),
{
}

proof fn lemma_shrink_step(p: nat, q: nat, k: int)
    requires
        q > 0,
        p >= 16777216 * q,
    ensures
        shrink(p, q, k) == shrink(p, 2 * q, k - 1),
{
}

proof fn lemma_pow2_literals()
    ensures
        pow2(0) == 1,
        pow2(50) == 0x4_0000_0000_0000,
        pow2(100) == 0x10_0000_0000_0000_0000_0000_0000,
{
    lemma2_to64();
    lemma2_to64_rest();
    lemma_pow2_adds(50, 50);
}

proof fn lemma_double_scaled(x: nat, e: nat)
    ensures
        2 * (x * pow2(e)) == x * pow2(e + 1),
        x > 0 ==> x * pow2(e) > 0,
        x * pow2(e) >= pow2(e) || x == 0,
{
    lemma_pow2_unfold(e + 1);
    lemma_pow2_pos(e);
    assert(2 * (x * pow2(e)) == x * (2 * pow2(e))) by (nonlinear_arith);
    assert(x > 0 ==> x * pow2(e) > 0) by (nonlinear_arith)
        requires
            pow2(e) > 0,
    ;
    assert(x * pow2(e) >= pow2(e) || x == 0) by (nonlinear_arith)
        requires
            pow2(e) > 0,
    ;
}

/// The single-precision value nearest to `p / q`, as `binary32_of` gives
/// it, with where it lies: `p / q` is within `[2^23, 2^24)` times `2^-k`.
pub fn round_binary32(p: u128, q: u128) -> (r: (u128, i128))
    requires
        1 <= q <= 0x200_0000,
        p < 0x200_0000_0000_0000_0000_0000_0000_0000,
    ensures
        r.0 == binary32_of(p as nat, q as nat).0,
        r.1 == binary32_of(p as nat, q as nat).1,
        p == 0 ==> r.0 == 0 && r.1 == 0,
        p > 0 ==> 8388608 <= r.0 <= 16777216,
        p > 0 ==> brackets(p as nat, q as nat, r.1 as int),
{
    if p == 0 {
        return (0, 0);
    }
    proof {
        lemma_pow2_literals();
    }
    // Grow: p doubles while below 2^23 q.
    let mut pp: u128 = p;
    let mut a: i128 = 0;
    assert(p * pow2(0) == p);
    while pp < 8388608 * q
        invariant
            1 <= q <= 0x200_0000,
            0 < p < 0x200_0000_0000_0000_0000_0000_0000_0000,
            0 <= a <= 50,
            pp == p * pow2(a as nat),
            pp > 0,
            a > 0 ==> pp < 16777216 * q,
            a == 0 ==> pp == p,
            grow(pp as nat, q as nat, a as int) == grow(p as nat, q as nat, 0),
            pow2(50) == 0x4_0000_0000_0000,
        decreases (16777216 * q) as int - pp,
    {
        assert(pp < 8388608 * q);
        assert(pp < 8388608 * q);
        proof {
            lemma_grow_step(pp as nat, q as nat, a as int);
            lemma_double_scaled(p as nat, a as nat);
            lemma_double_scaled(1, (a + 1) as nat);
            assert(pow2((a + 1) as nat) <= 2 * pp) by {
                lemma_double_scaled(p as nat, (a + 1) as nat);
            }
            if a + 1 > 50 {
                lemma_pow2_strictly_increases(50, (a + 1) as nat);
            }
        }
        let ghost old_pp = pp;
        pp = pp * 2;
        a = a + 1;
        assert(pp == 2 * old_pp);
        assert(pp < 16777216 * q);
        assert(pp == p * pow2(a as nat));
    }
    proof {
        assert(grow(pp as nat, q as nat, a as int) == (pp as nat, q as nat, a as int));
    }
    // Shrink: q doubles while p reaches 2^24 q.
    let mut qq: u128 = q;
    let mut b: i128 = 0;
    assert(q * pow2(0) == q);
    while pp >= 16777216 * qq
        invariant
            1 <= q <= 0x200_0000,
            0 < p < 0x200_0000_0000_0000_0000_0000_0000_0000,
            0 <= a <= 50,
            pp == p * pow2(a as nat),
            a > 0 ==> pp < 16777216 * q,
            a == 0 ==> pp == p,
            pp >= 8388608 * q,
            grow(p as nat, q as nat, 0) == (pp as nat, q as nat, a as int),
            0 <= b <= 100,
            b > 0 ==> a == 0,
            pp < 0x200_0000_0000_0000_0000_0000_0000_0000,
            qq == q * pow2(b as nat),
            qq >= 1,
            qq >= q,
            pp >= 8388608 * qq,
            shrink(pp as nat, qq as nat, a - b) == shrink(pp as nat, q as nat, a as int),
            pow2(100) == 0x10_0000_0000_0000_0000_0000_0000,
        decreases pp - 8388608 * qq,
    {
        proof {
            lemma_shrink_step(pp as nat, qq as nat, a - b);
            lemma_double_scaled(q as nat, b as nat);
            assert(pow2((b + 1) as nat) * 8388608 <= pp) by {
                lemma_double_scaled(q as nat, (b + 1) as nat);
                assert(pow2((b + 1) as nat) * 8388608 <= (q * pow2((b + 1) as nat)) * 8388608)
                    by (nonlinear_arith)
                    requires
                        q >= 1,
                ;
            }
            if b + 1 > 100 {
                lemma_pow2_strictly_increases(100, (b + 1) as nat);
            }
        }
        let ghost old_qq = qq;
        qq = qq * 2;
        b = b + 1;
        assert(qq == 2 * old_qq);
        assert(qq == q * pow2(b as nat));
        assert(shrink(pp as nat, old_qq as nat, a - (b - 1)) == shrink(pp as nat, qq as nat, a - b));
    }
    proof {
        assert(shrink(pp as nat, qq as nat, a - b) == (pp as nat, qq as nat, a - b));
        assert(pp < 16777216 * qq);
    }
    let m = pp / qq;
    let rem = pp % qq;
    proof {
        assert(8388608 <= m < 16777216) by (nonlinear_arith)
            requires
                8388608 * qq <= pp < 16777216 * qq,
                qq >= 1,
                m == pp / qq,
        ;
    }
    let rounded = if 2 * rem > qq || (2 * rem == qq && m % 2 == 1) {
        m + 1
    } else {
        m
    };
    let k = a - b;
    proof {
        if k >= 0 {
            assert(b == 0);
            assert(qq == q);
            assert(k == a);
            assert(8388608 * q <= p * pow2(k as nat) < 16777216 * q);
        } else {
            assert(a == 0);
            assert(pp == p);
            assert(8388608 * q * pow2(b as nat) == 8388608 * qq) by (nonlinear_arith)
                requires
                    qq == q * pow2(b as nat),
            ;
            assert(16777216 * q * pow2(b as nat) == 16777216 * qq) by (nonlinear_arith)
                requires
                    qq == q * pow2(b as nat),
            ;
            assert((-k) as nat == b as nat);
        }
    }
    (rounded, k)
}


/// Where a rounded value lies: `p / q` times `2^k` is within `[2^23, 2^24)`.
pub open spec fn brackets(p: nat, q: nat, k: int) -> bool {
    &&& k >= 0 ==> 8388608 * q <= p * pow2(k as nat) < 16777216 * q
    &&& k < 0 ==> 8388608 * q * pow2((-k) as nat) <= p < 16777216 * q * pow2((-k) as nat)
}

/// The exponent of a rounded ratio follows from the sizes of its terms.
pub proof fn lemma_exponent_range(
    p: nat,
    q: nat,
    k: int,
    lo_p: nat,
    hi_p: nat,
    lo_q: nat,
    hi_q: nat,
)
    requires
        brackets(p, q, k),
        pow2(lo_p) <= p < pow2(hi_p),
        pow2(lo_q) <= q < pow2(hi_q),
    ensures
        23 + lo_q - hi_p < k < 24 + hi_q - lo_p,
{
    lemma2_to64();
    lemma_pow2_adds(23, lo_q);
    lemma_pow2_adds(24, hi_q);
    if k >= 0 {
        let e = k as nat;
        lemma_pow2_adds(lo_p, e);
        lemma_pow2_adds(hi_p, e);
        lemma_pow2_pos(e);
        assert(pow2(lo_p) * pow2(e) <= p * pow2(e)) by (nonlinear_arith)
            requires
                pow2(lo_p) <= p,
                pow2(e) > 0,
        ;
        assert(16777216 * q < 16777216 * pow2(hi_q));
        lemma_pow2_lt_inv(lo_p + e, 24 + hi_q);
        assert(p * pow2(e) < pow2(hi_p) * pow2(e)) by (nonlinear_arith)
            requires
                p < pow2(hi_p),
                pow2(e) > 0,
        ;
        assert(8388608 * pow2(lo_q) <= 8388608 * q);
        lemma_pow2_lt_inv(23 + lo_q, hi_p + e);
    } else {
        let j = (-k) as nat;
        lemma_pow2_adds(23 + lo_q, j);
        lemma_pow2_adds(24 + hi_q, j);
        lemma_pow2_pos(j);
        assert(8388608 * pow2(lo_q) * pow2(j) <= 8388608 * q * pow2(j)) by (nonlinear_arith)
            requires
                pow2(lo_q) <= q,
                pow2(j) > 0,
        ;
        lemma_pow2_lt_inv(23 + lo_q + j, hi_p);
        assert(16777216 * q * pow2(j) < 16777216 * pow2(hi_q) * pow2(j)) by (nonlinear_arith)
            requires
                q < pow2(hi_q),
                pow2(j) > 0,
        ;
        lemma_pow2_lt_inv(lo_p, 24 + hi_q + j);
    }
}


proof fn lemma_grow_result(p: nat, q: nat, k: int)
    requires
        p > 0,
        q > 0,
    ensures
        grow(p, q, k).1 == q,
        grow(p, q, k).2 >= k,
        grow(p, q, k).0 == p * pow2((grow(p, q, k).2 - k) as nat),
        grow(p, q, k).0 >= 8388608 * q,
        grow(p, q, k).2 > k ==> grow(p, q, k).0 < 16777216 * q,
        p >= 8388608 * q ==> grow(p, q, k) == (p, q, k),
    decreases (if p < 8388608 * q { 8388608 * q - p } else { 0 }),
{
    lemma2_to64();
    if p < 8388608 * q {
        lemma_grow_result(2 * p, q, k + 1);
        let r = grow(2 * p, q, k + 1);
        let e = (r.2 - (k + 1)) as nat;
        lemma_pow2_unfold(e + 1);
        assert((2 * p) * pow2(e) == p * pow2(e + 1)) by (nonlinear_arith)
            requires
                pow2(e + 1) == 2 * pow2(e),
        ;
        assert((r.2 - k) as nat == e + 1);
        if 2 * p < 8388608 * q {
            if r.2 == k + 1 {
                assert(r.0 == 2 * p * pow2(0));
                assert(false);
            }
        }
    } else {
        assert(p * pow2(0) == p);
    }
}

proof fn lemma_shrink_result(p: nat, q: nat, k: int)
    requires
        q > 0,
        p >= 8388608 * q,
    ensures
        shrink(p, q, k).0 == p,
        shrink(p, q, k).2 <= k,
        shrink(p, q, k).1 == q * pow2((k - shrink(p, q, k).2) as nat),
        8388608 * shrink(p, q, k).1 <= p < 16777216 * shrink(p, q, k).1,
        p < 16777216 * q ==> shrink(p, q, k) == (p, q, k),
    decreases (if q > 0 && p >= 8388608 * q { p + 1 - 8388608 * q } else { 0 }),
{
    lemma2_to64();
    if p >= 16777216 * q {
        lemma_shrink_result(p, 2 * q, k - 1);
        let r = shrink(p, 2 * q, k - 1);
        let e = ((k - 1) - r.2) as nat;
        lemma_pow2_unfold(e + 1);
        assert((2 * q) * pow2(e) == q * pow2(e + 1)) by (nonlinear_arith)
            requires
                pow2(e + 1) == 2 * pow2(e),
        ;
        assert((k - r.2) as nat == e + 1);
    } else {
        assert(q * pow2(0) == q);
    }
}

/// A value `a * 2^e` with fewer than 24 significant bits is exact in
/// single precision: it rounds to itself.
pub proof fn lemma_exact_binary32(a: nat, e: nat)
    requires
        1 <= a < 16777216,
    ensures
        binary32_of(a * pow2(e), 1).1 + e >= 0,
        binary32_of(a * pow2(e), 1).0 == a * pow2((binary32_of(a * pow2(e), 1).1 + e) as nat),
{
    lemma2_to64();
    lemma_pow2_pos(e);
    let x = a * pow2(e);
    assert(x >= 1) by (nonlinear_arith)
        requires
            x == a * pow2(e),
            a >= 1,
            pow2(e) >= 1,
    ;
    lemma_grow_result(x, 1, 0);
    let g = grow(x, 1, 0);
    if x < 16777216 {
        // only doubling: the significand is x times a power of two
        if g.2 == 0 {
            assert(g.0 == x * pow2(0));
            assert(pow2(0) == 1);
        }
        assert(g.0 < 16777216);
        lemma_shrink_result(g.0, 1, g.2);
        let gk = g.2 as nat;
        lemma_pow2_adds(e, gk);
        assert(g.0 == a * pow2(e + gk)) by (nonlinear_arith)
            requires
                g.0 == x * pow2(gk),
                x == a * pow2(e),
                pow2(e + gk) == pow2(e) * pow2(gk),
        ;
        assert(g.0 / 1 == g.0 && g.0 % 1 == 0);
    } else {
        assert(g == (x, 1nat, 0int));
        lemma_shrink_result(x, 1, 0);
        let sh = shrink(x, 1, 0);
        let b = (0 - sh.2) as nat;
        assert(sh.1 == pow2(b));
        // b <= e, or a would need 24 bits
        if b > e {
            lemma_pow2_adds(e, (b - e) as nat);
            lemma_pow2_strictly_increases(0, (b - e) as nat);
            assert(8388608 * pow2(b) <= a * pow2(e));
            assert(8388608 * pow2(e) * pow2((b - e) as nat) <= a * pow2(e)) by (nonlinear_arith)
                requires
                    8388608 * pow2(b) <= a * pow2(e),
                    pow2(b) == pow2(e) * pow2((b - e) as nat),
            ;
            assert(8388608 * pow2((b - e) as nat) <= a) by (nonlinear_arith)
                requires
                    8388608 * pow2(e) * pow2((b - e) as nat) <= a * pow2(e),
                    pow2(e) > 0,
            ;
            assert(false);
        }
        let r = (e - b) as nat;
        lemma_pow2_adds(r, b);
        assert(x == (a * pow2(r)) * pow2(b)) by (nonlinear_arith)
            requires
                x == a * pow2(e),
                pow2(e) == pow2(r) * pow2(b),
                e == r + b,
        ;
        lemma_pow2_pos(b);
        vstd::arithmetic::div_mod::lemma_fundamental_div_mod_converse(
            x as int,
            pow2(b) as int,
            (a * pow2(r)) as int,
            0,
        );
        assert((sh.2 + e) as nat == r);
    }
}

/// The ratio of a number to itself is exactly one: `2^23 / 2^23`.
pub proof fn lemma_binary32_self_ratio(x: nat)
    requires
        x > 0,
    ensures
        binary32_of(x, x) == (8388608nat, 23int),
{
    lemma2_to64();
    lemma_grow_result(x, x, 0);
    let g = grow(x, x, 0);
    let gk = (g.2 - 0) as nat;
    // x * 2^gk lies in [2^23 x, 2^24 x), so 2^gk is 2^23
    assert(8388608 * x <= x * pow2(gk));
    assert(pow2(gk) >= 8388608) by (nonlinear_arith)
        requires
            8388608 * x <= x * pow2(gk),
            x > 0,
    ;
    if gk > 23 {
        if gk > 24 {
            lemma_pow2_strictly_increases(24, gk);
        }
        assert(pow2(gk) >= 16777216);
        assert(x * pow2(gk) >= 16777216 * x) by (nonlinear_arith)
            requires
                pow2(gk) >= 16777216,
                x > 0,
        ;
        assert(false);
    }
    if gk < 23 {
        lemma_pow2_strictly_increases(gk, 23);
        assert(false);
    }
    assert(g.0 == x * 8388608);
    lemma_shrink_result(g.0, x, g.2);
    vstd::arithmetic::div_mod::lemma_fundamental_div_mod_converse(
        (x * 8388608) as int,
        x as int,
        8388608,
        0,
    );
}


/// A positive ratio rounds to a significand of at least `2^23`.
pub proof fn lemma_binary32_significand(p: nat, q: nat)
    requires
        p > 0,
        q > 0,
    ensures
        binary32_of(p, q).0 >= 8388608,
{
    lemma_grow_result(p, q, 0);
    let g = grow(p, q, 0);
    lemma_shrink_result(g.0, g.1, g.2);
    let sh = shrink(g.0, g.1, g.2);
    assert(sh.0 / sh.1 >= 8388608) by (nonlinear_arith)
        requires
            8388608 * sh.1 <= sh.0,
            sh.1 > 0,
    ;
}

} // verus!
