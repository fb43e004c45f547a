//! Exact binary magnitudes `m * 2^k` (with `m` a natural number and `k` an integer):
//! their odd parts, their comparison, and whether a binary floating-point format holds
//! them exactly.
use vstd::prelude::*;
use vstd::arithmetic::power2::*;
use vstd::arithmetic::div_mod::*;

verus! {

/// `n` with every factor 2 removed (`0` for `0`).
pub open spec fn odd_part(n: nat) -> nat
    decreases n,
{
    if n == 0 {
        0
    } else if n % 2 == 0 {
        odd_part(n / 2)
    } else {
        n
    }
}

/// How many factors 2 divide `n` (`0` for `0`).
pub open spec fn twos(n: nat) -> nat
    decreases n,
{
    if n == 0 {
        0
    } else if n % 2 == 0 {
        1 + twos(n / 2)
    } else {
        0
    }
}

/// The position of the highest set bit of `n` (`0` for `0` and `1`).
pub open spec fn log2_floor(n: nat) -> nat
    decreases n,
{
    if n <= 1 {
        0
    } else {
        1 + log2_floor(n / 2)
    }
}

/// `m1 * 2^k1 == m2 * 2^k2`, compared at the lower of the two exponents.
pub open spec fn same_magnitude(m1: nat, k1: int, m2: nat, k2: int) -> bool {
    let l = if k1 <= k2 { k1 } else { k2 };
    m1 * pow2((k1 - l) as nat) == m2 * pow2((k2 - l) as nat)
}

/// The magnitude `m * 2^k` when it is a whole number.
pub open spec fn scaled_magnitude(m: nat, k: int) -> Option<nat> {
    if k >= 0 {
        Some(m * pow2(k as nat))
    } else if m % pow2((-k) as nat) == 0 {
        Some(m / pow2((-k) as nat))
    } else {
        None
    }
}

/// The number `(-1)^negative * m * 2^k` when it is a whole number.
pub open spec fn scaled_integer(negative: bool, m: nat, k: int) -> Option<int> {
    match scaled_magnitude(m, k) {
        Some(n) => Some(if negative { -n } else { n as int }),
        None => None,
    }
}

/// Whether a binary format with `precision` significand bits, a least exponent
/// `min_scale` for the unit in the last place, and a greatest exponent `max_exp` for the
/// leading bit holds the magnitude `m * 2^k` exactly.
pub open spec fn representable(m: nat, k: int, precision: nat, min_scale: int, max_exp: int) -> bool {
    m == 0 || {
        &&& odd_part(m) < pow2(precision)
        &&& k + twos(m) >= min_scale
        &&& log2_floor(odd_part(m)) + k + twos(m) <= max_exp
    }
}

/// Powers of two that the binary formats use.
pub proof fn lemma_pow2_values()
    ensures
        pow2(0) == 1,
        pow2(23) == 0x80_0000,
        pow2(24) == 0x100_0000,
        pow2(52) == 0x10_0000_0000_0000,
        pow2(53) == 0x20_0000_0000_0000,
        pow2(63) == 0x8000_0000_0000_0000,
        pow2(64) == 0x1_0000_0000_0000_0000,
        pow2(127) == 0x8000_0000_0000_0000_0000_0000_0000_0000,
        pow2(128) == 0x1_0000_0000_0000_0000_0000_0000_0000_0000,
{
    lemma2_to64();
    lemma2_to64_rest();
    lemma_pow2_adds(63, 64);
    lemma_pow2_adds(64, 64);
}

// ---------------------------------------------------------------------------
// Odd parts.
// ---------------------------------------------------------------------------

/// A positive number is its odd part times a power of two.
pub proof fn lemma_odd_decomposition(n: nat)
    requires
        n > 0,
    ensures
        n == odd_part(n) * pow2(twos(n)),
        odd_part(n) % 2 == 1,
    decreases n,
{
    lemma2_to64();
    if n % 2 == 0 {
        lemma_odd_decomposition(n / 2);
        let o = odd_part(n / 2);
        let t = twos(n / 2);
        lemma_pow2_unfold(t + 1);
        assert(o * pow2(t + 1) == 2 * (o * pow2(t))) by (nonlinear_arith)
            requires
                pow2(t + 1) == 2 * pow2(t),
        ;
    } else {
        assert(n * 1 == n);
    }
}

/// An odd number times a power of two determines both.
pub proof fn lemma_odd_times_pow2_unique(x: nat, u: nat, y: nat, v: nat)
    requires
        x % 2 == 1,
        y % 2 == 1,
        x * pow2(u) == y * pow2(v),
    ensures
        x == y,
        u == v,
    decreases u + v,
{
    lemma2_to64();
    if u > 0 && v > 0 {
        lemma_pow2_unfold(u);
        lemma_pow2_unfold(v);
        let pu = pow2((u - 1) as nat);
        let pv = pow2((v - 1) as nat);
        assert(x * pu == y * pv) by (nonlinear_arith)
            requires
                x * (2 * pu) == y * (2 * pv),
        ;
        lemma_odd_times_pow2_unique(x, (u - 1) as nat, y, (v - 1) as nat);
    } else if u > 0 {
        lemma_pow2_unfold(u);
        let pu = pow2((u - 1) as nat);
        assert(y == 2 * (x * pu)) by (nonlinear_arith)
            requires
                x * (2 * pu) == y * 1,
        ;
    } else if v > 0 {
        lemma_pow2_unfold(v);
        let pv = pow2((v - 1) as nat);
        assert(x == 2 * (y * pv)) by (nonlinear_arith)
            requires
                x * 1 == y * (2 * pv),
        ;
    } else {
        assert(x * 1 == y * 1);
    }
}

/// The odd part of a positive number is at most the number.
pub proof fn lemma_odd_part_le(n: nat)
    requires
        n > 0,
    ensures
        0 < odd_part(n) <= n,
{
    lemma_odd_decomposition(n);
    lemma_pow2_pos(twos(n));
    let o = odd_part(n);
    let p = pow2(twos(n));
    assert(o <= n) by (nonlinear_arith)
        requires
            n == o * p,
            p >= 1,
            o % 2 == 1,
    ;
}

// ---------------------------------------------------------------------------
// Bit length.
// ---------------------------------------------------------------------------

/// `n` lies between `2^log2_floor(n)` and the next power of two.
pub proof fn lemma_log2_floor_bounds(n: nat)
    requires
        n >= 1,
    ensures
        pow2(log2_floor(n)) <= n < pow2(log2_floor(n) + 1),
    decreases n,
{
    lemma2_to64();
    if n > 1 {
        lemma_log2_floor_bounds(n / 2);
        lemma_pow2_unfold(log2_floor(n / 2) + 1);
        lemma_pow2_unfold(log2_floor(n / 2) + 2);
    }
}

/// `log2_floor(n) < q` when `n < 2^q`.
pub proof fn lemma_log2_floor_below(n: nat, q: nat)
    requires
        1 <= n < pow2(q),
    ensures
        log2_floor(n) < q,
{
    lemma_log2_floor_bounds(n);
    if log2_floor(n) >= q {
        if log2_floor(n) > q {
            lemma_pow2_strictly_increases(q, log2_floor(n));
        }
    }
}

/// Doubling adds one to the bit length.
pub proof fn lemma_log2_floor_shift(n: nat, j: nat)
    requires
        n >= 1,
    ensures
        log2_floor(n * pow2(j)) == log2_floor(n) + j,
    decreases j,
{
    lemma2_to64();
    if j > 0 {
        lemma_log2_floor_shift(n, (j - 1) as nat);
        lemma_pow2_unfold(j);
        let y = n * pow2((j - 1) as nat);
        lemma_pow2_pos((j - 1) as nat);
        assert(n * pow2(j) == 2 * y && y >= 1) by (nonlinear_arith)
            requires
                pow2(j) == 2 * pow2((j - 1) as nat),
                y == n * pow2((j - 1) as nat),
                n >= 1,
                pow2((j - 1) as nat) >= 1,
        ;
        assert((2 * y) / 2 == y);
    } else {
        assert(n * 1 == n);
    }
}

// ---------------------------------------------------------------------------
// Equal magnitudes.
// ---------------------------------------------------------------------------

/// Equal magnitudes compare equal at any exponent below both.
pub proof fn lemma_same_magnitude_at(m1: nat, k1: int, m2: nat, k2: int, l: int)
    requires
        l <= k1,
        l <= k2,
    ensures
        same_magnitude(m1, k1, m2, k2) <==> m1 * pow2((k1 - l) as nat) == m2 * pow2((k2 - l) as nat),
{
    let lo = if k1 <= k2 { k1 } else { k2 };
    let d = (lo - l) as nat;
    let a = (k1 - lo) as nat;
    let b = (k2 - lo) as nat;
    lemma_pow2_adds(a, d);
    lemma_pow2_adds(b, d);
    assert((k1 - l) as nat == a + d);
    assert((k2 - l) as nat == b + d);
    lemma_pow2_pos(d);
    let pd = pow2(d);
    let x = m1 * pow2(a);
    let y = m2 * pow2(b);
    assert(m1 * pow2(a + d) == x * pd) by (nonlinear_arith)
        requires
            pow2(a + d) == pow2(a) * pd,
            x == m1 * pow2(a),
    ;
    assert(m2 * pow2(b + d) == y * pd) by (nonlinear_arith)
        requires
            pow2(b + d) == pow2(b) * pd,
            y == m2 * pow2(b),
    ;
    assert((x == y) <==> (x * pd == y * pd)) by (nonlinear_arith)
        requires
            pd > 0,
    ;
}

/// Equal magnitudes, either way round.
pub proof fn lemma_same_magnitude_symmetric(m1: nat, k1: int, m2: nat, k2: int)
    requires
        same_magnitude(m1, k1, m2, k2),
    ensures
        same_magnitude(m2, k2, m1, k1),
{
}

/// Equal magnitudes chain.
pub proof fn lemma_same_magnitude_transitive(
    m1: nat,
    k1: int,
    m2: nat,
    k2: int,
    m3: nat,
    k3: int,
)
    requires
        same_magnitude(m1, k1, m2, k2),
        same_magnitude(m2, k2, m3, k3),
    ensures
        same_magnitude(m1, k1, m3, k3),
{
    let l1 = if k1 <= k2 { k1 } else { k2 };
    let l = if l1 <= k3 { l1 } else { k3 };
    lemma_same_magnitude_at(m1, k1, m2, k2, l);
    lemma_same_magnitude_at(m2, k2, m3, k3, l);
    lemma_same_magnitude_at(m1, k1, m3, k3, l);
}

/// A magnitude equals its odd part scaled by its twos.
pub proof fn lemma_same_magnitude_odd_part(m: nat, k: int)
    requires
        m > 0,
    ensures
        same_magnitude(odd_part(m), k + twos(m), m, k),
{
    lemma_odd_decomposition(m);
    lemma_same_magnitude_at(odd_part(m), k + twos(m), m, k, k);
    lemma2_to64();
    assert(m * pow2(0) == m) by (nonlinear_arith)
        requires
            pow2(0) == 1,
    ;
}

/// A positive magnitude is determined by its odd part and the exponent of that odd part.
pub proof fn lemma_same_magnitude_unique(m1: nat, k1: int, m2: nat, k2: int)
    requires
        m1 > 0,
        same_magnitude(m1, k1, m2, k2),
    ensures
        m2 > 0,
        odd_part(m1) == odd_part(m2),
        k1 + twos(m1) == k2 + twos(m2),
{
    let l = if k1 <= k2 { k1 } else { k2 };
    let a = (k1 - l) as nat;
    let b = (k2 - l) as nat;
    lemma_pow2_pos(a);
    lemma_pow2_pos(b);
    assert(m2 > 0) by (nonlinear_arith)
        requires
            m1 * pow2(a) == m2 * pow2(b),
            m1 > 0,
            pow2(a) > 0,
    ;
    lemma_odd_decomposition(m1);
    lemma_odd_decomposition(m2);
    let o1 = odd_part(m1);
    let o2 = odd_part(m2);
    let t1 = twos(m1);
    let t2 = twos(m2);
    lemma_pow2_adds(t1, a);
    lemma_pow2_adds(t2, b);
    assert(o1 * pow2(t1 + a) == o2 * pow2(t2 + b)) by (nonlinear_arith)
        requires
            m1 == o1 * pow2(t1),
            m2 == o2 * pow2(t2),
            m1 * pow2(a) == m2 * pow2(b),
            pow2(t1 + a) == pow2(t1) * pow2(a),
            pow2(t2 + b) == pow2(t2) * pow2(b),
    ;
    lemma_odd_times_pow2_unique(o1, t1 + a, o2, t2 + b);
}

/// Only zero has the magnitude of zero.
pub proof fn lemma_same_magnitude_zero(k1: int, m2: nat, k2: int)
    requires
        same_magnitude(0, k1, m2, k2),
    ensures
        m2 == 0,
{
    let l = if k1 <= k2 { k1 } else { k2 };
    let b = (k2 - l) as nat;
    lemma_pow2_pos(b);
    assert(m2 == 0) by (nonlinear_arith)
        requires
            0 * pow2((k1 - l) as nat) == m2 * pow2(b),
            pow2(b) > 0,
    ;
}

/// Whether a format holds a magnitude depends on the magnitude alone.
pub proof fn lemma_representable_same_magnitude(
    m1: nat,
    k1: int,
    m2: nat,
    k2: int,
    precision: nat,
    min_scale: int,
    max_exp: int,
)
    requires
        same_magnitude(m1, k1, m2, k2),
    ensures
        representable(m1, k1, precision, min_scale, max_exp) == representable(
            m2,
            k2,
            precision,
            min_scale,
            max_exp,
        ),
{
    if m1 == 0 {
        lemma_same_magnitude_zero(k1, m2, k2);
    } else {
        lemma_same_magnitude_unique(m1, k1, m2, k2);
    }
}

/// The significand and scale of a float whose significand has `sig_bits` bits at most,
/// with scale between `min_scale` and `max_exp + 1 - sig_bits`, are held by its format.
pub proof fn lemma_decoded_representable(
    m: nat,
    k: int,
    sig_bits: nat,
    min_scale: int,
    max_exp: int,
)
    requires
        m < pow2(sig_bits),
        min_scale <= k,
        k + sig_bits <= max_exp + 1,
    ensures
        representable(m, k, sig_bits, min_scale, max_exp),
{
    if m > 0 {
        lemma_odd_part_le(m);
        lemma_odd_decomposition(m);
        lemma_log2_floor_shift(odd_part(m), twos(m));
        lemma_log2_floor_below(m, sig_bits);
    }
}

// ---------------------------------------------------------------------------
// Whole numbers.
// ---------------------------------------------------------------------------

/// `m * 2^k` is a whole number exactly when, scaled up to `2^-l`, it is a multiple of
/// `2^-l`.
pub proof fn lemma_scaled_magnitude_at(m: nat, k: int, l: int)
    requires
        l <= k,
        l <= 0,
    ensures
        ({
            let x = m * pow2((k - l) as nat);
            let d = pow2((-l) as nat);
            scaled_magnitude(m, k) == if x % d == 0 {
                Some((x / d) as nat)
            } else {
                None
            }
        }),
{
    let x = m * pow2((k - l) as nat);
    let d = pow2((-l) as nat);
    lemma_pow2_pos((-l) as nat);
    lemma_pow2_pos((k - l) as nat);
    if k >= 0 {
        lemma_pow2_adds(k as nat, (-l) as nat);
        assert((k - l) as nat == k as nat + (-l) as nat);
        let q = m * pow2(k as nat);
        assert(x == q * d) by (nonlinear_arith)
            requires
                x == m * pow2((k - l) as nat),
                pow2((k - l) as nat) == pow2(k as nat) * d,
                q == m * pow2(k as nat),
        ;
        lemma_fundamental_div_mod_converse(x as int, d as int, q as int, 0);
    } else {
        let a = (-k) as nat;
        let c = pow2((k - l) as nat);
        let pa = pow2(a);
        lemma_pow2_pos(a);
        lemma_pow2_adds(a, (k - l) as nat);
        assert((-l) as nat == a + (k - l) as nat);
        let q = m / pa;
        let r = m % pa;
        lemma_fundamental_div_mod(m as int, pa as int);
        assert(x == q * d + r * c && r * c < d && 0 <= r * c) by (nonlinear_arith)
            requires
                x == m * c,
                m == pa * q + r,
                0 <= r < pa,
                d == pa * c,
                c > 0,
        ;
        lemma_fundamental_div_mod_converse(x as int, d as int, q as int, (r * c) as int);
        assert((r * c == 0) <==> (r == 0)) by (nonlinear_arith)
            requires
                c > 0,
                r >= 0,
        ;
    }
}

/// Equal magnitudes are whole numbers together, and then the same one.
pub proof fn lemma_scaled_magnitude_same(m1: nat, k1: int, m2: nat, k2: int)
    requires
        same_magnitude(m1, k1, m2, k2),
    ensures
        scaled_magnitude(m1, k1) == scaled_magnitude(m2, k2),
{
    let l0 = if k1 <= k2 { k1 } else { k2 };
    let l = if l0 <= 0 { l0 } else { 0 };
    lemma_same_magnitude_at(m1, k1, m2, k2, l);
    lemma_scaled_magnitude_at(m1, k1, l);
    lemma_scaled_magnitude_at(m2, k2, l);
}

/// A significand and scale as a binary format decodes them: at the least scale, any
/// significand below `2^(sig_bits)`; above it, a significand with its top bit set.
pub open spec fn decoded_shape(sig: nat, scale: int, frac_bits: nat, min_scale: int) -> bool {
    ||| scale == min_scale && sig < pow2(frac_bits + 1)
    ||| scale > min_scale && pow2(frac_bits) <= sig < pow2(frac_bits + 1)
}

/// Two decoded significands and scales of the same magnitude are the same.
pub proof fn lemma_decoded_unique(
    sig1: nat,
    sc1: int,
    sig2: nat,
    sc2: int,
    frac_bits: nat,
    min_scale: int,
)
    requires
        decoded_shape(sig1, sc1, frac_bits, min_scale),
        decoded_shape(sig2, sc2, frac_bits, min_scale),
        same_magnitude(sig1, sc1, sig2, sc2),
    ensures
        sig1 == sig2,
        sc1 == sc2,
{
    lemma_pow2_pos(frac_bits);
    if sig1 == 0 {
        lemma_same_magnitude_zero(sc1, sig2, sc2);
    } else {
        lemma_same_magnitude_unique(sig1, sc1, sig2, sc2);
        lemma_odd_decomposition(sig1);
        lemma_odd_decomposition(sig2);
        lemma_log2_floor_shift(odd_part(sig1), twos(sig1));
        lemma_log2_floor_shift(odd_part(sig2), twos(sig2));
        lemma_log2_floor_below(sig1, frac_bits + 1);
        lemma_log2_floor_below(sig2, frac_bits + 1);
        lemma_log2_floor_bounds(sig1);
        lemma_log2_floor_bounds(sig2);
        if sig1 >= pow2(frac_bits) && log2_floor(sig1) < frac_bits {
            lemma_pow2_strictly_increases(log2_floor(sig1) + 1, frac_bits);
            assert(false);
        }
        if sig2 >= pow2(frac_bits) && log2_floor(sig2) < frac_bits {
            lemma_pow2_strictly_increases(log2_floor(sig2) + 1, frac_bits);
            assert(false);
        }
        assert(sc1 == sc2);
        lemma_same_magnitude_at(sig1, sc1, sig2, sc2, sc1);
        lemma2_to64();
        assert(sig1 * pow2(0) == sig1 && sig2 * pow2(0) == sig2) by (nonlinear_arith)
            requires
                pow2(0) == 1,
        ;
    }
}

} // verus!
