//! Q8.8 fixed point: 8 integer bits, 8 fraction bits, stored as `i16`.
//! 1.0 is 256, the range is [-128.0, +127.996] with precision 1/256.
//! Every operation saturates at the ends of the `i16` range, so there is no
//! overflow, and the same inputs give the same `i16` on every platform.
//!
//! The value has two faces: the raw `i16` helpers (`q88_*`) used by the mind,
//! and the `Q8_8` struct used by the body. Both compute the same arithmetic.
use vstd::prelude::*;

verus! {

/// The unit value: 1.0 in raw Q8.8.
pub const Q88_SCALE: i16 = 256;

// ---------------------------------------------------------------------------
// Mathematical model
// ---------------------------------------------------------------------------

/// Clamp a mathematical integer into the `i16` range.
pub open spec fn sat16(x: int) -> i16 {
    if x > i16::MAX {
        i16::MAX
    } else if x < i16::MIN {
        i16::MIN
    } else {
        x as i16
    }
}

/// Clamp an integer into `[lo, hi]`.
pub open spec fn clamp_int(x: int, lo: int, hi: int) -> int {
    if x < lo {
        lo
    } else if x > hi {
        hi
    } else {
        x
    }
}

/// Division rounded toward zero, as Rust's `/` on signed integers.
pub open spec fn trunc_div(x: int, d: int) -> int {
    if x >= 0 {
        x / d
    } else {
        -((-x) / d)
    }
}

/// Raw Q8.8 product: the exact product shifted right by 8 (rounded toward
/// negative infinity), then saturated.
pub open spec fn spec_q88_mul(a: i16, b: i16) -> i16 {
    sat16((a * b) / 256)
}

/// Raw Q8.8 quotient. A zero divisor gives the extreme of the dividend's sign.
pub open spec fn spec_q88_div(a: i16, b: i16) -> i16 {
    if b == 0 {
        if a >= 0 {
            i16::MAX
        } else {
            i16::MIN
        }
    } else {
        sat16(trunc_div(a * 256, b as int))
    }
}

/// Exponential moving average: value + alpha * (target - value), saturating.
pub open spec fn spec_q88_ema(value: i16, target: i16, alpha: i16) -> i16 {
    sat16(value + spec_q88_mul(sat16(target - value), alpha))
}

proof fn lemma_div_neg_divisor(x: int, d: int)
    requires
        d < 0,
    ensures
        x / d == -(x / (-d)),
{
    assert(x / d == -(x / (-d))) by (nonlinear_arith)
        requires
            d < 0,
    ;
}

/// Signed division as Rust computes it.
fn div_toward_zero(n: i32, d: i32) -> (r: i32)
    requires
        d != 0,
        n != i32::MIN,
    ensures
        r == trunc_div(n as int, d as int),
{
    let r = n / d;
    if d < 0 {
        proof {
            lemma_div_neg_divisor(n as int, d as int);
            lemma_div_neg_divisor(-n, d as int);
        }
    }
    r
}

/// Saturate an `i32` into `i16`.
fn saturate_i16(x: i32) -> (r: i16)
    ensures
        r == sat16(x as int),
{
    if x > i16::MAX as i32 {
        i16::MAX
    } else if x < i16::MIN as i32 {
        i16::MIN
    } else {
        x as i16
    }
}

// ---------------------------------------------------------------------------
// Raw-i16 helpers
// ---------------------------------------------------------------------------

pub fn q88_add(a: i16, b: i16) -> (r: i16)
    ensures
        r == sat16(a + b),
{
    saturate_i16(a as i32 + b as i32)
}

pub fn q88_sub(a: i16, b: i16) -> (r: i16)
    ensures
        r == sat16(a - b),
{
    saturate_i16(a as i32 - b as i32)
}

pub fn q88_mul(a: i16, b: i16) -> (r: i16)
    ensures
        r == spec_q88_mul(a, b),
{
    assert(-1073741824 <= a * b <= 1073741824) by (nonlinear_arith)
        requires
            -32768 <= a <= 32767,
            -32768 <= b <= 32767,
    ;
    let p: i32 = a as i32 * b as i32;
    let q: i32 = p >> 8;
    assert(q * 256 <= p && p < q * 256 + 256) by (bit_vector)
        requires
            q == p >> 8,
    ;
    saturate_i16(q)
}

pub fn q88_div(a: i16, b: i16) -> (r: i16)
    ensures
        r == spec_q88_div(a, b),
{
    if b == 0 {
        return if a >= 0 {
            i16::MAX
        } else {
            i16::MIN
        };
    }
    let q = div_toward_zero((a as i32) * 256, b as i32);
    saturate_i16(q)
}

pub fn q88_from_i32(n: i32) -> (r: i16)
    ensures
        r == sat16(n * 256),
{
    if n > 128 {
        i16::MAX
    } else if n < -128 {
        i16::MIN
    } else {
        saturate_i16(n * 256)
    }
}

/// Exponential moving average update in raw Q8.8:
/// value <- value + alpha * (target - value).
pub fn q88_ema_update(value: i16, target: i16, alpha: i16) -> (r: i16)
    ensures
        r == spec_q88_ema(value, target, alpha),
{
    let delta = q88_sub(target, value);
    q88_add(value, q88_mul(delta, alpha))
}

/// With a weight in [0, 1], one moving-average step lands between the old
/// value and the target: it never overshoots and never moves away.
pub proof fn lemma_ema_moves_toward_target(value: i16, target: i16, alpha: i16)
    requires
        0 <= alpha <= Q88_SCALE,
    ensures
        value <= target ==> value <= spec_q88_ema(value, target, alpha) <= target,
        target <= value ==> target <= spec_q88_ema(value, target, alpha) <= value,
{
    let d = sat16(target - value);
    let p = d * alpha;
    if d >= 0 {
        assert(0 <= p <= d * 256) by (nonlinear_arith)
            requires
                p == d * alpha,
                d >= 0,
                0 <= alpha <= 256,
        ;
    } else {
        assert(d * 256 <= p <= 0) by (nonlinear_arith)
            requires
                p == d * alpha,
                d < 0,
                0 <= alpha <= 256,
        ;
    }
}

// ---------------------------------------------------------------------------
// Q8_8 struct
// ---------------------------------------------------------------------------

/// Q8.8 fixed-point value. `raw` is the i16 store; 1.0 == 256.
#[derive(Clone, Copy, PartialEq, Eq, Structural, PartialOrd, Ord, Debug)]
pub struct Q8_8 {
    pub raw: i16,
}

/// Q8.8 whose raw store is `raw`.
pub open spec fn q(raw: int) -> Q8_8 {
    Q8_8 { raw: raw as i16 }
}

/// The result of Newton's iteration `x <- (x + t / x) / 2`, run `k` times
/// (stopping early at zero).
pub open spec fn newton_iter(t: int, x: int, k: nat) -> int
    decreases k,
{
    if k == 0 || x == 0 {
        x
    } else {
        newton_iter(t, (x + t / x) / 2, (k - 1) as nat)
    }
}

impl Q8_8 {
    pub open spec fn spec_add(self, o: Q8_8) -> Q8_8 {
        Q8_8 { raw: sat16(self.raw + o.raw) }
    }

    pub open spec fn spec_sub(self, o: Q8_8) -> Q8_8 {
        Q8_8 { raw: sat16(self.raw - o.raw) }
    }

    pub open spec fn spec_mul(self, o: Q8_8) -> Q8_8 {
        Q8_8 { raw: spec_q88_mul(self.raw, o.raw) }
    }

    pub open spec fn spec_div(self, o: Q8_8) -> Q8_8 {
        Q8_8 { raw: spec_q88_div(self.raw, o.raw) }
    }

    pub open spec fn spec_div_i16(self, n: i16) -> Q8_8 {
        if n == 0 {
            Q8_8 { raw: 0 }
        } else {
            Q8_8 { raw: sat16(trunc_div(self.raw as int, n as int)) }
        }
    }

    pub open spec fn spec_abs(self) -> Q8_8 {
        if self.raw == i16::MIN {
            Q8_8 { raw: i16::MAX }
        } else if self.raw < 0 {
            Q8_8 { raw: (-self.raw) as i16 }
        } else {
            self
        }
    }

    pub open spec fn spec_neg(self) -> Q8_8 {
        if self.raw == i16::MIN {
            Q8_8 { raw: i16::MAX }
        } else {
            Q8_8 { raw: (-self.raw) as i16 }
        }
    }

    pub open spec fn spec_min(self, o: Q8_8) -> Q8_8 {
        if self.raw <= o.raw {
            self
        } else {
            o
        }
    }

    pub open spec fn spec_max(self, o: Q8_8) -> Q8_8 {
        if self.raw >= o.raw {
            self
        } else {
            o
        }
    }

    pub open spec fn spec_clamp(self, lo: Q8_8, hi: Q8_8) -> Q8_8 {
        Q8_8 { raw: clamp_int(self.raw as int, lo.raw as int, hi.raw as int) as i16 }
    }

    pub open spec fn spec_lerp(a: Q8_8, b: Q8_8, t: Q8_8) -> Q8_8 {
        a.spec_add(b.spec_sub(a).spec_mul(t))
    }

    pub open spec fn spec_sqrt(self) -> Q8_8 {
        if self.raw <= 0 {
            Q8_8 { raw: 0 }
        } else {
            Q8_8 { raw: sat16(newton_iter(self.raw * 256, 256, 8)) }
        }
    }

    pub open spec fn spec_sigmoid(self) -> Q8_8 {
        let x = self.raw as int;
        let ax = if x < 0 {
            -x
        } else {
            x
        };
        let frac = trunc_div(x * 256, 256 + ax);
        Q8_8 { raw: clamp_int(128 + (128 * frac) / 256, 0, 256) as i16 }
    }

    pub fn from_raw(raw: i16) -> (r: Q8_8)
        ensures
            r.raw == raw,
    {
        Q8_8 { raw }
    }

    pub fn add(self, o: Q8_8) -> (r: Q8_8)
        ensures
            r == self.spec_add(o),
    {
        Q8_8 { raw: q88_add(self.raw, o.raw) }
    }

    pub fn sub(self, o: Q8_8) -> (r: Q8_8)
        ensures
            r == self.spec_sub(o),
    {
        Q8_8 { raw: q88_sub(self.raw, o.raw) }
    }

    pub fn mul(self, o: Q8_8) -> (r: Q8_8)
        ensures
            r == self.spec_mul(o),
    {
        Q8_8 { raw: q88_mul(self.raw, o.raw) }
    }

    /// Fused multiply-add: self * a + b.
    pub fn mul_add(self, a: Q8_8, b: Q8_8) -> (r: Q8_8)
        ensures
            r == self.spec_mul(a).spec_add(b),
    {
        self.mul(a).add(b)
    }

    pub fn div(self, o: Q8_8) -> (r: Q8_8)
        ensures
            r == self.spec_div(o),
    {
        Q8_8 { raw: q88_div(self.raw, o.raw) }
    }

    /// Divide by a small integer (exact, avoids reciprocal error). Division
    /// by zero gives zero; the one quotient out of range (-128.0 / -1)
    /// saturates.
    pub fn div_i16(self, n: i16) -> (r: Q8_8)
        ensures
            r == self.spec_div_i16(n),
    {
        if n == 0 {
            return Q8_8 { raw: 0 };
        }
        Q8_8 { raw: saturate_i16(div_toward_zero(self.raw as i32, n as i32)) }
    }

    pub fn abs(self) -> (r: Q8_8)
        ensures
            r == self.spec_abs(),
    {
        if self.raw == i16::MIN {
            Q8_8 { raw: i16::MAX }
        } else if self.raw < 0 {
            Q8_8 { raw: -self.raw }
        } else {
            self
        }
    }

    pub fn neg(self) -> (r: Q8_8)
        ensures
            r == self.spec_neg(),
    {
        if self.raw == i16::MIN {
            Q8_8 { raw: i16::MAX }
        } else {
            Q8_8 { raw: -self.raw }
        }
    }

    pub fn min(self, o: Q8_8) -> (r: Q8_8)
        ensures
            r == self.spec_min(o),
    {
        if self.raw <= o.raw {
            self
        } else {
            o
        }
    }

    pub fn max(self, o: Q8_8) -> (r: Q8_8)
        ensures
            r == self.spec_max(o),
    {
        if self.raw >= o.raw {
            self
        } else {
            o
        }
    }

    pub fn clamp(self, lo: Q8_8, hi: Q8_8) -> (r: Q8_8)
        requires
            lo.raw <= hi.raw,
        ensures
            r == self.spec_clamp(lo, hi),
    {
        if self.raw < lo.raw {
            lo
        } else if self.raw > hi.raw {
            hi
        } else {
            self
        }
    }

    /// Linear interpolation: a + t*(b-a).
    pub fn lerp(a: Q8_8, b: Q8_8, t: Q8_8) -> (r: Q8_8)
        ensures
            r == Q8_8::spec_lerp(a, b, t),
    {
        a.add(b.sub(a).mul(t))
    }

    /// Saturating Newton-iteration square root; zero for non-positive input.
    pub fn sqrt(self) -> (r: Q8_8)
        ensures
            r == self.spec_sqrt(),
            r.raw >= 0,
    {
        if self.raw <= 0 {
            return Q8_8 { raw: 0 };
        }
        // Work in raw units: result_raw ~= sqrt(raw * 256).
        let target: i32 = (self.raw as i32) * 256;
        let mut x: i32 = 256;
        let mut i: u32 = 0;
        while i < 8
            invariant
                0 <= i <= 8,
                256 <= target <= 8388352,
                1 <= x <= 16777216,
                newton_iter(target as int, x as int, (8 - i) as nat) == newton_iter(
                    target as int,
                    256,
                    8,
                ),
            decreases 8 - i,
        {
            assert(0 <= target / x <= target) by (nonlinear_arith)
                requires
                    target >= 0,
                    x >= 1,
            ;
            let nx = (x + target / x) / 2;
            assert(nx >= 1) by {
                if x == 1 {
                    assert(target / 1 == target);
                }
            }
            x = nx;
            i = i + 1;
        }
        Q8_8 { raw: saturate_i16(x) }
    }

    /// Logistic sigmoid via the rational approximation
    /// 0.5 + 0.5 * x / (1 + |x|): smooth, monotonic, bounded in (0, 1).
    pub fn sigmoid(self) -> (r: Q8_8)
        ensures
            r == self.spec_sigmoid(),
    {
        let x = self.raw as i32;
        let ax: i32 = if x < 0 {
            -x
        } else {
            x
        };
        let denom = 256 + ax;
        let frac = div_toward_zero(x * 256, denom);
        let half: i32 = 128;
        assert(-256 <= frac <= 256) by (nonlinear_arith)
            requires
                frac == trunc_div(x * 256, denom as int),
                denom == 256 + ax,
                ax == (if x < 0 {
                    -x
                } else {
                    x as int
                }),
                -32768 <= x <= 32767,
        ;
        let p = half * frac;
        let sh = p >> 8;
        assert(sh * 256 <= p && p < sh * 256 + 256) by (bit_vector)
            requires
                sh == p >> 8,
        ;
        let v = half + sh;
        let c = if v < 0 {
            0
        } else if v > 256 {
            256
        } else {
            v
        };
        Q8_8 { raw: c as i16 }
    }
}

/// The raw helpers and the struct methods are two faces of one arithmetic:
/// they agree on every input, and the moving average is linear interpolation.
pub proof fn lemma_two_faces_agree(a: i16, b: i16, t: i16)
    ensures
        q(a as int).spec_add(q(b as int)).raw == sat16(a + b),
        q(a as int).spec_sub(q(b as int)).raw == sat16(a - b),
        q(a as int).spec_mul(q(b as int)).raw == spec_q88_mul(a, b),
        q(a as int).spec_div(q(b as int)).raw == spec_q88_div(a, b),
        Q8_8::spec_lerp(q(a as int), q(b as int), q(t as int)).raw == spec_q88_ema(a, b, t),
{
}

/// Multiplication by 1.0 and division by 1.0 give the value back, the
/// product does not depend on the order of its factors, and a nonzero value
/// divided by itself is 1.0.
pub proof fn lemma_unit_laws(a: i16, b: i16)
    ensures
        spec_q88_mul(a, 256) == a,
        spec_q88_mul(a, b) == spec_q88_mul(b, a),
        spec_q88_div(a, 256) == a,
        a != 0 ==> spec_q88_div(a, a) == 256,
{
    assert((a * 256) / 256 == a) by (nonlinear_arith);
    assert(a * b == b * a) by (nonlinear_arith);
    if a > 0 {
        assert((a * 256) / (a as int) == 256) by (nonlinear_arith)
            requires
                a > 0,
        ;
    } else if a < 0 {
        assert(((-a) * 256) / (a as int) == -256) by {
            lemma_div_neg_divisor((-a) * 256, a as int);
            assert(((-a) * 256) / (-(a as int)) == 256) by (nonlinear_arith)
                requires
                    a < 0,
            ;
        }
    }
}

/// Interpolating with weight 0 stays at `a`; with weight 1 it reaches `b`,
/// whenever `b - a` is representable.
pub proof fn lemma_lerp_endpoints(a: Q8_8, b: Q8_8)
    ensures
        Q8_8::spec_lerp(a, b, Q8_8 { raw: 0 }) == a,
        i16::MIN <= b.raw - a.raw <= i16::MAX ==> Q8_8::spec_lerp(a, b, Q8_8 { raw: 256 }) == b,
{
    let d = b.spec_sub(a).raw;
    assert((d * 256) / 256 == d) by (nonlinear_arith);
    assert((d * 0) / 256 == 0) by (nonlinear_arith);
}

/// On non-negative inputs, `256 a / (256 + a)` (rounded down) is monotone.
proof fn lemma_squash_monotone(a: int, b: int)
    requires
        0 <= a <= b,
    ensures
        (256 * a) / (256 + a) <= (256 * b) / (256 + b),
        0 <= (256 * a) / (256 + a),
{
    let qa = (256 * a) / (256 + a);
    vstd::arithmetic::div_mod::lemma_fundamental_div_mod(256 * a, 256 + a);
    vstd::arithmetic::div_mod::lemma_mod_bound(256 * a, 256 + a);
    assert(qa * (256 + a) <= 256 * a);
    assert(qa * (256 + b) <= 256 * b) by (nonlinear_arith)
        requires
            qa * (256 + a) <= 256 * a,
            0 <= a <= b,
    ;
    vstd::arithmetic::div_mod::lemma_div_is_ordered(qa * (256 + b), 256 * b, 256 + b);
    vstd::arithmetic::div_mod::lemma_div_multiples_vanish(qa, 256 + b);
    vstd::arithmetic::div_mod::lemma_div_pos_is_pos(256 * a, 256 + a);
}

/// The squash `256 a / (256 + a)` stays at most 254 over the `i16` range.
proof fn lemma_squash_bound(a: int)
    requires
        0 <= a <= 32768,
    ensures
        (256 * a) / (256 + a) <= 254,
{
    let top = 254 * (256 + a) + (255 + a);
    vstd::arithmetic::div_mod::lemma_div_is_ordered(256 * a, top, 256 + a);
    assert(top / (256 + a) == 254) by {
        vstd::arithmetic::div_mod::lemma_fundamental_div_mod_converse_div(
            top, 256 + a, 254, 255 + a);
    }
}

/// The sigmoid output lies strictly inside (0, 1): in raw units, in [1, 255].
pub proof fn lemma_sigmoid_bounded(x: Q8_8)
    ensures
        0 < x.spec_sigmoid().raw < Q88_SCALE,
{
    let v = x.raw as int;
    if v >= 0 {
        lemma_squash_bound(v);
        lemma_squash_monotone(0, v);
    } else {
        lemma_squash_bound(-v);
        lemma_squash_monotone(0, -v);
    }
}

/// The sigmoid is monotone: a larger input never gives a smaller output.
pub proof fn lemma_sigmoid_monotone(x: Q8_8, y: Q8_8)
    requires
        x.raw <= y.raw,
    ensures
        x.spec_sigmoid().raw <= y.spec_sigmoid().raw,
{
    let a = x.raw as int;
    let b = y.raw as int;
    let fa = trunc_div(a * 256, 256 + (if a < 0 { -a } else { a }));
    let fb = trunc_div(b * 256, 256 + (if b < 0 { -b } else { b }));
    if a >= 0 {
        lemma_squash_monotone(a, b);
        assert(fa == (256 * a) / (256 + a));
        assert(fb == (256 * b) / (256 + b));
    } else if b >= 0 {
        lemma_squash_monotone(0, -a);
        lemma_squash_monotone(0, b);
        assert(fa == -((256 * (-a)) / (256 + (-a))));
        assert(fb == (256 * b) / (256 + b));
    } else {
        lemma_squash_monotone(-b, -a);
        assert(fa == -((256 * (-a)) / (256 + (-a))));
        assert(fb == -((256 * (-b)) / (256 + (-b))));
    }
    assert(fa <= fb);
    vstd::arithmetic::div_mod::lemma_div_is_ordered(128 * fa, 128 * fb, 256);
}

// ---------------------------------------------------------------------------
// Xorshift32
// ---------------------------------------------------------------------------

/// One step of the 32-bit xorshift generator (shifts 13, 17, 5).
pub open spec fn xorshift_step(x: u32) -> u32 {
    let a = x ^ (x << 13u32);
    let b = a ^ (a >> 17u32);
    b ^ (b << 5u32)
}

/// Zero is the one fixed point of xorshift: a nonzero state never reaches it.
pub proof fn lemma_xorshift_never_zero(x: u32)
    requires
        x != 0,
    ensures
        xorshift_step(x) != 0,
{
    let a = x ^ (x << 13u32);
    let b = a ^ (a >> 17u32);
    assert(x != 0 ==> a != 0) by (bit_vector)
        requires
            a == x ^ (x << 13u32),
    ;
    assert(a != 0 ==> b != 0) by (bit_vector)
        requires
            b == a ^ (a >> 17u32),
    ;
    assert(b != 0 ==> b ^ (b << 5u32) != 0) by (bit_vector);
}

/// The state a seed starts from: a zero seed is lifted to 1.
pub open spec fn seeded_state(seed: u32) -> u32 {
    if seed == 0 {
        1
    } else {
        seed
    }
}

/// The state (and output) after `k` steps from `x`.
pub open spec fn xorshift_iter(x: u32, k: nat) -> u32
    decreases k,
{
    if k == 0 {
        x
    } else {
        xorshift_step(xorshift_iter(x, (k - 1) as nat))
    }
}

/// Same seed, same sequence: the k-th output of a generator made with
/// `new(seed)` is `xorshift_iter(seeded_state(seed), k)`, a function of the
/// seed alone, and never zero. Seed 0 behaves as seed 1, whose first output
/// is 270369.
pub proof fn lemma_same_seed_same_sequence(seed: u32, k: nat)
    ensures
        k >= 1 ==> xorshift_iter(seeded_state(seed), k) != 0,
        seeded_state(0) == seeded_state(1),
        xorshift_iter(seeded_state(1), 1) == 270369,
    decreases k,
{
    if k >= 1 {
        lemma_same_seed_same_sequence(seed, (k - 1) as nat);
        lemma_xorshift_never_zero(xorshift_iter(seeded_state(seed), (k - 1) as nat));
    }
    let one: u32 = 1;
    let a = one ^ (one << 13u32);
    let b = a ^ (a >> 17u32);
    assert(b ^ (b << 5u32) == 270369) by (bit_vector)
        requires
            one == 1,
            a == one ^ (one << 13u32),
            b == a ^ (a >> 17u32),
    ;
    assert(xorshift_iter(1, 0) == 1);
}

/// 32-bit xorshift PRNG with bounded Q8.8 noise output: the only source of
/// stochasticity in the whole being.
#[derive(Clone, Copy)]
pub struct Xorshift32 {
    state: u32,
}

impl Xorshift32 {
    #[verifier::type_invariant]
    spec fn state_nonzero(self) -> bool {
        self.state != 0
    }

    pub closed spec fn spec_state(self) -> u32 {
        self.state
    }

    /// A generator seeded with `seed`; a zero seed is lifted to 1, so the
    /// generator never sits at its zero fixed point.
    pub fn new(seed: u32) -> (r: Xorshift32)
        ensures
            r.spec_state() == seeded_state(seed),
            r.spec_state() != 0,
    {
        let s = if seed < 1 {
            1
        } else {
            seed
        };
        Xorshift32 { state: s }
    }

    pub fn next_u32(&mut self) -> (r: u32)
        ensures
            r == xorshift_step(old(self).spec_state()),
            final(self).spec_state() == r,
            r != 0,
    {
        proof {
            use_type_invariant(&*self);
            lemma_xorshift_never_zero(self.state);
        }
        let mut x = self.state;
        x = x ^ (x << 13u32);
        x = x ^ (x >> 17u32);
        x = x ^ (x << 5u32);
        self.state = x;
        x
    }

    /// Bounded noise in raw Q8.8, within +/- `amplitude` raw units.
    /// A non-positive amplitude gives 0 and leaves the generator untouched.
    pub fn noise(&mut self, amplitude: i16) -> (r: i16)
        ensures
            amplitude <= 0 ==> r == 0 && final(self).spec_state() == old(self).spec_state(),
            amplitude > 0 ==> {
                &&& final(self).spec_state() == xorshift_step(old(self).spec_state())
                &&& r == (final(self).spec_state() % ((2 * amplitude + 1) as u32)) - amplitude
            },
            -amplitude <= r <= amplitude || amplitude <= 0,
    {
        if amplitude <= 0 {
            return 0;
        }
        let span: i32 = (amplitude as i32) * 2 + 1;
        let n = self.next_u32();
        let m = n % (span as u32);
        let r: i32 = m as i32 - amplitude as i32;
        r as i16
    }
}

} // verus!
