//! Double-precision numbers held by their bit pattern.
//!
//! A [`Float`] carries the 64 bits of an IEEE 754 binary64 value. Its order
//! is the numeric one: the two zeros are equal, and a NaN is unordered with
//! everything, itself included. For values that are not NaN the order is that
//! of [`Float::key`], the magnitude bits taken with the sign.

use vstd::prelude::*;
use vstd::arithmetic::power2::{lemma2_to64, lemma_pow2_unfold, pow2};
use std::cmp::Ordering;

verus! {

/// The sign bit of a binary64 value.
pub const SIGN_BIT: u64 = 0x8000_0000_0000_0000;

/// The bits of positive infinity: every magnitude above it is a NaN.
pub const INFINITY_BITS: u64 = 0x7FF0_0000_0000_0000;

/// The bits of the largest finite value.
pub const MAX_BITS: u64 = 0x7FEF_FFFF_FFFF_FFFF;

/// The bits of the smallest (most negative) finite value.
pub const MIN_BITS: u64 = 0xFFEF_FFFF_FFFF_FFFF;

/// The bits of `1.0`.
pub const ONE_BITS: u64 = 0x3FF0_0000_0000_0000;

/// A binary64 number, by its bits.
#[derive(Clone, Copy, Debug)]
pub struct Float {
    pub bits: u64,
}

impl Float {
    /// The bits without the sign.
    pub open spec fn magnitude(self) -> int {
        if self.bits >= SIGN_BIT {
            self.bits - SIGN_BIT
        } else {
            self.bits as int
        }
    }

    /// Whether the value is a NaN.
    pub open spec fn nan(self) -> bool {
        self.magnitude() > INFINITY_BITS
    }

    /// The integer that orders the value among those that are not NaN.
    pub open spec fn key(self) -> int {
        if self.bits >= SIGN_BIT {
            -(self.bits - SIGN_BIT)
        } else {
            self.bits as int
        }
    }

    /// Numerically smaller; false when either side is a NaN.
    pub open spec fn num_lt(self, other: Float) -> bool {
        !self.nan() && !other.nan() && self.key() < other.key()
    }

    /// Numerically smaller or equal; false when either side is a NaN.
    pub open spec fn num_le(self, other: Float) -> bool {
        !self.nan() && !other.nan() && self.key() <= other.key()
    }

    /// Numerically equal; false when either side is a NaN.
    pub open spec fn num_eq(self, other: Float) -> bool {
        !self.nan() && !other.nan() && self.key() == other.key()
    }

    /// The value with the given bits.
    pub fn from_bits(bits: u64) -> (r: Float)
        ensures
            r.bits == bits,
    {
        Float { bits }
    }

    /// The bits of the value.
    pub fn to_bits(&self) -> (r: u64)
        ensures
            r == self.bits,
    {
        self.bits
    }

    /// The largest finite value.
    pub fn max_value() -> (r: Float)
        ensures
            r.bits == MAX_BITS,
    {
        Float { bits: MAX_BITS }
    }

    /// The smallest finite value.
    pub fn min_value() -> (r: Float)
        ensures
            r.bits == MIN_BITS,
    {
        Float { bits: MIN_BITS }
    }

    /// `1.0` for true and `0.0` for false.
    pub fn from_bool(b: bool) -> (r: Float)
        ensures
            r.bits == if b { ONE_BITS } else { 0 },
    {
        if b {
            Float { bits: ONE_BITS }
        } else {
            Float { bits: 0 }
        }
    }

    /// Whether the value is a NaN.
    #[verifier::when_used_as_spec(nan)]
    pub fn is_nan(self) -> (r: bool)
        ensures
            r == self.nan(),
    {
        if self.bits >= SIGN_BIT {
            self.bits - SIGN_BIT > INFINITY_BITS
        } else {
            self.bits > INFINITY_BITS
        }
    }

    /// The ordering key as a machine integer.
    pub fn order_key(self) -> (r: i64)
        ensures
            r == self.key(),
    {
        if self.bits >= SIGN_BIT {
            let m: u64 = self.bits - SIGN_BIT;
            let k: i64 = m as i64;
            -k
        } else {
            self.bits as i64
        }
    }
}

/// The smallest integer that no longer fits the 53 significant bits.
pub const SIGNIFICAND_LIMIT: u64 = 0x0020_0000_0000_0000;

/// The leading bit of a full significand.
pub const SIGNIFICAND_TOP: u64 = 0x0010_0000_0000_0000;

/// A significand under reduction: `q` times two to the `e - 1075` is the
/// number, up to the bits dropped. `round` is the last bit dropped and
/// `sticky` tells whether a bit dropped before it was set.
pub struct Reduction {
    pub q: nat,
    pub e: nat,
    pub round: bool,
    pub sticky: bool,
}

/// Halves the significand until it fits 53 bits.
pub open spec fn narrowed(r: Reduction) -> Reduction
    decreases r.q,
{
    if r.q >= SIGNIFICAND_LIMIT {
        narrowed(
            Reduction {
                q: r.q / 2,
                e: r.e + 1,
                round: r.q % 2 == 1,
                sticky: r.sticky || r.round,
            },
        )
    } else {
        r
    }
}

/// Doubles a significand that is not zero until its leading bit is the 53rd.
pub open spec fn widened(r: Reduction) -> Reduction
    decreases
        (if r.q < SIGNIFICAND_TOP {
            SIGNIFICAND_TOP - r.q
        } else {
            0
        }),
{
    if 0 < r.q < SIGNIFICAND_TOP && r.e > 0 {
        widened(Reduction { q: r.q * 2, e: (r.e - 1) as nat, ..r })
    } else {
        r
    }
}

/// The bits of the double nearest to the natural number `m`; of two that
/// are equally near, the one whose last bit is zero.
pub open spec fn bits_of_magnitude(m: nat) -> int {
    if m == 0 {
        0
    } else {
        let r = widened(narrowed(Reduction { q: m, e: 1075, round: false, sticky: false }));
        let up: int = if r.round && (r.sticky || r.q % 2 == 1) {
            1
        } else {
            0
        };
        r.e * SIGNIFICAND_TOP + (r.q - SIGNIFICAND_TOP) + up
    }
}

impl Float {
    /// The double nearest to the integer `v`, ties to even: what a cast of
    /// the integer to a double gives.
    pub open spec fn of_int(v: int) -> Float {
        if v < 0 {
            Float { bits: (SIGN_BIT + bits_of_magnitude((-v) as nat)) as u64 }
        } else {
            Float { bits: bits_of_magnitude(v as nat) as u64 }
        }
    }

    /// The double nearest to the integer `v`.
    pub fn from_i64(v: i64) -> (r: Float)
        ensures
            r == Float::of_int(v as int),
            !r.nan(),
    {
        if v == 0 {
            return Float { bits: 0 };
        }
        let m: u64 = if v < 0 {
            if v == i64::MIN {
                SIGN_BIT
            } else {
                (-v) as u64
            }
        } else {
            v as u64
        };
        let mut q: u64 = m;
        let mut e: u64 = 1075;
        let mut round: bool = false;
        let mut sticky: bool = false;
        let ghost start = Reduction { q: m as nat, e: 1075, round: false, sticky: false };
        let mut k: u64 = 0;
        assert((u64::MAX >> 0u64) == u64::MAX) by (bit_vector);
        while q >= SIGNIFICAND_LIMIT
            invariant
                narrowed(Reduction { q: q as nat, e: e as nat, round, sticky }) == narrowed(start),
                e == 1075 + k,
                k <= 11,
                q <= (u64::MAX >> k),
                q >= 1,
                k > 0 ==> q >= SIGNIFICAND_TOP,
            decreases q,
        {
            assert(k <= 10 && (q / 2) <= (u64::MAX >> ((k + 1) as u64)) && q / 2
                >= 0x0010_0000_0000_0000u64) by (bit_vector)
                requires
                    q >= 0x0020_0000_0000_0000u64,
                    q <= (u64::MAX >> k),
                    k <= 63,
            ;
            sticky = sticky || round;
            round = q % 2 == 1;
            q = q / 2;
            e = e + 1;
            k = k + 1;
        }
        let ghost mid = Reduction { q: q as nat, e: e as nat, round, sticky };
        let mut j: u64 = 0;
        assert(q >= (1u64 << 0u64)) by (bit_vector)
            requires
                q >= 1,
        ;
        while q < SIGNIFICAND_TOP
            invariant
                widened(Reduction { q: q as nat, e: e as nat, round, sticky }) == widened(mid),
                1075 <= e + j,
                e + j <= 1075 + 11,
                e >= 1023,
                j <= 63,
                q >= (1u64 << j),
                q < SIGNIFICAND_LIMIT,
                q < SIGNIFICAND_TOP ==> e + j == 1075,
                q >= 1,
            decreases
                (if q < SIGNIFICAND_TOP {
                    SIGNIFICAND_TOP - q
                } else {
                    0
                }),
        {
            assert(j < 52 && q * 2 >= (1u64 << ((j + 1) as u64)) && q * 2
                < 0x0020_0000_0000_0000u64) by (bit_vector)
                requires
                    q >= (1u64 << j),
                    q < 0x0010_0000_0000_0000u64,
                    j <= 63,
            ;
            q = q * 2;
            e = e - 1;
            j = j + 1;
        }
        let up: u64 = if round && (sticky || q % 2 == 1) {
            1
        } else {
            0
        };
        let magnitude: u64 = e * SIGNIFICAND_TOP + (q - SIGNIFICAND_TOP) + up;
        assert(magnitude <= INFINITY_BITS);
        if v < 0 {
            Float { bits: SIGN_BIT + magnitude }
        } else {
            Float { bits: magnitude }
        }
    }
}

impl Float {
    /// The exponent field of the value.
    pub open spec fn exponent(self) -> int {
        self.magnitude() / (SIGNIFICAND_TOP as int)
    }

    /// The fraction field of the value.
    pub open spec fn fraction(self) -> int {
        self.magnitude() % (SIGNIFICAND_TOP as int)
    }

    /// The magnitude of a normal number that is one or more, times two to
    /// the 52nd: the significand with its leading bit, shifted by the
    /// exponent.
    pub open spec fn scaled(self) -> int {
        (SIGNIFICAND_TOP + self.fraction()) * pow2((self.exponent() - 1023) as nat)
    }
}

/// Doubling a significand until its leading bit is the 53rd keeps the
/// number that it stands for.
proof fn lemma_widened(r: Reduction)
    requires
        0 < r.q < SIGNIFICAND_LIMIT,
        1023 <= r.e <= 1075,
        r.q >= pow2((1075 - r.e) as nat),
    ensures
        SIGNIFICAND_TOP <= widened(r).q < SIGNIFICAND_LIMIT,
        1023 <= widened(r).e <= r.e,
        widened(r).q * pow2((widened(r).e - 1023) as nat) == r.q * pow2((r.e - 1023) as nat),
        widened(r).round == r.round,
        widened(r).sticky == r.sticky,
    decreases
        (if r.q < SIGNIFICAND_TOP {
            SIGNIFICAND_TOP - r.q
        } else {
            0
        }),
{
    lemma2_to64();
    lemma_pow2_53();
    if r.q < SIGNIFICAND_TOP {
        assert(r.e > 1023) by {
            if r.e == 1023 {
                assert(pow2(52) == SIGNIFICAND_TOP);
            }
        }
        let next = Reduction { q: r.q * 2, e: (r.e - 1) as nat, ..r };
        lemma_pow2_unfold((1075 - next.e) as nat);
        lemma_pow2_unfold((r.e - 1023) as nat);
        lemma_widened(next);
        assert(next.q * pow2((next.e - 1023) as nat) == r.q * pow2((r.e - 1023) as nat))
            by (nonlinear_arith)
            requires
                next.q == r.q * 2,
                pow2((r.e - 1023) as nat) == 2 * pow2((next.e - 1023) as nat),
        ;
    }
}

/// Two to the 52nd and to the 53rd.
proof fn lemma_pow2_53()
    ensures
        pow2(52) == SIGNIFICAND_TOP,
        pow2(53) == SIGNIFICAND_LIMIT,
{
    vstd::arithmetic::power2::lemma2_to64_rest();
}

/// Integers of at most 53 bits are converted exactly: the double of such
/// an integer is a normal number whose magnitude is that of the integer,
/// and whose sign is that of the integer.
pub proof fn lemma_small_integers_are_exact(v: int)
    requires
        1 <= v <= SIGNIFICAND_LIMIT,
    ensures
        Float::of_int(v).bits < SIGN_BIT,
        1023 <= Float::of_int(v).exponent() <= 1076,
        Float::of_int(v).scaled() == v * SIGNIFICAND_TOP,
        Float::of_int(-v).bits == SIGN_BIT + Float::of_int(v).bits,
        Float::of_int(0).bits == 0,
{
    lemma2_to64();
    lemma_pow2_53();
    let start = Reduction { q: v as nat, e: 1075, round: false, sticky: false };
    let n = narrowed(start);
    if v == SIGNIFICAND_LIMIT {
        let half = Reduction { q: (v / 2) as nat, e: 1076, round: false, sticky: false };
        assert(narrowed(half) == half);
        assert(n == half);
        assert(widened(n) == n);
        let bits = bits_of_magnitude(v as nat);
        assert(bits == 1076 * SIGNIFICAND_TOP);
        assert(bits / (SIGNIFICAND_TOP as int) == 1076 && bits % (SIGNIFICAND_TOP as int) == 0);
        let f = Float::of_int(v);
        assert(f.magnitude() == bits);
        assert(f.scaled() == SIGNIFICAND_TOP * pow2(53));
    } else {
        assert(n == start);
        assert(pow2(0) == 1);
        lemma_widened(n);
        let w = widened(n);
        let bits = bits_of_magnitude(v as nat);
        assert(bits == w.e * SIGNIFICAND_TOP + (w.q - SIGNIFICAND_TOP));
        assert(bits / (SIGNIFICAND_TOP as int) == w.e && bits % (SIGNIFICAND_TOP as int) == w.q
            - SIGNIFICAND_TOP) by {
            vstd::arithmetic::div_mod::lemma_fundamental_div_mod_converse(
                bits,
                SIGNIFICAND_TOP as int,
                w.e as int,
                w.q - SIGNIFICAND_TOP,
            );
        }
        assert(pow2(52) == SIGNIFICAND_TOP);
        assert(v * pow2(52) == w.q * pow2((w.e - 1023) as nat));
        assert(0 <= bits < SIGN_BIT) by (nonlinear_arith)
            requires
                bits == w.e * SIGNIFICAND_TOP + (w.q - SIGNIFICAND_TOP),
                1023 <= w.e <= 1075,
                SIGNIFICAND_TOP <= w.q < SIGNIFICAND_LIMIT,
        ;
        let f = Float::of_int(v);
        assert(f.bits == bits);
        assert(f.magnitude() == bits);
        assert(f.exponent() == w.e);
        assert(f.fraction() == w.q - SIGNIFICAND_TOP);
        assert(f.scaled() == w.q * pow2((w.e - 1023) as nat));
    }
}

impl PartialEq for Float {
    fn eq(&self, other: &Float) -> (r: bool) {
        !self.is_nan() && !other.is_nan() && self.order_key() == other.order_key()
    }
}

impl vstd::std_specs::cmp::PartialEqSpecImpl for Float {
    open spec fn obeys_eq_spec() -> bool {
        true
    }

    open spec fn eq_spec(&self, other: &Float) -> bool {
        self.num_eq(*other)
    }
}

impl PartialOrd for Float {
    fn partial_cmp(&self, other: &Float) -> (r: Option<Ordering>) {
        if self.is_nan() || other.is_nan() {
            None
        } else {
            let a: i64 = self.order_key();
            let b: i64 = other.order_key();
            if a < b {
                Some(Ordering::Less)
            } else if a > b {
                Some(Ordering::Greater)
            } else {
                Some(Ordering::Equal)
            }
        }
    }
}

impl vstd::std_specs::cmp::PartialOrdSpecImpl for Float {
    open spec fn obeys_partial_cmp_spec() -> bool {
        true
    }

    open spec fn partial_cmp_spec(&self, other: &Float) -> Option<Ordering> {
        if self.nan() || other.nan() {
            None
        } else if self.key() < other.key() {
            Some(Ordering::Less)
        } else if self.key() > other.key() {
            Some(Ordering::Greater)
        } else {
            Some(Ordering::Equal)
        }
    }
}

} // verus!
