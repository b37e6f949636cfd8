//! Frame rates, time bases, and the mapping from elapsed wall-clock time to frame slots.
//!
//! An output stream of constant frame rate divides time into slots of `1 / fps` seconds.
//! A frame captured `elapsed` milliseconds after the first one belongs to the slot nearest
//! to `elapsed * fps / 1000`. Frame rates are exact ratios, so that rates such as
//! 30000/1001 lose nothing, and every quantity here is an integer.

use vstd::prelude::*;
use vstd::arithmetic::div_mod::lemma_fundamental_div_mod;
use vstd::arithmetic::div_mod::lemma_fundamental_div_mod_converse;

verus! {

/// The integer nearest to the fraction `n / d`, where `d > 0`. A fraction exactly half
/// way between two integers goes to the one farther from zero.
pub open spec fn round_div(n: int, d: int) -> int {
    if n >= 0 {
        (2 * n + d) / (2 * d)
    } else {
        -((2 * (-n) + d) / (2 * d))
    }
}

/// `x` brought into the range of `i64`: values beyond either end become that end.
pub open spec fn saturate_i64(x: int) -> int {
    if x < i64::MIN {
        i64::MIN as int
    } else if x > i64::MAX {
        i64::MAX as int
    } else {
        x
    }
}

/// The frame slot of an instant `elapsed_ms` milliseconds after the start of a stream of
/// `num / den` frames per second: `elapsed_ms * (num / den) / 1000` rounded to the nearest
/// integer, kept within the range of a 64-bit timestamp.
pub open spec fn slot_of(num: int, den: int, elapsed_ms: int) -> int {
    saturate_i64(round_div(elapsed_ms * num, 1000 * den))
}

/// `round_div(n, d)` is within half a unit of `n / d`: twice the distance between `n` and
/// `round_div(n, d) * d` is at most `d`. Where it is exactly `d`, the rounded value is the
/// one of the two candidates that is farther from zero.
pub proof fn lemma_round_div_is_nearest(n: int, d: int)
    requires
        d > 0,
    ensures
        -d <= 2 * (n - round_div(n, d) * d) <= d,
        n >= 0 ==> 2 * (n - round_div(n, d) * d) < d,
        n < 0 ==> -d < 2 * (n - round_div(n, d) * d),
        n >= 0 ==> round_div(n, d) >= 0,
        n < 0 ==> round_div(n, d) <= 0,
{
    let m = if n >= 0 { n } else { -n };
    let q = (2 * m + d) / (2 * d);
    let r = (2 * m + d) % (2 * d);
    lemma_fundamental_div_mod(2 * m + d, 2 * d);
    assert(2 * m + d == (2 * d) * q + r);
    assert(0 <= r < 2 * d);
    assert((2 * d) * q == 2 * (q * d)) by (nonlinear_arith);
    assert(q >= 0) by (nonlinear_arith)
        requires
            2 * m + d == (2 * d) * q + r,
            0 <= r < 2 * d,
            m >= 0,
            d > 0,
    ;
    if n < 0 {
        assert((-q) * d == -(q * d)) by (nonlinear_arith);
    }
}

/// A numerator that is an exact multiple of the denominator rounds to the quotient.
pub proof fn lemma_round_div_exact(k: int, d: int)
    requires
        d > 0,
    ensures
        round_div(k * d, d) == k,
{
    if k >= 0 {
        assert(k * d >= 0) by (nonlinear_arith)
            requires
                k >= 0,
                d > 0,
        ;
        assert(2 * (k * d) + d == k * (2 * d) + d) by (nonlinear_arith);
        lemma_fundamental_div_mod_converse(2 * (k * d) + d, 2 * d, k, d);
    } else {
        assert(k * d < 0) by (nonlinear_arith)
            requires
                k < 0,
                d > 0,
        ;
        assert(-(k * d) == (-k) * d) by (nonlinear_arith);
        assert(2 * ((-k) * d) + d == (-k) * (2 * d) + d) by (nonlinear_arith);
        lemma_fundamental_div_mod_converse(2 * ((-k) * d) + d, 2 * d, -k, d);
    }
}

/// `round_div` never decreases when the numerator grows.
pub proof fn lemma_round_div_monotonic(a: int, b: int, d: int)
    requires
        d > 0,
        a <= b,
    ensures
        round_div(a, d) <= round_div(b, d),
{
    lemma_round_div_is_nearest(a, d);
    lemma_round_div_is_nearest(b, d);
    let qa = round_div(a, d);
    let qb = round_div(b, d);
    if qa > qb {
        // The two rounded values lie at least `d` apart, but `a` is within `d / 2` of the
        // larger and `b`, which is not smaller than `a`, within `d / 2` of the smaller; and
        // where both distances are exactly `d / 2` the two ties went opposite ways.
        assert(qa * d >= qb * d + d) by (nonlinear_arith)
            requires
                qa >= qb + 1,
                d > 0,
        ;
    }
}

/// A later instant never falls into an earlier slot.
pub proof fn lemma_slot_monotonic(num: int, den: int, earlier_ms: int, later_ms: int)
    requires
        num > 0,
        den > 0,
        earlier_ms <= later_ms,
    ensures
        slot_of(num, den, earlier_ms) <= slot_of(num, den, later_ms),
{
    assert(earlier_ms * num <= later_ms * num) by (nonlinear_arith)
        requires
            num > 0,
            earlier_ms <= later_ms,
    ;
    lemma_round_div_monotonic(earlier_ms * num, later_ms * num, 1000 * den);
}

/// An instant that lies a whole number of frame slots after the start falls into the slot
/// of that number, where the number fits a 64-bit timestamp.
pub proof fn lemma_slot_exact(num: int, den: int, elapsed_ms: int, slots: int)
    requires
        num > 0,
        den > 0,
        i64::MIN <= slots <= i64::MAX,
        elapsed_ms * num == slots * (1000 * den),
    ensures
        slot_of(num, den, elapsed_ms) == slots,
{
    lemma_round_div_exact(slots, 1000 * den);
}

/// A frame rate: `num / den` frames per second, both positive.
#[derive(Clone, Copy, Debug, PartialEq, Eq, Structural)]
pub struct FrameRate {
    num: i32,
    den: i32,
}

/// The unit in which a stream counts its timestamps: `num / den` seconds.
#[derive(Clone, Copy, Debug, PartialEq, Eq, Structural)]
pub struct TimeBase {
    pub num: i32,
    pub den: i32,
}

impl FrameRate {
    #[verifier::type_invariant]
    spec fn positive(self) -> bool {
        self.num > 0 && self.den > 0
    }

    /// The numerator of the rate.
    pub closed spec fn num(self) -> int {
        self.num as int
    }

    /// The denominator of the rate.
    pub closed spec fn den(self) -> int {
        self.den as int
    }

    /// A value is a frame rate when both its parts are positive. Every `FrameRate` that
    /// executable code holds is one.
    pub open spec fn wf(self) -> bool {
        0 < self.num() <= i32::MAX && 0 < self.den() <= i32::MAX
    }

    /// The rate `num / den`, or nothing where either part is zero or negative.
    pub fn new(num: i32, den: i32) -> (rate: Option<FrameRate>)
        ensures
            rate is Some <==> num > 0 && den > 0,
            rate matches Some(r) ==> r.num() == num && r.den() == den && r.wf(),
    {
        if num > 0 && den > 0 {
            Some(FrameRate { num, den })
        } else {
            None
        }
    }

    /// The numerator of the rate.
    pub fn numerator(&self) -> (n: i32)
        ensures
            n == self.num(),
            self.wf(),
    {
        proof {
            use_type_invariant(self);
        }
        self.num
    }

    /// The denominator of the rate.
    pub fn denominator(&self) -> (d: i32)
        ensures
            d == self.den(),
            self.wf(),
    {
        proof {
            use_type_invariant(self);
        }
        self.den
    }

    /// The number of whole frames in one second: the rate rounded down.
    pub fn whole_frames_per_second(&self) -> (n: u32)
        ensures
            n == self.num() / self.den(),
    {
        proof {
            use_type_invariant(self);
        }
        let n: i32 = self.num / self.den;
        n as u32
    }

    /// The duration of one frame slot, `den / num` seconds: the time base in which a stream
    /// of this rate counts one per frame.
    pub fn time_base(&self) -> (tb: TimeBase)
        ensures
            tb.num == self.den(),
            tb.den == self.num(),
    {
        TimeBase { num: self.den, den: self.num }
    }

    /// The slot of a frame captured at `now_ms`, in a stream whose first frame was
    /// captured at `start_ms`. A frame from before the start gets a slot below or at zero.
    pub fn slot_after(&self, start_ms: u64, now_ms: u64) -> (slot: i64)
        ensures
            slot == slot_of(self.num(), self.den(), now_ms - start_ms),
    {
        proof {
            use_type_invariant(self);
        }
        let before: bool = now_ms < start_ms;
        let span: u64 = if before {
            start_ms - now_ms
        } else {
            now_ms - start_ms
        };
        let rate: u128 = self.num as u128;
        let unit: u128 = 1000 * (self.den as u128);
        assert((span as int) * (rate as int) <= 0xffff_ffff_ffff_ffff * 0x7fff_ffff) by (nonlinear_arith)
            requires
                0 <= span <= 0xffff_ffff_ffff_ffff,
                0 <= rate <= 0x7fff_ffff,
        ;
        let scaled: u128 = (span as u128) * rate;
        let rounded: u128 = (2 * scaled + unit) / (2 * unit);
        proof {
            let elapsed: int = now_ms - start_ms;
            let n: int = elapsed * self.num();
            let d: int = 1000 * self.den();
            assert(d == unit);
            if before {
                assert(-n == (span as int) * (rate as int)) by (nonlinear_arith)
                    requires
                        n == elapsed * self.num(),
                        span == -elapsed,
                        rate == self.num(),
                ;
                assert(n <= 0) by (nonlinear_arith)
                    requires
                        n == elapsed * self.num(),
                        elapsed < 0,
                        self.num() > 0,
                ;
                if n == 0 {
                    assert(false) by (nonlinear_arith)
                        requires
                            n == elapsed * self.num(),
                            n == 0,
                            elapsed < 0,
                            self.num() > 0,
                    ;
                }
                assert(round_div(n, d) == -(rounded as int));
            } else {
                assert(n == (span as int) * (rate as int));
                assert(n >= 0) by (nonlinear_arith)
                    requires
                        n == elapsed * self.num(),
                        elapsed >= 0,
                        self.num() > 0,
                ;
                assert(round_div(n, d) == rounded as int);
            }
        }
        if before {
            if rounded > 0x8000_0000_0000_0000 {
                i64::MIN
            } else if rounded == 0x8000_0000_0000_0000 {
                i64::MIN
            } else {
                -(rounded as i64)
            }
        } else {
            if rounded > 0x7fff_ffff_ffff_ffff {
                i64::MAX
            } else {
                rounded as i64
            }
        }
    }
}

} // verus!
