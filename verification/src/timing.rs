//! Time bases and timestamps: frame rates, presentation timestamps and their
//! conversion from one time base to another.

use vstd::prelude::*;
use vstd::arithmetic::div_mod::lemma_div_is_ordered;
use vstd::arithmetic::div_mod::lemma_div_pos_is_pos;
use vstd::arithmetic::div_mod::lemma_fundamental_div_mod_converse;

verus! {

/// A rational number: a frame rate in frames per second, or a time base, the
/// length of one tick of a timestamp in seconds.
#[derive(Clone, Copy, Debug, PartialEq, Eq, Structural)]
pub struct Rational {
    pub num: i32,
    pub den: i32,
}

/// The numerator of the frame rate that is taken where the input reports none.
pub const DEFAULT_RATE_NUM: i32 = 30;

/// The denominator of the frame rate that is taken where the input reports none.
pub const DEFAULT_RATE_DEN: i32 = 1;

impl Rational {
    /// Numerator and denominator are both greater than zero.
    pub open spec fn positive(self) -> bool {
        self.num > 0 && self.den > 0
    }

    /// The reciprocal: numerator and denominator exchanged.
    pub open spec fn inverse(self) -> Rational {
        Rational { num: self.den, den: self.num }
    }

    pub fn new(num: i32, den: i32) -> (r: Rational)
        ensures
            r == (Rational { num, den }),
    {
        Rational { num, den }
    }

    /// Whether numerator and denominator are both greater than zero.
    pub fn is_positive(&self) -> (r: bool)
        ensures
            r == self.positive(),
    {
        self.num > 0 && self.den > 0
    }

    /// The reciprocal of the number.
    pub fn reciprocal(&self) -> (r: Rational)
        ensures
            r == self.inverse(),
            r.positive() == self.positive(),
    {
        Rational { num: self.den, den: self.num }
    }
}

/// The frame rate of a video: the rate that the input reports where that is a
/// positive number, and 30 frames per second where it reports none. A rate
/// that is not positive counts as none.
pub open spec fn nominal_rate(reported: Option<Rational>) -> Rational {
    match reported {
        Some(rate) => if rate.positive() {
            rate
        } else {
            Rational { num: DEFAULT_RATE_NUM, den: DEFAULT_RATE_DEN }
        },
        None => Rational { num: DEFAULT_RATE_NUM, den: DEFAULT_RATE_DEN },
    }
}

/// The frame rate of a video whose input reports `reported`.
pub fn frame_rate_or_default(reported: Option<Rational>) -> (rate: Rational)
    ensures
        rate == nominal_rate(reported),
        rate.positive(),
{
    match reported {
        Some(rate) => if rate.is_positive() {
            rate
        } else {
            Rational { num: DEFAULT_RATE_NUM, den: DEFAULT_RATE_DEN }
        },
        None => Rational { num: DEFAULT_RATE_NUM, den: DEFAULT_RATE_DEN },
    }
}

/// The time base of an encoder that runs at `rate`: one tick per frame.
pub fn encoder_time_base(rate: Rational) -> (time_base: Rational)
    ensures
        time_base == rate.inverse(),
        rate.positive() ==> time_base.positive(),
{
    rate.reciprocal()
}

/// The presentation timestamp of the frame with the given zero-based index, in
/// the encoder's time base: the index itself. The timestamps of a video rise
/// by one from frame to frame, without a gap, whatever the input's timestamps.
pub fn assign_pts(index: u64) -> (pts: i64)
    requires
        index <= i64::MAX,
    ensures
        pts == index,
{
    index as i64
}

/// A timestamp of `ts` ticks of `from`, counted in ticks of `to`: the product
/// `ts * from / to`, rounded to the nearest integer and away from zero where
/// two are equally near.
pub open spec fn rescaled(ts: int, from: Rational, to: Rational) -> int {
    let a = ts * (from.num * to.den);
    let b = from.den * to.num;
    if a >= 0 {
        (a + b / 2) / b
    } else {
        -((-a + b / 2) / b)
    }
}

/// The converted timestamp as a 64-bit value: nothing where a time base is
/// not positive or where the converted timestamp does not fit.
pub open spec fn rescaled_i64(ts: i64, from: Rational, to: Rational) -> Option<i64> {
    if from.positive() && to.positive() && i64::MIN <= rescaled(ts as int, from, to) <= i64::MAX {
        Some(rescaled(ts as int, from, to) as i64)
    } else {
        None
    }
}

/// Converts a timestamp from one time base to another. Gives nothing where a
/// time base is not positive or where the result does not fit in 64 bits.
pub fn rescale(ts: i64, from: Rational, to: Rational) -> (r: Option<i64>)
    ensures
        r == rescaled_i64(ts, from, to),
{
    if !from.is_positive() || !to.is_positive() {
        return None;
    }
    assert(0 < from.num * to.den <= 0x7fff_ffff * 0x7fff_ffff && 0 < from.den * to.num
        <= 0x7fff_ffff * 0x7fff_ffff) by (nonlinear_arith)
        requires
            0 < from.num <= 0x7fff_ffff,
            0 < to.den <= 0x7fff_ffff,
            0 < from.den <= 0x7fff_ffff,
            0 < to.num <= 0x7fff_ffff,
    ;
    let m: i128 = from.num as i128 * to.den as i128;
    let b: i128 = from.den as i128 * to.num as i128;
    assert(-0x8000_0000_0000_0000 * (0x7fff_ffff * 0x7fff_ffff) <= ts * m
        <= 0x8000_0000_0000_0000 * (0x7fff_ffff * 0x7fff_ffff)) by (nonlinear_arith)
        requires
            -0x8000_0000_0000_0000 <= ts <= 0x8000_0000_0000_0000,
            0 < m <= 0x7fff_ffff * 0x7fff_ffff,
    ;
    let a: i128 = ts as i128 * m;
    let q: i128 = if a >= 0 {
        proof {
            lemma_div_pos_is_pos(a + b / 2, b as int);
        }
        (a + b / 2) / b
    } else {
        proof {
            lemma_div_pos_is_pos(-a + b / 2, b as int);
        }
        -((-a + b / 2) / b)
    };
    if q < i64::MIN as i128 || q > i64::MAX as i128 {
        None
    } else {
        Some(q as i64)
    }
}

/// The two timestamps of a packet: when it is shown and when it is decoded.
#[derive(Clone, Copy, Debug, PartialEq, Eq, Structural)]
pub struct Timestamps {
    pub pts: i64,
    pub dts: i64,
}

impl Timestamps {
    /// The timestamps of a packet of a stream without reordered frames: the
    /// packet is decoded when it is shown.
    pub fn of_frame(pts: i64) -> (t: Timestamps)
        ensures
            t.pts == pts,
            t.dts == pts,
    {
        Timestamps { pts, dts: pts }
    }

    /// Converts both timestamps from the encoder's time base to the output
    /// stream's. Gives nothing where `rescale` gives nothing for one of them.
    /// Timestamps that were equal before are equal afterwards.
    pub fn rescale_ts(&self, from: Rational, to: Rational) -> (r: Option<Timestamps>)
        ensures
            r == (match (rescaled_i64(self.pts, from, to), rescaled_i64(self.dts, from, to)) {
                (Some(pts), Some(dts)) => Some(Timestamps { pts, dts }),
                _ => None::<Timestamps>,
            }),
            r matches Some(t) ==> (self.dts == self.pts ==> t.dts == t.pts),
    {
        match (rescale(self.pts, from, to), rescale(self.dts, from, to)) {
            (Some(pts), Some(dts)) => Some(Timestamps { pts, dts }),
            _ => None,
        }
    }
}

/// Presentation timestamps rise strictly: a later frame has a greater
/// timestamp, and the next frame's timestamp is greater by exactly one.
pub proof fn lemma_pts_strictly_increasing(first: u64, second: u64)
    requires
        first < second <= i64::MAX,
    ensures
        (first as i64) < (second as i64),
        second == first + 1 ==> (second as i64) == (first as i64) + 1,
{
}

/// Between equal time bases a timestamp is converted to itself.
pub proof fn lemma_rescale_same_base(ts: int, base: Rational)
    requires
        base.positive(),
    ensures
        rescaled(ts, base, base) == ts,
{
    let m = base.num * base.den;
    let b = base.den * base.num;
    assert(m == b && b > 0) by (nonlinear_arith)
        requires
            m == base.num * base.den,
            b == base.den * base.num,
            base.num > 0,
            base.den > 0,
    ;
    if ts * m >= 0 {
        assert(ts >= 0) by (nonlinear_arith)
            requires
                ts * m >= 0,
                m > 0,
        ;
        assert(ts * m + b / 2 == b * ts + b / 2) by (nonlinear_arith)
            requires
                m == b,
        ;
        lemma_fundamental_div_mod_converse(ts * m + b / 2, b, ts, b / 2);
    } else {
        assert(ts < 0) by (nonlinear_arith)
            requires
                ts * m < 0,
                m > 0,
        ;
        assert(-(ts * m) + b / 2 == b * (-ts) + b / 2) by (nonlinear_arith)
            requires
                m == b,
        ;
        lemma_fundamental_div_mod_converse(-(ts * m) + b / 2, b, -ts, b / 2);
    }
}

/// Conversion keeps the order of timestamps: a later timestamp is not
/// converted to an earlier one.
pub proof fn lemma_rescale_monotonic(first: int, second: int, from: Rational, to: Rational)
    requires
        first <= second,
        from.positive(),
        to.positive(),
    ensures
        rescaled(first, from, to) <= rescaled(second, from, to),
{
    let m = from.num * to.den;
    let b = from.den * to.num;
    assert(m > 0 && b > 0) by (nonlinear_arith)
        requires
            m == from.num * to.den,
            b == from.den * to.num,
            from.num > 0,
            from.den > 0,
            to.num > 0,
            to.den > 0,
    ;
    let a1 = first * m;
    let a2 = second * m;
    assert(a1 <= a2) by (nonlinear_arith)
        requires
            a1 == first * m,
            a2 == second * m,
            first <= second,
            m > 0,
    ;
    if a1 >= 0 {
        lemma_div_is_ordered(a1 + b / 2, a2 + b / 2, b);
    } else if a2 >= 0 {
        lemma_div_pos_is_pos(-a1 + b / 2, b);
        lemma_div_pos_is_pos(a2 + b / 2, b);
    } else {
        lemma_div_is_ordered(-a2 + b / 2, -a1 + b / 2, b);
    }
}

} // verus!
