//! Fixed-point sample arithmetic shared by the audio operations.
//!
//! An audio sample is an `i32` in fixed-point representation: the constant
//! [`SAMPLE_UNIT`] stands for the real amplitude 1.0, so a sample `s`
//! represents the real value `s / SAMPLE_UNIT`. All peak and scaling
//! computations are exact integer arithmetic over this representation.

use vstd::prelude::*;

verus! {

/// Fixed-point representation of the real amplitude 1.0.
pub const SAMPLE_UNIT: i32 = 1048576;

/// The sample sequence as unbounded integers, for specifications.
pub open spec fn to_ints(s: Seq<i32>) -> Seq<int> {
    s.map_values(|x: i32| x as int)
}

/// A widened sample sequence as unbounded integers, for specifications.
pub open spec fn to_ints_wide(s: Seq<i64>) -> Seq<int> {
    s.map_values(|x: i64| x as int)
}

/// Absolute value of a sample.
pub open spec fn abs_val(s: int) -> int {
    if s >= 0 {
        s
    } else {
        -s
    }
}

/// Largest absolute sample value in a buffer; 0 for an empty buffer.
pub open spec fn peak_of(s: Seq<int>) -> int
    decreases s.len(),
{
    if s.len() == 0 {
        0
    } else {
        let rest = peak_of(s.drop_last());
        if abs_val(s.last()) > rest {
            abs_val(s.last())
        } else {
            rest
        }
    }
}

/// `s` scaled by the ratio `num / den`, truncating toward zero,
/// as floating-point scaling of the underlying real amplitudes would.
pub open spec fn scale_val(s: int, num: int, den: int) -> int {
    if s >= 0 {
        (s * num) / den
    } else {
        -((-s * num) / den)
    }
}

/// The peak is never negative.
pub proof fn lemma_peak_nonneg(s: Seq<int>)
    ensures
        peak_of(s) >= 0,
    decreases s.len(),
{
    if s.len() > 0 {
        lemma_peak_nonneg(s.drop_last());
    }
}

/// Every sample's magnitude is bounded by the peak.
pub proof fn lemma_peak_is_bound(s: Seq<int>)
    ensures
        forall|i: int| 0 <= i < s.len() ==> abs_val(s[i]) <= peak_of(s),
    decreases s.len(),
{
    if s.len() > 0 {
        lemma_peak_is_bound(s.drop_last());
        assert forall|i: int| 0 <= i < s.len() implies abs_val(s[i]) <= peak_of(s) by {
            if i < s.len() - 1 {
                assert(s.drop_last()[i] == s[i]);
            }
        }
    }
}

/// A non-empty buffer attains its peak at some index.
pub proof fn lemma_peak_is_attained(s: Seq<int>)
    requires
        s.len() > 0,
    ensures
        exists|i: int| 0 <= i < s.len() && #[trigger] abs_val(s[i]) == peak_of(s),
    decreases s.len(),
{
    if abs_val(s.last()) >= peak_of(s.drop_last()) {
        assert(abs_val(s[s.len() - 1]) == peak_of(s));
    } else {
        lemma_peak_is_attained(s.drop_last());
        let j = choose|j: int|
            0 <= j < s.drop_last().len() && #[trigger] abs_val(s.drop_last()[j]) == peak_of(
                s.drop_last(),
            );
        assert(s.drop_last()[j] == s[j]);
        assert(abs_val(s[j]) == peak_of(s));
    }
}

/// A bound on every sample's magnitude bounds the peak.
pub proof fn lemma_peak_le_bound(s: Seq<int>, b: int)
    requires
        b >= 0,
        forall|i: int| 0 <= i < s.len() ==> #[trigger] abs_val(s[i]) <= b,
    ensures
        peak_of(s) <= b,
    decreases s.len(),
{
    if s.len() > 0 {
        assert(forall|i: int|
            0 <= i < s.drop_last().len() ==> #[trigger] abs_val(s.drop_last()[i]) <= b);
        lemma_peak_le_bound(s.drop_last(), b);
        assert(abs_val(s[s.len() - 1]) <= b);
    }
}

/// Scaling a magnitude at most `den` by `num / den` yields at most `num`.
pub proof fn lemma_scale_bounded(s: int, num: int, den: int)
    requires
        num >= 0,
        den > 0,
        abs_val(s) <= den,
    ensures
        abs_val(scale_val(s, num, den)) <= num,
{
    let m = abs_val(s);
    assert(m * num <= den * num) by (nonlinear_arith)
        requires
            0 <= m <= den,
            num >= 0,
    ;
    assert((m * num) / den <= (den * num) / den) by {
        vstd::arithmetic::div_mod::lemma_div_is_ordered(m * num, den * num, den);
    }
    assert((den * num) / den == num) by {
        vstd::arithmetic::div_mod::lemma_div_by_multiple(num, den);
        assert(num * den == den * num) by (nonlinear_arith);
    }
    assert((m * num) / den >= 0) by {
        assert(m * num >= 0) by (nonlinear_arith)
            requires
                m >= 0,
                num >= 0,
        ;
        vstd::arithmetic::div_mod::lemma_div_pos_is_pos(m * num, den);
    }
}

/// Scaling a magnitude equal to `den` by `num / den` yields exactly `num`.
pub proof fn lemma_scale_exact(s: int, num: int, den: int)
    requires
        num >= 0,
        den > 0,
        abs_val(s) == den,
    ensures
        abs_val(scale_val(s, num, den)) == num,
{
    assert((den * num) / den == num) by {
        vstd::arithmetic::div_mod::lemma_div_by_multiple(num, den);
        assert(num * den == den * num) by (nonlinear_arith);
    }
}

/// Largest absolute sample value among `samples[lo..hi]`.
pub fn peak_in_range(samples: &Vec<i32>, lo: usize, hi: usize) -> (p: u64)
    requires
        lo <= hi <= samples@.len(),
    ensures
        p as int == peak_of(to_ints(samples@).subrange(lo as int, hi as int)),
        p <= 0x8000_0000,
{
    let mut p: u64 = 0;
    let mut j: usize = lo;
    while j < hi
        invariant
            lo <= j <= hi <= samples@.len(),
            p as int == peak_of(to_ints(samples@).subrange(lo as int, j as int)),
            p <= 0x8000_0000,
        decreases hi - j,
    {
        let s: i32 = samples[j];
        let a: u64 = if s >= 0 {
            s as u64
        } else {
            (-(s as i64)) as u64
        };
        proof {
            let ints = to_ints(samples@);
            assert(ints.subrange(lo as int, j + 1).drop_last() =~= ints.subrange(
                lo as int,
                j as int,
            ));
            assert(ints.subrange(lo as int, j + 1).last() == s as int);
            assert(a as int == abs_val(s as int));
        }
        if a > p {
            p = a;
        }
        j = j + 1;
    }
    p
}

/// Largest absolute sample value in a whole buffer.
pub fn peak_of_samples(samples: &Vec<i32>) -> (p: u64)
    ensures
        p as int == peak_of(to_ints(samples@)),
        p <= 0x8000_0000,
{
    let p = peak_in_range(samples, 0, samples.len());
    proof {
        assert(to_ints(samples@).subrange(0, samples@.len() as int) =~= to_ints(samples@));
    }
    p
}

/// Largest absolute sample value in a widened buffer.
pub fn peak_of_wide(samples: &Vec<i64>, bound: u64) -> (p: u64)
    requires
        bound <= 0x7FFF_FFFF_FFFF_FFFF,
        forall|i: int|
            0 <= i < samples@.len() ==> abs_val(#[trigger] samples@[i] as int) <= bound as int,
    ensures
        p as int == peak_of(to_ints_wide(samples@)),
        p <= bound,
{
    let mut p: u64 = 0;
    let mut j: usize = 0;
    let len: usize = samples.len();
    while j < len
        invariant
            j <= len == samples@.len(),
            bound <= 0x7FFF_FFFF_FFFF_FFFF,
            forall|i: int|
                0 <= i < samples@.len() ==> abs_val(#[trigger] samples@[i] as int) <= bound as int,
            p as int == peak_of(to_ints_wide(samples@).take(j as int)),
            p <= bound,
        decreases len - j,
    {
        let s: i64 = samples[j];
        proof {
            assert(abs_val(samples@[j as int] as int) <= bound as int);
        }
        let a: u64 = if s >= 0 {
            s as u64
        } else {
            (-(s as i128)) as u64
        };
        proof {
            let ints = to_ints_wide(samples@);
            assert(ints.take(j + 1).drop_last() =~= ints.take(j as int));
            assert(ints.take(j + 1).last() == s as int);
            assert(a as int == abs_val(s as int));
        }
        if a > p {
            p = a;
        }
        j = j + 1;
    }
    proof {
        assert(to_ints_wide(samples@).take(samples@.len() as int) =~= to_ints_wide(samples@));
    }
    p
}

/// Scales one sample by `SAMPLE_UNIT / peak`, truncating toward zero.
pub fn scale_sample(s: i64, peak: u64) -> (r: i32)
    requires
        peak > 0,
        abs_val(s as int) <= peak as int,
    ensures
        r as int == scale_val(s as int, SAMPLE_UNIT as int, peak as int),
{
    proof {
        lemma_scale_bounded(s as int, SAMPLE_UNIT as int, peak as int);
    }
    if s >= 0 {
        let m: u128 = s as u128;
        let v: u128 = m * (SAMPLE_UNIT as u128) / (peak as u128);
        v as i32
    } else {
        let m: u128 = (-(s as i128)) as u128;
        let v: u128 = m * (SAMPLE_UNIT as u128) / (peak as u128);
        -(v as i32)
    }
}

} // verus!
