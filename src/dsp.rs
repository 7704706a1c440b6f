//! Signal processing on 16-bit mono PCM samples: energy and resampling.
//!
//! A sample is an `i16` in which full scale, -1.0 to 1.0, spans -32768 to
//! 32767; energies and thresholds are in the same units. All arithmetic is
//! exact integer arithmetic, with the rounding stated in each definition.
use vstd::prelude::*;

verus! {

/// Sample rate, in hertz, that the transcription engine expects.
pub const TARGET_RATE: u32 = 16000;

/// Largest square of a 16-bit sample: (-32768)^2.
pub const MAX_SQUARE: u64 = 1073741824;

/// Sum of the squared sample values of a window.
pub open spec fn sum_squares(s: Seq<i16>) -> int
    decreases s.len(),
{
    if s.len() == 0 {
        0
    } else {
        sum_squares(s.drop_last()) + s.last() as int * s.last() as int
    }
}

/// Mean of the squared sample values, rounded down; 0 for an empty window.
pub open spec fn mean_square(s: Seq<i16>) -> int {
    if s.len() == 0 {
        0
    } else {
        sum_squares(s) / s.len() as int
    }
}

/// The largest `r` with `r * r <= n` (0 when `n` is not positive).
pub open spec fn floor_sqrt(n: int) -> int
    decreases n,
{
    if n <= 0 {
        0
    } else {
        let r = floor_sqrt(n - 1);
        if (r + 1) * (r + 1) <= n {
            r + 1
        } else {
            r
        }
    }
}

/// Root-mean-square energy of a window, rounded down to a whole sample unit.
/// Since `floor(sqrt(floor(x))) == floor(sqrt(x))`, this is the exact RMS rounded down.
pub open spec fn rms_of(s: Seq<i16>) -> int {
    floor_sqrt(mean_square(s))
}

/// Number of samples that `len` samples at `rate` become at the target rate.
pub open spec fn resampled_len(len: int, rate: int) -> int {
    len * TARGET_RATE as int / rate
}

/// An index clamped to the last valid index of a sequence of length `len`.
pub open spec fn clamp_index(i: int, len: int) -> int {
    if i < len - 1 {
        i
    } else {
        len - 1
    }
}

/// Linear interpolation from `a` towards `b` by `num / den`, rounded towards `a`.
pub open spec fn lerp(a: int, b: int, num: int, den: int) -> int {
    if a <= b {
        a + (b - a) * num / den
    } else {
        a - (a - b) * num / den
    }
}

/// Output sample `i` of the resampler: the source position `i * rate / TARGET_RATE`
/// splits into a whole index and a fraction, and the two neighbouring samples
/// (both clamped to the last index) are interpolated by that fraction.
pub open spec fn resampled_at(s: Seq<i16>, rate: int, i: int) -> i16 {
    let pos = i * rate;
    let idx = pos / TARGET_RATE as int;
    let frac = pos % TARGET_RATE as int;
    let a = s[clamp_index(idx, s.len() as int)] as int;
    let b = s[clamp_index(idx + 1, s.len() as int)] as int;
    lerp(a, b, frac, TARGET_RATE as int) as i16
}

/// The whole resampled sequence.
pub open spec fn resample(s: Seq<i16>, rate: int) -> Seq<i16> {
    Seq::new(resampled_len(s.len() as int, rate) as nat, |i: int| resampled_at(s, rate, i))
}

/// `floor_sqrt(n)` is the whole square root of `n`, rounded down.
pub proof fn lemma_floor_sqrt_bounds(n: int)
    requires
        n >= 0,
    ensures
        floor_sqrt(n) >= 0,
        floor_sqrt(n) * floor_sqrt(n) <= n,
        n < (floor_sqrt(n) + 1) * (floor_sqrt(n) + 1),
    decreases n,
{
    if n > 0 {
        lemma_floor_sqrt_bounds(n - 1);
        let r = floor_sqrt(n - 1);
        assert((r + 1) * (r + 1) < (r + 2) * (r + 2)) by (nonlinear_arith)
            requires
                r >= 0,
        ;
    }
}

/// A whole number whose square brackets `n` as `r^2 <= n < (r+1)^2` is `floor_sqrt(n)`.
pub proof fn lemma_floor_sqrt_unique(n: int, r: int)
    requires
        r >= 0,
        r * r <= n,
        n < (r + 1) * (r + 1),
    ensures
        floor_sqrt(n) == r,
{
    lemma_floor_sqrt_bounds(n);
    let q = floor_sqrt(n);
    if q < r {
        assert((q + 1) * (q + 1) <= r * r) by (nonlinear_arith)
            requires
                0 <= q,
                q + 1 <= r,
        ;
    }
    if q > r {
        assert((r + 1) * (r + 1) <= q * q) by (nonlinear_arith)
            requires
                0 <= r,
                r + 1 <= q,
        ;
    }
}

proof fn lemma_square_bound(x: int)
    requires
        -32768 <= x <= 32767,
    ensures
        0 <= x * x <= MAX_SQUARE,
{
    assert(0 <= x * x <= 1073741824) by (nonlinear_arith)
        requires
            -32768 <= x <= 32767,
    ;
}

proof fn lemma_sum_squares_bounds(s: Seq<i16>)
    ensures
        0 <= sum_squares(s) <= s.len() * MAX_SQUARE,
    decreases s.len(),
{
    if s.len() > 0 {
        lemma_sum_squares_bounds(s.drop_last());
        lemma_square_bound(s.last() as int);
    }
}

/// The whole square root of `m`, rounded down, by bisection.
fn floor_sqrt_exec(m: u64) -> (r: u32)
    requires
        m <= MAX_SQUARE,
    ensures
        r as int == floor_sqrt(m as int),
{
    let mut lo: u64 = 0;
    let mut hi: u64 = 32769;
    assert(m < 32769 * 32769);
    while hi - lo > 1
        invariant
            lo < hi <= 32769,
            lo * lo <= m,
            m < hi * hi,
        decreases hi - lo,
    {
        let mid: u64 = lo + (hi - lo) / 2;
        assert(mid * mid <= 32769 * 32769) by (nonlinear_arith)
            requires
                mid <= 32769,
        ;
        if mid * mid <= m {
            lo = mid;
        } else {
            hi = mid;
        }
    }
    proof {
        lemma_floor_sqrt_unique(m as int, lo as int);
    }
    lo as u32
}

/// Root-mean-square energy of a window: 0 for an empty window, otherwise the
/// square root of the mean of the squared samples, rounded down.
pub fn compute_rms(samples: &[i16]) -> (r: u32)
    ensures
        r as int == rms_of(samples@),
        samples@.len() == 0 ==> r == 0,
{
    let n = samples.len();
    if n == 0 {
        return 0;
    }
    let mut sum: u128 = 0;
    let mut i: usize = 0;
    while i < n
        invariant
            n == samples@.len(),
            i <= n,
            sum as int == sum_squares(samples@.subrange(0, i as int)),
            sum <= i * MAX_SQUARE,
        decreases n - i,
    {
        let x = samples[i] as i64;
        proof {
            assert(samples@.subrange(0, i as int + 1).drop_last() =~= samples@.subrange(0, i as int));
            lemma_square_bound(x as int);
        }
        sum = sum + (x * x) as u128;
        i = i + 1;
    }
    assert(samples@.subrange(0, n as int) =~= samples@);
    let mean = sum / (n as u128);
    assert(mean <= MAX_SQUARE) by (nonlinear_arith)
        requires
            mean == sum / (n as u128),
            sum <= n * MAX_SQUARE,
            n > 0,
    ;
    floor_sqrt_exec(mean as u64)
}

/// With `i` below the output length, the source position `i * rate / TARGET_RATE`
/// is a valid index of the input.
proof fn lemma_source_index_in_range(i: int, len: int, rate: int)
    requires
        0 <= i,
        0 < rate,
        0 <= len,
        i < resampled_len(len, rate),
    ensures
        i * rate / (TARGET_RATE as int) < len,
{
    let t = TARGET_RATE as int;
    let q = len * t / rate;
    assert(q * rate <= len * t) by (nonlinear_arith)
        requires
            q == len * t / rate,
            rate > 0,
            len * t >= 0,
    ;
    assert((i + 1) * rate <= q * rate) by (nonlinear_arith)
        requires
            i + 1 <= q,
            rate > 0,
    ;
    assert((i + 1) * rate == i * rate + rate) by (nonlinear_arith);
    assert(i * rate / t < len) by (nonlinear_arith)
        requires
            i * rate < len * t,
            t == 16000,
            i >= 0,
            rate > 0,
    ;
}

/// Interpolating between two samples stays between them.
proof fn lemma_lerp_between(a: int, b: int, num: int, den: int)
    requires
        0 <= num < den,
    ensures
        a <= b ==> a <= lerp(a, b, num, den) <= b,
        b < a ==> b <= lerp(a, b, num, den) <= a,
{
    if a <= b {
        assert(0 <= (b - a) * num / den <= b - a) by (nonlinear_arith)
            requires
                0 <= num < den,
                a <= b,
        ;
    } else {
        assert(0 <= (a - b) * num / den <= a - b) by (nonlinear_arith)
            requires
                0 <= num < den,
                b < a,
        ;
    }
}

/// Resampling from the target rate hands the input back unchanged.
pub proof fn lemma_resample_identity(s: Seq<i16>)
    ensures
        resample(s, TARGET_RATE as int) == s,
{
    let t = TARGET_RATE as int;
    assert(s.len() * t / t == s.len()) by (nonlinear_arith)
        requires
            t == 16000,
    ;
    assert forall|i: int| 0 <= i < s.len() implies #[trigger] resampled_at(s, t, i) == s[i] by {
        assert(i * t / t == i && (i * t) % t == 0) by (nonlinear_arith)
            requires
                t == 16000,
                i >= 0,
        ;
    }
    assert(resample(s, t) =~= s);
}

/// Converts `samples`, taken at `source_rate`, to the target rate by linear
/// interpolation; at the target rate the input comes back unchanged.
pub fn resample_to_16k(samples: &[i16], source_rate: u32) -> (r: Vec<i16>)
    requires
        source_rate > 0,
        resampled_len(samples@.len() as int, source_rate as int) <= usize::MAX,
    ensures
        r@ == resample(samples@, source_rate as int),
        r@.len() == resampled_len(samples@.len() as int, source_rate as int),
{
    if source_rate == TARGET_RATE {
        proof {
            lemma_resample_identity(samples@);
        }
        return vstd::slice::slice_to_vec(samples);
    }
    let n = samples.len();
    let out_len = ((n as u128) * (TARGET_RATE as u128) / (source_rate as u128)) as usize;
    let mut out: Vec<i16> = Vec::with_capacity(out_len);
    let mut i: usize = 0;
    while i < out_len
        invariant
            n == samples@.len(),
            source_rate > 0,
            out_len == resampled_len(n as int, source_rate as int),
            i <= out_len,
            out@.len() == i,
            forall|j: int| 0 <= j < i ==> out@[j] == resampled_at(samples@, source_rate as int, j),
        decreases out_len - i,
    {
        proof {
            lemma_source_index_in_range(i as int, n as int, source_rate as int);
        }
        let pos: u128 = (i as u128) * (source_rate as u128);
        let idx = (pos / (TARGET_RATE as u128)) as usize;
        let frac = (pos % (TARGET_RATE as u128)) as u64;
        let last = n - 1;
        let i0 = if idx < last { idx } else { last };
        let i1 = if idx + 1 < last { idx + 1 } else { last };
        let a = samples[i0] as i64;
        let b = samples[i1] as i64;
        proof {
            lemma_lerp_between(a as int, b as int, frac as int, TARGET_RATE as int);
        }
        let v: i64 = if a <= b {
            a + (((b - a) as u64) * frac / (TARGET_RATE as u64)) as i64
        } else {
            a - (((a - b) as u64) * frac / (TARGET_RATE as u64)) as i64
        };
        out.push(v as i16);
        i = i + 1;
    }
    proof {
        assert(out@ =~= resample(samples@, source_rate as int));
    }
    out
}

/// Resampling a constant signal gives the same constant at every output index.
pub proof fn lemma_resample_constant(s: Seq<i16>, rate: int, c: i16)
    requires
        rate > 0,
        forall|i: int| 0 <= i < s.len() ==> s[i] == c,
    ensures
        forall|j: int| 0 <= j < resample(s, rate).len() ==> #[trigger] resample(s, rate)[j] == c,
{
    let n = s.len() as int;
    let t = TARGET_RATE as int;
    assert forall|j: int| 0 <= j < resample(s, rate).len() implies #[trigger] resample(s, rate)[j]
        == c by {
        lemma_source_index_in_range(j, n, rate);
        assert(j * rate >= 0) by (nonlinear_arith)
            requires
                j >= 0,
                rate > 0,
        ;
        let idx = (j * rate) / t;
        assert(0 <= clamp_index(idx, n) < n);
        assert(0 <= clamp_index(idx + 1, n) < n);
        assert(0 * ((j * rate) % t) / t == 0);
    }
}

/// The output length is `floor(len / ratio)` with `ratio = rate / TARGET_RATE`:
/// the largest count whose span at the source rate fits in the input.
pub proof fn lemma_resampled_len_exact(len: int, rate: int)
    requires
        len >= 0,
        rate > 0,
    ensures
        resampled_len(len, rate) >= 0,
        resampled_len(len, rate) * rate <= len * (TARGET_RATE as int),
        len * (TARGET_RATE as int) < (resampled_len(len, rate) + 1) * rate,
{
    let t = TARGET_RATE as int;
    let q = len * t / rate;
    assert(q >= 0 && q * rate <= len * t && len * t < (q + 1) * rate) by (nonlinear_arith)
        requires
            q == len * t / rate,
            rate > 0,
            len >= 0,
            t == 16000,
    ;
}

proof fn lemma_sum_squares_constant(s: Seq<i16>, c: i16)
    requires
        forall|i: int| 0 <= i < s.len() ==> s[i] == c,
    ensures
        sum_squares(s) == s.len() * (c as int * c as int),
    decreases s.len(),
{
    if s.len() > 0 {
        lemma_sum_squares_constant(s.drop_last(), c);
        let m = s.len() as int;
        let cc = c as int * c as int;
        assert((m - 1) * cc + cc == m * cc) by (nonlinear_arith);
    }
}

/// The energy of a non-empty constant window is the constant's magnitude.
pub proof fn lemma_rms_constant(s: Seq<i16>, c: i16)
    requires
        s.len() > 0,
        forall|i: int| 0 <= i < s.len() ==> s[i] == c,
    ensures
        rms_of(s) == (if c < 0 { -(c as int) } else { c as int }),
{
    lemma_sum_squares_constant(s, c);
    let n = s.len() as int;
    let cc = c as int * c as int;
    assert(n * cc / n == cc) by (nonlinear_arith)
        requires
            n > 0,
    ;
    let a: int = if c < 0 { -(c as int) } else { c as int };
    assert(a * a == cc) by (nonlinear_arith)
        requires
            a == c || a == -c,
            cc == c * c,
    ;
    assert(cc < (a + 1) * (a + 1)) by (nonlinear_arith)
        requires
            a >= 0,
            a * a == cc,
    ;
    lemma_floor_sqrt_unique(cc, a);
}

proof fn lemma_sum_squares_scaled(s: Seq<i16>, t: Seq<i16>, k: int)
    requires
        t.len() == s.len(),
        forall|i: int| 0 <= i < s.len() ==> t[i] as int == k * s[i] as int,
    ensures
        sum_squares(t) == k * k * sum_squares(s),
    decreases s.len(),
{
    if s.len() > 0 {
        lemma_sum_squares_scaled(s.drop_last(), t.drop_last(), k);
        let x = s.last() as int;
        let y = t.last() as int;
        let a = sum_squares(s.drop_last());
        assert(y == k * x);
        assert(k * k * a + y * y == k * k * (a + x * x)) by (nonlinear_arith)
            requires
                y == k * x,
        ;
    }
}

/// Scaling every sample by `k > 0` scales the energy by `k`: the sum of squares
/// exactly by `k * k`, and the rounded-down RMS to within the rounding,
/// `k * rms(s) <= rms(t) < k * (rms(s) + 1)`.
pub proof fn lemma_rms_scaling(s: Seq<i16>, t: Seq<i16>, k: int)
    requires
        k > 0,
        t.len() == s.len(),
        forall|i: int| 0 <= i < s.len() ==> t[i] as int == k * s[i] as int,
    ensures
        sum_squares(t) == k * k * sum_squares(s),
        k * rms_of(s) <= rms_of(t),
        rms_of(t) < k * (rms_of(s) + 1),
{
    lemma_sum_squares_scaled(s, t, k);
    lemma_sum_squares_bounds(s);
    let n = s.len() as int;
    if n == 0 {
        assert(rms_of(s) == 0 && rms_of(t) == 0);
        assert(k * 0 == 0);
        return;
    }
    let sum = sum_squares(s);
    let m = sum / n;
    assert(m >= 0) by (nonlinear_arith)
        requires
            m == sum / n,
            sum >= 0,
            n > 0,
    ;
    lemma_floor_sqrt_bounds(m);
    let r = floor_sqrt(m);
    let big = k * k * sum;
    let mt = big / n;
    assert(mt >= 0) by (nonlinear_arith)
        requires
            mt == big / n,
            big == k * k * sum,
            sum >= 0,
            n > 0,
    ;
    assert((k * r) * (k * r) <= mt) by (nonlinear_arith)
        requires
            r * r <= m,
            m == sum / n,
            mt == big / n,
            big == k * k * sum,
            n > 0,
            k > 0,
            r >= 0,
            sum >= 0,
    ;
    assert(mt < (k * (r + 1)) * (k * (r + 1))) by (nonlinear_arith)
        requires
            m < (r + 1) * (r + 1),
            m == sum / n,
            mt == big / n,
            big == k * k * sum,
            n > 0,
            k > 0,
            r >= 0,
            sum >= 0,
    ;
    lemma_floor_sqrt_bounds(mt);
    let q = floor_sqrt(mt);
    if q < k * r {
        assert((q + 1) * (q + 1) <= (k * r) * (k * r)) by (nonlinear_arith)
            requires
                q >= 0,
                q + 1 <= k * r,
        ;
    }
    if q >= k * (r + 1) {
        assert((k * (r + 1)) * (k * (r + 1)) <= q * q) by (nonlinear_arith)
            requires
                k * (r + 1) >= 0,
                k * (r + 1) <= q,
        ;
    }
}

/// Every sample of `s` has magnitude at most `a`.
pub open spec fn all_within(s: Seq<i16>, a: int) -> bool {
    forall|i: int| 0 <= i < s.len() ==> -a <= #[trigger] s[i] as int <= a
}

proof fn lemma_sum_squares_peak(s: Seq<i16>, a: int)
    requires
        a >= 0,
        all_within(s, a),
    ensures
        sum_squares(s) <= s.len() * (a * a),
    decreases s.len(),
{
    if s.len() > 0 {
        let x = s.last() as int;
        assert(-a <= s[s.len() - 1] as int <= a);
        assert(x * x <= a * a) by (nonlinear_arith)
            requires
                -a <= x <= a,
        ;
        assert(all_within(s.drop_last(), a)) by {
            assert forall|i: int| 0 <= i < s.drop_last().len() implies -a <= #[trigger] s.drop_last()[i] as int
                <= a by {
                assert(s.drop_last()[i] == s[i]);
            }
        }
        lemma_sum_squares_peak(s.drop_last(), a);
        let m = s.len() as int;
        assert((m - 1) * (a * a) + a * a == m * (a * a)) by (nonlinear_arith);
    }
}

/// A window whose samples all have magnitude at most `a` has energy at most `a`.
pub proof fn lemma_rms_below_peak(s: Seq<i16>, a: int)
    requires
        a >= 0,
        all_within(s, a),
    ensures
        rms_of(s) <= a,
{
    if s.len() > 0 {
        lemma_sum_squares_peak(s, a);
        lemma_sum_squares_bounds(s);
        let n = s.len() as int;
        let m = sum_squares(s) / n;
        assert(0 <= m <= a * a) by (nonlinear_arith)
            requires
                m == sum_squares(s) / n,
                0 <= sum_squares(s) <= n * (a * a),
                n > 0,
        ;
        lemma_floor_sqrt_bounds(m);
        let r = floor_sqrt(m);
        if r > a {
            assert(a * a < r * r) by (nonlinear_arith)
                requires
                    0 <= a < r,
            ;
        }
    } else {
        assert(rms_of(s) == 0);
    }
}

} // verus!
