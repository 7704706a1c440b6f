//! Mono downmixing and the capacity-bounded sample buffer that capture fills.
use vstd::prelude::*;
use crate::dsp::{compute_rms, rms_of, TARGET_RATE};

verus! {

/// Hard cap on buffered samples: 30 seconds' worth at the target rate,
/// whatever rate the device runs at.
pub const MAX_AUDIO_SAMPLES: usize = 480000;

/// Sum of `data[start..end]`.
pub open spec fn frame_sum(data: Seq<i16>, start: int, end: int) -> int
    decreases end - start,
{
    if start >= end {
        0
    } else {
        frame_sum(data, start, end - 1) + data[end - 1] as int
    }
}

/// Integer division rounded towards zero.
pub open spec fn div_toward_zero(x: int, d: int) -> int {
    if x >= 0 {
        x / d
    } else {
        -((-x) / d)
    }
}

/// Number of frames of `channels` samples in `len` interleaved samples; a
/// partial last frame counts as one.
pub open spec fn frame_count(len: int, channels: int) -> int {
    len / channels + if len % channels == 0 {
        0int
    } else {
        1int
    }
}

/// End (exclusive) of frame `j`: the next frame's start, or `len` for the last frame.
pub open spec fn frame_end(j: int, channels: int, len: int) -> int {
    if (j + 1) * channels < len {
        (j + 1) * channels
    } else {
        len
    }
}

/// Mono signal of interleaved `data`: each frame's samples summed and divided by
/// the channel count (also for a partial last frame), rounded towards zero.
pub open spec fn downmixed(data: Seq<i16>, channels: int) -> Seq<i16> {
    Seq::new(
        frame_count(data.len() as int, channels) as nat,
        |j: int|
            div_toward_zero(
                frame_sum(data, j * channels, frame_end(j, channels, data.len() as int)),
                channels,
            ) as i16,
    )
}

/// `buf` with as much of `more` appended as fits under the cap; the rest is dropped.
pub open spec fn capped_append(buf: Seq<i16>, more: Seq<i16>) -> Seq<i16> {
    let room = MAX_AUDIO_SAMPLES as int - buf.len();
    if room <= 0 {
        buf
    } else if more.len() <= room {
        buf + more
    } else {
        buf + more.take(room)
    }
}

/// The last `window` samples of `s`, or all of `s` when it is shorter.
pub open spec fn trailing(s: Seq<i16>, window: int) -> Seq<i16> {
    if s.len() <= window {
        s
    } else {
        s.subrange(s.len() - window, s.len() as int)
    }
}

proof fn lemma_frame_sum_bounds(data: Seq<i16>, start: int, end: int)
    requires
        0 <= start <= end <= data.len(),
    ensures
        -32768 * (end - start) <= frame_sum(data, start, end) <= 32767 * (end - start),
    decreases end - start,
{
    if start < end {
        lemma_frame_sum_bounds(data, start, end - 1);
    }
}

proof fn lemma_average_fits(sum: int, k: int, c: int)
    requires
        0 < k <= c,
        -32768 * k <= sum <= 32767 * k,
    ensures
        -32768 <= div_toward_zero(sum, c) <= 32767,
{
    if sum >= 0 {
        assert(sum / c <= 32767) by (nonlinear_arith)
            requires
                0 <= sum <= 32767 * k,
                0 < k <= c,
        ;
        assert(sum / c >= 0) by (nonlinear_arith)
            requires
                0 <= sum,
                0 < c,
        ;
    } else {
        assert((-sum) / c <= 32768) by (nonlinear_arith)
            requires
                0 < -sum <= 32768 * k,
                0 < k <= c,
        ;
        assert((-sum) / c >= 0) by (nonlinear_arith)
            requires
                0 < -sum,
                0 < c,
        ;
    }
}

/// A single channel downmixes to itself.
pub proof fn lemma_downmix_mono(data: Seq<i16>)
    ensures
        downmixed(data, 1) == data,
{
    assert forall|j: int| 0 <= j < data.len() implies #[trigger] downmixed(data, 1)[j]
        == data[j] by {
        assert(frame_sum(data, j, j) == 0);
        assert(frame_sum(data, j, j + 1) == data[j] as int);
    }
    assert(downmixed(data, 1) =~= data);
}

/// Interleaved samples of `channels` channels averaged into one mono channel.
pub fn downmix(data: &[i16], channels: usize) -> (r: Vec<i16>)
    requires
        channels > 0,
    ensures
        r@ == downmixed(data@, channels as int),
{
    if channels == 1 {
        proof {
            lemma_downmix_mono(data@);
        }
        return vstd::slice::slice_to_vec(data);
    }
    let n = data.len();
    assert(n / channels <= n / 2 && (n == 0 ==> n / channels == 0 && n % channels == 0))
        by (nonlinear_arith)
        requires
            channels > 1,
    ;
    let frames: usize = n / channels + if n % channels == 0 {
        0
    } else {
        1
    };
    let mut out: Vec<i16> = Vec::with_capacity(frames);
    let mut j: usize = 0;
    let mut start: usize = 0;
    while j < frames
        invariant
            n == data@.len(),
            channels > 1,
            frames == frame_count(n as int, channels as int),
            j <= frames,
            j < frames ==> start == j * channels,
            j < frames ==> start < n,
            out@.len() == j,
            forall|q: int|
                0 <= q < j ==> out@[q] == downmixed(data@, channels as int)[q],
        decreases frames - j,
    {
        let end: usize = if n - start > channels {
            start + channels
        } else {
            n
        };
        let mut sum: i128 = 0;
        let mut k: usize = start;
        while k < end
            invariant
                start <= k <= end <= n,
                n == data@.len(),
                sum as int == frame_sum(data@, start as int, k as int),
            decreases end - k,
        {
            proof {
                lemma_frame_sum_bounds(data@, start as int, k as int);
            }
            sum = sum + data[k] as i128;
            k = k + 1;
        }
        proof {
            lemma_frame_sum_bounds(data@, start as int, end as int);
            lemma_average_fits(sum as int, (end - start) as int, channels as int);
            assert(end as int == frame_end(j as int, channels as int, n as int)) by (nonlinear_arith)
                requires
                    start == j * channels,
                    end == (if n - start > channels { start + channels } else { n as int }),
            ;
        }
        let c = channels as i128;
        let avg: i128 = if sum >= 0 {
            sum / c
        } else {
            -((-sum) / c)
        };
        out.push(avg as i16);
        proof {
            assert((j + 1 < frames) ==> (j + 1) * channels < n) by (nonlinear_arith)
                requires
                    frames == n / channels + (if n % channels == 0 { 0int } else { 1int }),
                    channels > 1,
                    j < frames,
            ;
            assert((j + 1) * channels == j * channels + channels) by (nonlinear_arith);
        }
        j = j + 1;
        if j < frames {
            start = start + channels;
        }
    }
    proof {
        assert(out@ =~= downmixed(data@, channels as int));
    }
    out
}

/// Captured mono samples at the device rate, never more than `MAX_AUDIO_SAMPLES`.
pub struct SampleBuffer {
    samples: Vec<i16>,
}

impl View for SampleBuffer {
    type V = Seq<i16>;

    closed spec fn view(&self) -> Seq<i16> {
        self.samples@
    }
}

impl SampleBuffer {
    /// The cap holds.
    pub open spec fn wf(&self) -> bool {
        self@.len() <= MAX_AUDIO_SAMPLES
    }

    /// An empty buffer with room reserved for five seconds at the target rate.
    pub fn new() -> (r: SampleBuffer)
        ensures
            r.wf(),
            r@ == Seq::<i16>::empty(),
    {
        SampleBuffer { samples: Vec::with_capacity(5 * TARGET_RATE as usize) }
    }

    pub fn len(&self) -> (r: usize)
        ensures
            r == self@.len(),
    {
        self.samples.len()
    }

    pub fn is_empty(&self) -> (r: bool)
        ensures
            r == (self@.len() == 0),
    {
        self.samples.len() == 0
    }

    /// Appends mono samples up to the cap and silently drops the rest.
    pub fn append_capped(&mut self, mono: &[i16])
        requires
            old(self).wf(),
        ensures
            final(self).wf(),
            final(self)@ == capped_append(old(self)@, mono@),
    {
        let len = self.samples.len();
        if len >= MAX_AUDIO_SAMPLES {
            return;
        }
        let room = MAX_AUDIO_SAMPLES - len;
        let take = if mono.len() <= room {
            mono.len()
        } else {
            room
        };
        let mut i: usize = 0;
        while i < take
            invariant
                take <= mono@.len(),
                take <= room,
                room == MAX_AUDIO_SAMPLES - len,
                len == old(self)@.len(),
                i <= take,
                self@ == old(self)@ + mono@.take(i as int),
            decreases take - i,
        {
            proof {
                assert(mono@.take(i as int + 1) =~= mono@.take(i as int).push(mono@[i as int]));
            }
            self.samples.push(mono[i]);
            i = i + 1;
        }
        proof {
            if mono@.len() <= room {
                assert(mono@.take(take as int) =~= mono@);
            }
        }
    }

    /// One hardware delivery: interleaved frames downmixed to mono, then appended
    /// up to the cap.
    pub fn push_frames(&mut self, data: &[i16], channels: usize)
        requires
            old(self).wf(),
            channels > 0,
        ensures
            final(self).wf(),
            final(self)@ == capped_append(old(self)@, downmixed(data@, channels as int)),
    {
        let mono = downmix(data, channels);
        self.append_capped(mono.as_slice());
    }

    /// A copy of the buffered samples.
    pub fn snapshot(&self) -> (r: Vec<i16>)
        ensures
            r@ == self@,
    {
        vstd::slice::slice_to_vec(self.samples.as_slice())
    }

    /// Hands out every buffered sample and leaves the buffer empty, in one step.
    pub fn take_all(&mut self) -> (r: Vec<i16>)
        requires
            old(self).wf(),
        ensures
            final(self).wf(),
            r@ == old(self)@,
            final(self)@ == Seq::<i16>::empty(),
    {
        let all = self.samples.split_off(0);
        proof {
            assert(all@ =~= old(self)@);
            assert(self@ =~= Seq::<i16>::empty());
        }
        all
    }

    /// Drops the oldest samples so that at most `keep` remain.
    pub fn keep_last(&mut self, keep: usize)
        requires
            old(self).wf(),
        ensures
            final(self).wf(),
            final(self)@ == trailing(old(self)@, keep as int),
    {
        let len = self.samples.len();
        if len > keep {
            let tail = self.samples.split_off(len - keep);
            self.samples = tail;
        }
    }

    /// Energy of the last `window` samples (all of them when fewer are buffered).
    pub fn tail_rms(&self, window: usize) -> (r: u32)
        ensures
            r as int == rms_of(trailing(self@, window as int)),
    {
        let len = self.samples.len();
        let start = if len > window {
            len - window
        } else {
            0
        };
        let tail = vstd::slice::slice_subrange(self.samples.as_slice(), start, len);
        proof {
            if len <= window {
                assert(self@.subrange(0, len as int) =~= self@);
            }
        }
        compute_rms(tail)
    }
}

} // verus!
