//! Voice activity detection: the per-poll state machine that classifies the
//! buffered audio as speech or silence and decides when an utterance ends.
use vstd::prelude::*;
use crate::buffer::{capped_append, trailing, SampleBuffer, MAX_AUDIO_SAMPLES};
use crate::dsp::{all_within, lemma_rms_below_peak, resample, resample_to_16k, resampled_len, rms_of};

verus! {

/// Interval between two polls of the monitoring loop, in milliseconds.
pub const POLL_INTERVAL_MS: u32 = 50;

/// Number of trailing samples whose energy a poll looks at.
pub const RMS_CHUNK_SIZE: usize = 512;

/// Shortest utterance handed to transcription: 300 ms at the target rate.
pub const MIN_AUDIO_SAMPLES: usize = 4800;

/// Default energy threshold: 0.02 of full scale, in sample units.
pub const DEFAULT_THRESHOLD: u32 = 655;

/// Default silence that ends an utterance, in milliseconds.
pub const DEFAULT_SILENCE_MS: u32 = 1500;

/// Largest silence counter a monitor can hold: `u32::MAX / POLL_INTERVAL_MS`.
pub const MAX_SILENCE_CHUNKS: u32 = 85899345;

/// Tunable detection parameters, read afresh on every poll.
#[derive(Clone, Copy, Debug, PartialEq, Eq)]
pub struct VadConfig {
    /// RMS level, in sample units, that counts as speech when exceeded.
    pub threshold: u32,
    /// Silence, in milliseconds, after which an utterance ends.
    pub silence_ms: u32,
}

impl VadConfig {
    /// Threshold 655 (0.02 of full scale) and 1500 ms of silence.
    pub fn new() -> (r: VadConfig)
        ensures
            r.threshold == DEFAULT_THRESHOLD,
            r.silence_ms == DEFAULT_SILENCE_MS,
    {
        VadConfig { threshold: DEFAULT_THRESHOLD, silence_ms: DEFAULT_SILENCE_MS }
    }

    /// Replaces both parameters; the next poll sees them.
    pub fn set(&mut self, threshold: u32, silence_ms: u32)
        ensures
            final(self).threshold == threshold,
            final(self).silence_ms == silence_ms,
    {
        self.threshold = threshold;
        self.silence_ms = silence_ms;
    }

    /// Number of consecutive quiet polls that end an utterance.
    pub open spec fn silence_polls(self) -> int {
        self.silence_ms as int / POLL_INTERVAL_MS as int
    }
}

/// What one poll concluded from the level of the trailing window.
#[derive(Clone, Copy, Debug, PartialEq, Eq)]
pub enum VadDecision {
    /// No speech going on and none heard: the buffer is trimmed to the lookback.
    Idle,
    /// The level is above the threshold: speech starts or goes on.
    Speech,
    /// Quiet after speech, not yet long enough to end the utterance.
    Silence,
    /// Quiet for long enough: the utterance is over and the buffer is drained.
    EndOfSpeech,
}

/// Speech state of a monitoring session: idle or active, with the number of
/// consecutive quiet polls since speech was last heard.
#[derive(Clone, Copy, Debug, PartialEq, Eq)]
pub struct VadMonitor {
    pub speech_active: bool,
    pub silence_chunks: u32,
}

/// Samples kept as pre-roll while idle: 500 ms at the source rate.
pub open spec fn lookback(source_rate: int) -> int {
    source_rate / 2
}

/// The level a poll compares with the threshold: RMS of the trailing chunk.
pub open spec fn poll_level(buf: Seq<i16>) -> int {
    rms_of(trailing(buf, RMS_CHUNK_SIZE as int))
}

/// The sample view of an optional drained utterance.
pub open spec fn drained_view(r: Option<Vec<i16>>) -> Option<Seq<i16>> {
    match r {
        Some(v) => Some(v@),
        None => None,
    }
}

impl VadMonitor {
    /// The silence counter stays small enough to be incremented.
    pub open spec fn wf(self) -> bool {
        self.silence_chunks <= MAX_SILENCE_CHUNKS
    }

    pub open spec fn idle() -> VadMonitor {
        VadMonitor { speech_active: false, silence_chunks: 0 }
    }

    /// State and decision after a poll that measured `level` under `cfg`.
    pub open spec fn next(self, cfg: VadConfig, level: int) -> (VadMonitor, VadDecision) {
        if level > cfg.threshold as int {
            (VadMonitor { speech_active: true, silence_chunks: 0 }, VadDecision::Speech)
        } else if self.speech_active {
            if self.silence_chunks as int + 1 >= cfg.silence_polls() {
                (VadMonitor::idle(), VadDecision::EndOfSpeech)
            } else {
                (
                    VadMonitor { speech_active: true, silence_chunks: (self.silence_chunks + 1) as u32 },
                    VadDecision::Silence,
                )
            }
        } else {
            (self, VadDecision::Idle)
        }
    }

    /// Monitor, buffer and drained utterance after one poll of `buf`. An empty
    /// buffer changes nothing.
    pub open spec fn poll_spec(self, cfg: VadConfig, buf: Seq<i16>, source_rate: int) -> (
        VadMonitor,
        Seq<i16>,
        Option<Seq<i16>>,
    ) {
        if buf.len() == 0 {
            (self, buf, None)
        } else {
            let (m, d) = self.next(cfg, poll_level(buf));
            match d {
                VadDecision::Idle => (m, trailing(buf, lookback(source_rate)), None),
                VadDecision::EndOfSpeech => (m, Seq::empty(), Some(buf)),
                _ => (m, buf, None),
            }
        }
    }

    /// A monitor that has heard nothing yet.
    pub fn new() -> (r: VadMonitor)
        ensures
            r == VadMonitor::idle(),
            r.wf(),
    {
        VadMonitor { speech_active: false, silence_chunks: 0 }
    }

    /// Advances the state machine by one poll that measured `level`.
    pub fn step(&mut self, cfg: &VadConfig, level: u32) -> (d: VadDecision)
        requires
            old(self).wf(),
        ensures
            final(self).wf(),
            (*final(self), d) == old(self).next(*cfg, level as int),
    {
        if level > cfg.threshold {
            self.speech_active = true;
            self.silence_chunks = 0;
            VadDecision::Speech
        } else if self.speech_active {
            let polls = cfg.silence_ms / POLL_INTERVAL_MS;
            if self.silence_chunks + 1 >= polls {
                self.speech_active = false;
                self.silence_chunks = 0;
                VadDecision::EndOfSpeech
            } else {
                self.silence_chunks = self.silence_chunks + 1;
                VadDecision::Silence
            }
        } else {
            VadDecision::Idle
        }
    }

    /// One poll of the shared buffer: measures the trailing chunk, advances the
    /// state, and then trims the buffer to the lookback (idle), leaves it (speech
    /// or short silence), or drains it whole (end of speech).
    pub fn poll(&mut self, cfg: &VadConfig, buffer: &mut SampleBuffer, source_rate: u32) -> (r:
        Option<Vec<i16>>)
        requires
            old(self).wf(),
            old(buffer).wf(),
        ensures
            final(self).wf(),
            final(buffer).wf(),
            (*final(self), final(buffer)@, drained_view(r)) == old(self).poll_spec(
                *cfg,
                old(buffer)@,
                source_rate as int,
            ),
    {
        if buffer.is_empty() {
            return None;
        }
        let level = buffer.tail_rms(RMS_CHUNK_SIZE);
        let d = self.step(cfg, level);
        match d {
            VadDecision::Idle => {
                buffer.keep_last((source_rate / 2) as usize);
                None
            },
            VadDecision::EndOfSpeech => Some(buffer.take_all()),
            _ => None,
        }
    }
}

/// What an utterance of samples at `source_rate` hands to transcription: the
/// resampled samples, or nothing when they are shorter than the minimum.
pub open spec fn utterance_spec(samples: Seq<i16>, source_rate: int) -> Option<Seq<i16>> {
    let r = resample(samples, source_rate);
    if r.len() < MIN_AUDIO_SAMPLES {
        None
    } else {
        Some(r)
    }
}

/// Resamples an utterance to the target rate and keeps it only if it lasts at
/// least the minimum duration.
pub fn prepare_utterance(samples: &[i16], source_rate: u32) -> (r: Option<Vec<i16>>)
    requires
        source_rate > 0,
        resampled_len(samples@.len() as int, source_rate as int) <= usize::MAX,
    ensures
        drained_view(r) == utterance_spec(samples@, source_rate as int),
{
    let resampled = resample_to_16k(samples, source_rate);
    if resampled.len() < MIN_AUDIO_SAMPLES {
        None
    } else {
        Some(resampled)
    }
}

/// What the monitor emits for a finished transcription: the text when it is
/// non-empty; nothing for an empty text or a failure (which is only logged).
pub fn speech_event<E>(result: Result<String, E>) -> (r: Option<String>)
    ensures
        r == (match result {
            Ok(t) => if t@.len() > 0 {
                Some(t)
            } else {
                None
            },
            Err(_) => None,
        }),
{
    match result {
        Ok(t) => {
            if !t.as_str().is_empty() {
                Some(t)
            } else {
                None
            }
        },
        Err(_) => None,
    }
}

/// Monitor, buffer and number of drained utterances after a run of polls, where
/// before each poll the capture appends the next chunk of `feeds` (up to the cap).
pub open spec fn run_polls(
    m: VadMonitor,
    cfg: VadConfig,
    buf: Seq<i16>,
    source_rate: int,
    feeds: Seq<Seq<i16>>,
) -> (VadMonitor, Seq<i16>, nat)
    decreases feeds.len(),
{
    if feeds.len() == 0 {
        (m, buf, 0)
    } else {
        let (m1, b1, n1) = run_polls(m, cfg, buf, source_rate, feeds.drop_last());
        let (m2, b2, d) = m1.poll_spec(cfg, capped_append(b1, feeds.last()), source_rate);
        (m2, b2, n1 + if d is Some {
            1nat
        } else {
            0nat
        })
    }
}

/// Monitor and number of ended utterances after polls that measured `levels`.
pub open spec fn run_levels(m: VadMonitor, cfg: VadConfig, levels: Seq<int>) -> (VadMonitor, nat)
    decreases levels.len(),
{
    if levels.len() == 0 {
        (m, 0)
    } else {
        let (m1, n1) = run_levels(m, cfg, levels.drop_last());
        let (m2, d) = m1.next(cfg, levels.last());
        (m2, n1 + if d == VadDecision::EndOfSpeech {
            1nat
        } else {
            0nat
        })
    }
}

proof fn lemma_trailing_within(s: Seq<i16>, w: int, a: int)
    requires
        w >= 0,
        all_within(s, a),
    ensures
        all_within(trailing(s, w), a),
{
    if s.len() > w {
        let t = trailing(s, w);
        assert forall|i: int| 0 <= i < t.len() implies -a <= #[trigger] t[i] as int <= a by {
            assert(t[i] == s[s.len() - w + i]);
        }
    }
}

proof fn lemma_append_within(s: Seq<i16>, more: Seq<i16>, a: int)
    requires
        all_within(s, a),
        all_within(more, a),
    ensures
        all_within(capped_append(s, more), a),
{
    let r = capped_append(s, more);
    assert forall|i: int| 0 <= i < r.len() implies -a <= #[trigger] r[i] as int <= a by {
        if i >= s.len() {
            assert(r[i] == more[i - s.len()]);
        } else {
            assert(r[i] == s[i]);
        }
    }
}

/// A capture that never rises above the threshold never ends an utterance:
/// the monitor stays idle, nothing is drained, and after any poll the buffer
/// holds at most the lookback window.
pub proof fn lemma_quiet_capture_never_transcribes(
    cfg: VadConfig,
    buf: Seq<i16>,
    source_rate: int,
    feeds: Seq<Seq<i16>>,
)
    requires
        source_rate >= 0,
        all_within(buf, cfg.threshold as int),
        forall|k: int| 0 <= k < feeds.len() ==> all_within(#[trigger] feeds[k], cfg.threshold as int),
    ensures
        run_polls(VadMonitor::idle(), cfg, buf, source_rate, feeds).0 == VadMonitor::idle(),
        run_polls(VadMonitor::idle(), cfg, buf, source_rate, feeds).2 == 0,
        all_within(run_polls(VadMonitor::idle(), cfg, buf, source_rate, feeds).1, cfg.threshold as int),
        feeds.len() > 0 ==> run_polls(VadMonitor::idle(), cfg, buf, source_rate, feeds).1.len()
            <= lookback(source_rate),
    decreases feeds.len(),
{
    let a = cfg.threshold as int;
    if feeds.len() > 0 {
        let init = feeds.drop_last();
        assert forall|k: int| 0 <= k < init.len() implies all_within(#[trigger] init[k], a) by {
            assert(init[k] == feeds[k]);
        }
        lemma_quiet_capture_never_transcribes(cfg, buf, source_rate, init);
        let (m1, b1, n1) = run_polls(VadMonitor::idle(), cfg, buf, source_rate, init);
        assert(all_within(feeds[feeds.len() - 1], a));
        let b = capped_append(b1, feeds.last());
        lemma_append_within(b1, feeds.last(), a);
        lemma_trailing_within(b, RMS_CHUNK_SIZE as int, a);
        lemma_rms_below_peak(trailing(b, RMS_CHUNK_SIZE as int), a);
        lemma_trailing_within(b, lookback(source_rate), a);
    }
}

/// The state that `lemma_speech_then_silence_ends_once` tracks after `j` polls.
spec fn speech_run_state(loud: int, quiet_needed: int, j: int) -> (VadMonitor, nat) {
    if j <= loud {
        (VadMonitor { speech_active: true, silence_chunks: 0 }, 0)
    } else if j - loud < quiet_needed {
        (VadMonitor { speech_active: true, silence_chunks: (j - loud) as u32 }, 0)
    } else {
        (VadMonitor::idle(), 1)
    }
}

proof fn lemma_speech_run_prefix(
    m: VadMonitor,
    cfg: VadConfig,
    levels: Seq<int>,
    loud: int,
    j: int,
)
    requires
        cfg.silence_polls() >= 1,
        1 <= loud,
        loud + cfg.silence_polls() <= levels.len(),
        forall|i: int| 0 <= i < loud ==> levels[i] > cfg.threshold,
        forall|i: int| loud <= i < levels.len() ==> levels[i] <= cfg.threshold,
        1 <= j <= levels.len(),
    ensures
        run_levels(m, cfg, levels.take(j)) == speech_run_state(loud, cfg.silence_polls(), j),
    decreases j,
{
    let pre = levels.take(j);
    assert(pre.drop_last() =~= levels.take(j - 1));
    assert(pre.last() == levels[j - 1]);
    let k = cfg.silence_polls();
    assert(k <= MAX_SILENCE_CHUNKS) by {
        assert(cfg.silence_ms as int / 50 <= 85899345);
    }
    let lv = levels[j - 1];
    if j == 1 {
        assert(levels.take(0) =~= Seq::<int>::empty());
        assert(lv > cfg.threshold);
        assert(run_levels(m, cfg, pre) == (m.next(cfg, lv).0, 0nat));
    } else {
        lemma_speech_run_prefix(m, cfg, levels, loud, j - 1);
        let (m1, n1) = speech_run_state(loud, k, j - 1);
        assert(run_levels(m, cfg, levels.take(j - 1)) == (m1, n1));
        let (m2, d) = m1.next(cfg, lv);
        assert(run_levels(m, cfg, pre) == (m2, n1 + if d == VadDecision::EndOfSpeech {
            1nat
        } else {
            0nat
        }));
        if j <= loud {
            assert(lv > cfg.threshold);
        } else {
            assert(lv <= cfg.threshold);
            if j - 1 - loud >= k {
                assert(m1 == VadMonitor::idle());
            } else if j - 1 <= loud {
                assert(m1.silence_chunks == 0);
            } else {
                assert(m1.silence_chunks == (j - 1 - loud));
            }
        }
    }
}

/// Speech for `loud >= 1` polls followed by at least `silence_polls` quiet polls
/// ends exactly one utterance, at the last quiet poll needed, and leaves the
/// monitor idle; before that poll nothing has ended.
pub proof fn lemma_speech_then_silence_ends_once(
    m: VadMonitor,
    cfg: VadConfig,
    levels: Seq<int>,
    loud: int,
)
    requires
        cfg.silence_ms >= POLL_INTERVAL_MS,
        1 <= loud,
        loud + cfg.silence_polls() <= levels.len(),
        forall|i: int| 0 <= i < loud ==> levels[i] > cfg.threshold,
        forall|i: int| loud <= i < levels.len() ==> levels[i] <= cfg.threshold,
    ensures
        run_levels(m, cfg, levels) == (VadMonitor::idle(), 1nat),
        run_levels(m, cfg, levels.take(loud + cfg.silence_polls() - 1)).1 == 0,
{
    lemma_speech_run_prefix(m, cfg, levels, loud, levels.len() as int);
    assert(levels.take(levels.len() as int) =~= levels);
    lemma_speech_run_prefix(m, cfg, levels, loud, loud + cfg.silence_polls() - 1);
}

/// When speech ends, the poll drains the whole buffer and leaves it empty.
pub proof fn lemma_end_of_speech_empties_buffer(
    m: VadMonitor,
    cfg: VadConfig,
    buf: Seq<i16>,
    source_rate: int,
)
    requires
        buf.len() > 0,
        m.next(cfg, poll_level(buf)).1 == VadDecision::EndOfSpeech,
    ensures
        m.poll_spec(cfg, buf, source_rate).1.len() == 0,
        m.poll_spec(cfg, buf, source_rate).2 == Some(buf),
{
}

/// A new configuration governs the very next poll: a level between two
/// thresholds is speech under the lower one and not under the higher, and a
/// shorter silence setting ends an utterance that a longer one keeps open.
pub proof fn lemma_config_applies_next_poll(m: VadMonitor, c1: VadConfig, c2: VadConfig, level: int)
    ensures
        c1.threshold < level <= c2.threshold ==> m.next(c1, level).1 == VadDecision::Speech
            && m.next(c2, level).1 != VadDecision::Speech,
        (m.speech_active && level <= c1.threshold && c1.threshold == c2.threshold
            && m.silence_chunks + 1 < c1.silence_polls() && m.silence_chunks + 1
            >= c2.silence_polls()) ==> m.next(c1, level).1 == VadDecision::Silence && m.next(
            c2,
            level,
        ).1 == VadDecision::EndOfSpeech,
{
}

/// A capture whose resampled length falls short of the minimum is handed to no
/// transcription: the push-to-talk stop answers it with empty text.
pub proof fn lemma_short_capture_is_empty(samples: Seq<i16>, source_rate: int)
    requires
        source_rate > 0,
        resampled_len(samples.len() as int, source_rate) < MIN_AUDIO_SAMPLES,
    ensures
        utterance_spec(samples, source_rate) is None,
{
    let n = samples.len() as int;
    assert(n * 16000 / source_rate >= 0) by (nonlinear_arith)
        requires
            n >= 0,
            source_rate > 0,
    ;
}

/// A quiet poll while idle keeps only the lookback window: the buffer becomes
/// its last `min(len, lookback)` samples and nothing is drained.
pub proof fn lemma_quiet_poll_keeps_lookback(cfg: VadConfig, buf: Seq<i16>, source_rate: int)
    requires
        buf.len() > 0,
        source_rate >= 0,
        poll_level(buf) <= cfg.threshold,
    ensures
        VadMonitor::idle().poll_spec(cfg, buf, source_rate) == (
            VadMonitor::idle(),
            trailing(buf, lookback(source_rate)),
            None::<Seq<i16>>,
        ),
        trailing(buf, lookback(source_rate)).len() == if buf.len() <= lookback(source_rate) {
            buf.len() as int
        } else {
            lookback(source_rate)
        },
{
}

} // verus!
