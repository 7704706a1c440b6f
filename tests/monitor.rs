use glazebot::buffer::SampleBuffer;
use glazebot::dsp::resample_to_16k;
use glazebot::vad::{
    prepare_utterance, speech_event, VadConfig, VadDecision, VadMonitor, DEFAULT_SILENCE_MS,
    DEFAULT_THRESHOLD, POLL_INTERVAL_MS,
};

#[test]
fn default_config() {
    let cfg = VadConfig::new();
    assert_eq!(cfg.threshold, DEFAULT_THRESHOLD);
    assert_eq!(cfg.silence_ms, DEFAULT_SILENCE_MS);
}

#[test]
fn empty_buffer_poll_changes_nothing() {
    let cfg = VadConfig::new();
    let mut m = VadMonitor::new();
    let mut buf = SampleBuffer::new();
    assert!(m.poll(&cfg, &mut buf, 16000).is_none());
    assert_eq!(m, VadMonitor::new());
}

#[test]
fn quiet_capture_never_transcribes_and_trims_to_lookback() {
    let cfg = VadConfig::new();
    let mut m = VadMonitor::new();
    let mut buf = SampleBuffer::new();
    for round in 0..50 {
        buf.push_frames(&vec![100i16; 3000 + round * 10], 1);
        assert!(m.poll(&cfg, &mut buf, 16000).is_none());
        assert!(buf.len() <= 8000);
        assert!(!m.speech_active);
    }
    assert_eq!(buf.len(), 8000);
}

#[test]
fn speech_then_silence_fires_exactly_once() {
    let cfg = VadConfig::new();
    let polls = (cfg.silence_ms / POLL_INTERVAL_MS) as usize;
    assert_eq!(polls, 30);
    let mut m = VadMonitor::new();
    let mut buf = SampleBuffer::new();
    buf.push_frames(&vec![2000i16; 1000], 1);
    assert!(m.poll(&cfg, &mut buf, 16000).is_none());
    assert!(m.speech_active);
    buf.push_frames(&vec![0i16; 512], 1);
    let mut fired = Vec::new();
    for i in 0..polls + 5 {
        if let Some(u) = m.poll(&cfg, &mut buf, 16000) {
            fired.push((i, u.len()));
            assert!(buf.is_empty());
        }
    }
    assert_eq!(fired, vec![(polls - 1, 1512)]);
    assert!(!m.speech_active);
}

#[test]
fn step_ends_after_configured_silence() {
    let cfg = VadConfig { threshold: 655, silence_ms: 200 };
    let mut m = VadMonitor::new();
    assert_eq!(m.step(&cfg, 700), VadDecision::Speech);
    assert_eq!(m.step(&cfg, 10), VadDecision::Silence);
    assert_eq!(m.step(&cfg, 10), VadDecision::Silence);
    assert_eq!(m.step(&cfg, 700), VadDecision::Speech);
    assert_eq!(m.step(&cfg, 655), VadDecision::Silence);
    assert_eq!(m.step(&cfg, 0), VadDecision::Silence);
    assert_eq!(m.step(&cfg, 0), VadDecision::Silence);
    assert_eq!(m.step(&cfg, 0), VadDecision::EndOfSpeech);
    assert_eq!(m.step(&cfg, 0), VadDecision::Idle);
}

#[test]
fn config_change_applies_on_next_poll() {
    let mut cfg = VadConfig::new();
    let mut m = VadMonitor::new();
    let mut buf = SampleBuffer::new();
    buf.push_frames(&vec![1000i16; 10000], 1);
    cfg.set(2000, 1500);
    assert!(m.poll(&cfg, &mut buf, 16000).is_none());
    assert!(!m.speech_active);
    assert_eq!(buf.len(), 8000);
    cfg.set(655, 1500);
    assert!(m.poll(&cfg, &mut buf, 16000).is_none());
    assert!(m.speech_active);
    buf.push_frames(&vec![0i16; 512], 1);
    cfg.set(655, 50);
    assert_eq!(m.poll(&cfg, &mut buf, 16000).map(|u| u.len()), Some(8512));
}

#[test]
fn end_to_end_at_48k() {
    let loud = vec![1638i16; 96000];
    assert_eq!(resample_to_16k(&loud, 48000).len(), 32000);
    let cfg = VadConfig::new();
    let mut m = VadMonitor::new();
    let mut buf = SampleBuffer::new();
    buf.push_frames(&loud, 1);
    assert_eq!(buf.tail_rms(512), 1638);
    assert!(m.poll(&cfg, &mut buf, 48000).is_none());
    assert!(m.speech_active);
    buf.push_frames(&vec![0i16; 512], 1);
    let mut utterances = Vec::new();
    for _ in 0..(cfg.silence_ms / POLL_INTERVAL_MS + 1) {
        if let Some(u) = m.poll(&cfg, &mut buf, 48000) {
            utterances.push(u);
        }
    }
    assert_eq!(utterances.len(), 1);
    assert_eq!(utterances[0].len(), 96512);
    let prepared = prepare_utterance(&utterances[0], 48000).unwrap();
    assert_eq!(prepared.len(), 32170);
    assert!(prepared[..32000].iter().all(|&s| s == 1638));
}

#[test]
fn short_utterances_are_not_transcribed() {
    assert!(prepare_utterance(&vec![10i16; 4799], 16000).is_none());
    assert_eq!(prepare_utterance(&vec![10i16; 4800], 16000).map(|v| v.len()), Some(4800));
    assert!(prepare_utterance(&vec![10i16; 14399], 48000).is_none());
    assert_eq!(prepare_utterance(&vec![10i16; 14400], 48000).map(|v| v.len()), Some(4800));
}

#[test]
fn only_non_empty_text_is_emitted() {
    assert_eq!(speech_event::<String>(Ok("hello".to_string())), Some("hello".to_string()));
    assert_eq!(speech_event::<String>(Ok(String::new())), None);
    assert_eq!(speech_event::<String>(Err("inference failed".to_string())), None);
}
