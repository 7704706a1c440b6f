use glazebot::session::{AudioError, ModelSlot, RecordingSlot, VadSlot};

#[test]
fn second_recording_start_is_refused() {
    let mut slot: RecordingSlot<&str> = RecordingSlot::new();
    assert_eq!(slot.check_start(), Ok(()));
    assert_eq!(slot.begin("first", 48000), Ok(()));
    assert_eq!(slot.check_start(), Err(AudioError::AlreadyRecording));
    assert_eq!(slot.begin("second", 44100), Err(AudioError::AlreadyRecording));
    assert_eq!(slot.begin("third", 16000), Err(AudioError::AlreadyRecording));
    assert_eq!(slot.end(), Ok(("first", 48000)));
    assert!(!slot.is_recording());
}

#[test]
fn stop_without_start_is_not_recording() {
    let mut slot: RecordingSlot<u8> = RecordingSlot::new();
    assert_eq!(slot.end(), Err(AudioError::NotRecording));
    assert_eq!(slot.begin(1, 16000), Ok(()));
    assert_eq!(slot.end(), Ok((1, 16000)));
    assert_eq!(slot.end(), Err(AudioError::NotRecording));
}

#[test]
fn two_vad_starts_one_wins() {
    let mut slot: VadSlot<u32> = VadSlot::new();
    let results = [slot.begin(1), slot.begin(2)];
    assert_eq!(results.iter().filter(|r| r.is_ok()).count(), 1);
    assert_eq!(results[1], Err(AudioError::AlreadyRunning));
    assert!(slot.is_running());
    assert_eq!(slot.stop(), Some(1));
    assert_eq!(slot.stop(), None);
    assert_eq!(slot.check_start(), Ok(()));
}

#[test]
fn model_first_load_wins() {
    let mut slot: ModelSlot<&str> = ModelSlot::new();
    assert_eq!(slot.get(), Err(AudioError::ModelNotInitialized));
    slot.install("tiny");
    slot.install("other");
    assert!(slot.is_loaded());
    assert_eq!(slot.get(), Ok(&"tiny"));
}
