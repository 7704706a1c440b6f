//! Session bookkeeping: at most one push-to-talk recording, at most one VAD
//! session, and a transcription model that is loaded once.
use vstd::prelude::*;

verus! {

/// Failures of the capture and transcription commands.
#[derive(Debug, PartialEq, Eq)]
pub enum AudioError {
    /// The platform has no default input device.
    NoInputDevice,
    /// The input device's configuration could not be read.
    DeviceConfigError(String),
    /// The capture stream could not be built or started.
    StreamBuildError(String),
    /// A push-to-talk recording is already in progress.
    AlreadyRecording,
    /// A VAD session is already running.
    AlreadyRunning,
    /// Stop was requested with no recording in progress.
    NotRecording,
    /// Transcription was requested before the model was loaded.
    ModelNotInitialized,
    /// The model could not be located or loaded.
    ModelLoadError(String),
    /// Inference failed.
    InferenceError(String),
    /// A guarded resource's lock was poisoned.
    LockError(String),
}

/// Slot contents and outcome after a start request on a recording slot holding `v`.
pub open spec fn begin_recording_spec<H>(v: Option<(H, u32)>, handle: H, source_rate: u32) -> (
    Option<(H, u32)>,
    Result<(), AudioError>,
) {
    if v is Some {
        (v, Err(AudioError::AlreadyRecording))
    } else {
        (Some((handle, source_rate)), Ok(()))
    }
}

/// Slot contents and outcome after a stop request on a recording slot holding `v`.
pub open spec fn end_recording_spec<H>(v: Option<(H, u32)>) -> (
    Option<(H, u32)>,
    Result<(H, u32), AudioError>,
) {
    match v {
        Some(s) => (None, Ok(s)),
        None => (None, Err(AudioError::NotRecording)),
    }
}

/// Slot contents and outcome after a start request on a VAD slot holding `v`.
pub open spec fn begin_vad_spec<H>(v: Option<H>, handle: H) -> (Option<H>, Result<(), AudioError>) {
    if v is Some {
        (v, Err(AudioError::AlreadyRunning))
    } else {
        (Some(handle), Ok(()))
    }
}

/// The push-to-talk recording, if any: its capture handle and source rate.
pub struct RecordingSlot<H> {
    session: Option<(H, u32)>,
}

impl<H> View for RecordingSlot<H> {
    type V = Option<(H, u32)>;

    closed spec fn view(&self) -> Option<(H, u32)> {
        self.session
    }
}

impl<H> RecordingSlot<H> {
    /// No recording.
    pub fn new() -> (r: RecordingSlot<H>)
        ensures
            r@ is None,
    {
        RecordingSlot { session: None }
    }

    pub fn is_recording(&self) -> (r: bool)
        ensures
            r == (self@ is Some),
    {
        self.session.is_some()
    }

    /// Whether a start request may proceed: `AlreadyRecording` while one is in progress.
    pub fn check_start(&self) -> (r: Result<(), AudioError>)
        ensures
            r == (if self@ is Some {
                Err(AudioError::AlreadyRecording)
            } else {
                Ok(())
            }),
    {
        if self.session.is_some() {
            Err(AudioError::AlreadyRecording)
        } else {
            Ok(())
        }
    }

    /// Stores a freshly opened capture; refused, and the slot left as it was,
    /// while another recording is in progress.
    pub fn begin(&mut self, handle: H, source_rate: u32) -> (r: Result<(), AudioError>)
        ensures
            (final(self)@, r) == begin_recording_spec(old(self)@, handle, source_rate),
    {
        if self.session.is_some() {
            Err(AudioError::AlreadyRecording)
        } else {
            self.session = Some((handle, source_rate));
            Ok(())
        }
    }

    /// Removes the recording and hands back its capture and source rate;
    /// `NotRecording` when there is none.
    pub fn end(&mut self) -> (r: Result<(H, u32), AudioError>)
        ensures
            (final(self)@, r) == end_recording_spec(old(self)@),
    {
        match self.session.take() {
            Some(s) => Ok(s),
            None => Err(AudioError::NotRecording),
        }
    }
}

/// The running VAD session, if any: its capture and cancellation handle.
pub struct VadSlot<H> {
    session: Option<H>,
}

impl<H> View for VadSlot<H> {
    type V = Option<H>;

    closed spec fn view(&self) -> Option<H> {
        self.session
    }
}

impl<H> VadSlot<H> {
    /// No session.
    pub fn new() -> (r: VadSlot<H>)
        ensures
            r@ is None,
    {
        VadSlot { session: None }
    }

    pub fn is_running(&self) -> (r: bool)
        ensures
            r == (self@ is Some),
    {
        self.session.is_some()
    }

    /// Whether a start request may proceed: `AlreadyRunning` while a session runs.
    pub fn check_start(&self) -> (r: Result<(), AudioError>)
        ensures
            r == (if self@ is Some {
                Err(AudioError::AlreadyRunning)
            } else {
                Ok(())
            }),
    {
        if self.session.is_some() {
            Err(AudioError::AlreadyRunning)
        } else {
            Ok(())
        }
    }

    /// Stores a freshly started session; refused, and the slot left as it was,
    /// while another session runs.
    pub fn begin(&mut self, handle: H) -> (r: Result<(), AudioError>)
        ensures
            (final(self)@, r) == begin_vad_spec(old(self)@, handle),
    {
        if self.session.is_some() {
            Err(AudioError::AlreadyRunning)
        } else {
            self.session = Some(handle);
            Ok(())
        }
    }

    /// Removes the session, if any, and hands it back so that it can be
    /// cancelled; with no session this changes nothing.
    pub fn stop(&mut self) -> (r: Option<H>)
        ensures
            r == old(self)@,
            final(self)@ is None,
    {
        self.session.take()
    }
}

/// The transcription model: empty until the first successful load, then fixed.
pub struct ModelSlot<M> {
    model: Option<M>,
}

impl<M> View for ModelSlot<M> {
    type V = Option<M>;

    closed spec fn view(&self) -> Option<M> {
        self.model
    }
}

impl<M> ModelSlot<M> {
    /// No model.
    pub fn new() -> (r: ModelSlot<M>)
        ensures
            r@ is None,
    {
        ModelSlot { model: None }
    }

    pub fn is_loaded(&self) -> (r: bool)
        ensures
            r == (self@ is Some),
    {
        self.model.is_some()
    }

    /// Keeps `model` unless one is loaded already: the first load wins.
    pub fn install(&mut self, model: M)
        ensures
            final(self)@ == (if old(self)@ is Some {
                old(self)@
            } else {
                Some(model)
            }),
    {
        if self.model.is_none() {
            self.model = Some(model);
        }
    }

    /// The loaded model; `ModelNotInitialized` before the first load.
    pub fn get(&self) -> (r: Result<&M, AudioError>)
        ensures
            match self@ {
                Some(m) => r == Ok::<&M, AudioError>(&m),
                None => r == Err::<&M, AudioError>(AudioError::ModelNotInitialized),
            },
    {
        match &self.model {
            Some(m) => Ok(m),
            None => Err(AudioError::ModelNotInitialized),
        }
    }
}

/// Starting a recording while one is in progress is refused, however often it
/// is tried, and the first recording's state is kept.
pub proof fn lemma_recording_start_exclusive<H>(h1: H, r1: u32, h2: H, r2: u32, h3: H, r3: u32)
    ensures
        begin_recording_spec(None, h1, r1).1 == Ok::<(), AudioError>(()),
        begin_recording_spec(begin_recording_spec(None, h1, r1).0, h2, r2).1 == Err::<(), AudioError>(
            AudioError::AlreadyRecording,
        ),
        begin_recording_spec(begin_recording_spec(begin_recording_spec(None, h1, r1).0, h2, r2).0, h3, r3)
            == (Some((h1, r1)), Err::<(), AudioError>(AudioError::AlreadyRecording)),
{
}

/// Stopping with no recording in progress is `NotRecording`.
pub proof fn lemma_stop_without_start<H>()
    ensures
        end_recording_spec::<H>(None).1 == Err::<(H, u32), AudioError>(AudioError::NotRecording),
{
}

/// Of two start requests on an empty VAD slot, taken one after the other as its
/// lock orders them, exactly one succeeds and the other is `AlreadyRunning`;
/// the winner's session is the one kept.
pub proof fn lemma_vad_start_race<H>(first: H, second: H)
    ensures
        begin_vad_spec(None, first).1 == Ok::<(), AudioError>(()),
        begin_vad_spec(begin_vad_spec(None, first).0, second) == (
            Some(first),
            Err::<(), AudioError>(AudioError::AlreadyRunning),
        ),
{
}

} // verus!
