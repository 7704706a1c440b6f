//! Push-to-talk: which keys can be bound, and turning raw key events into one
//! pressed and one released signal per physical press.
use vstd::prelude::*;
use crate::text::{chars_of, same_chars};

verus! {

/// Keys that push-to-talk can be bound to.
#[derive(Clone, Copy, Debug, PartialEq, Eq, Structural)]
pub enum PttKey {
    ShiftLeft,
    ShiftRight,
    ControlLeft,
    ControlRight,
    Alt,
    AltGr,
    CapsLock,
    Tab,
    BackQuote,
    F1,
    F2,
    F3,
    F4,
    F5,
    F6,
    F7,
    F8,
    F9,
    F10,
    F11,
    F12,
    Space,
}

/// A keyboard event as the listener sees it.
#[derive(Clone, Copy, Debug, PartialEq, Eq, Structural)]
pub enum KeyEvent {
    Press(PttKey),
    Release(PttKey),
    /// Any other key or event.
    Other,
}

/// What the listener tells the front end.
#[derive(Clone, Copy, Debug, PartialEq, Eq, Structural)]
pub enum PttSignal {
    Pressed,
    Released,
}

/// Failures of starting the listener.
#[derive(Debug, PartialEq, Eq)]
pub enum PttError {
    /// The key code names no key that can be bound.
    UnsupportedKey(String),
}

/// The key that a browser key code (`KeyboardEvent.code`) designates.
pub open spec fn key_for_code(code: Seq<char>) -> Option<PttKey> {
    if code == "ShiftLeft"@ {
        Some(PttKey::ShiftLeft)
    } else if code == "ShiftRight"@ {
        Some(PttKey::ShiftRight)
    } else if code == "ControlLeft"@ {
        Some(PttKey::ControlLeft)
    } else if code == "ControlRight"@ {
        Some(PttKey::ControlRight)
    } else if code == "AltLeft"@ {
        Some(PttKey::Alt)
    } else if code == "AltRight"@ {
        Some(PttKey::AltGr)
    } else if code == "CapsLock"@ {
        Some(PttKey::CapsLock)
    } else if code == "Tab"@ {
        Some(PttKey::Tab)
    } else if code == "Backquote"@ {
        Some(PttKey::BackQuote)
    } else if code == "F1"@ {
        Some(PttKey::F1)
    } else if code == "F2"@ {
        Some(PttKey::F2)
    } else if code == "F3"@ {
        Some(PttKey::F3)
    } else if code == "F4"@ {
        Some(PttKey::F4)
    } else if code == "F5"@ {
        Some(PttKey::F5)
    } else if code == "F6"@ {
        Some(PttKey::F6)
    } else if code == "F7"@ {
        Some(PttKey::F7)
    } else if code == "F8"@ {
        Some(PttKey::F8)
    } else if code == "F9"@ {
        Some(PttKey::F9)
    } else if code == "F10"@ {
        Some(PttKey::F10)
    } else if code == "F11"@ {
        Some(PttKey::F11)
    } else if code == "F12"@ {
        Some(PttKey::F12)
    } else if code == "Space"@ {
        Some(PttKey::Space)
    } else {
        None
    }
}

/// Whether `code` is exactly `name`.
fn is_code(code: &Vec<char>, name: &str) -> (r: bool)
    ensures
        r == (code@ == name@),
{
    same_chars(code, &chars_of(name))
}

/// Maps a browser key code to a bindable key.
pub fn js_code_to_key(code: &str) -> (r: Option<PttKey>)
    ensures
        r == key_for_code(code@),
{
    let c = chars_of(code);
    if is_code(&c, "ShiftLeft") {
        Some(PttKey::ShiftLeft)
    } else if is_code(&c, "ShiftRight") {
        Some(PttKey::ShiftRight)
    } else if is_code(&c, "ControlLeft") {
        Some(PttKey::ControlLeft)
    } else if is_code(&c, "ControlRight") {
        Some(PttKey::ControlRight)
    } else if is_code(&c, "AltLeft") {
        Some(PttKey::Alt)
    } else if is_code(&c, "AltRight") {
        Some(PttKey::AltGr)
    } else if is_code(&c, "CapsLock") {
        Some(PttKey::CapsLock)
    } else if is_code(&c, "Tab") {
        Some(PttKey::Tab)
    } else if is_code(&c, "Backquote") {
        Some(PttKey::BackQuote)
    } else if is_code(&c, "F1") {
        Some(PttKey::F1)
    } else if is_code(&c, "F2") {
        Some(PttKey::F2)
    } else if is_code(&c, "F3") {
        Some(PttKey::F3)
    } else if is_code(&c, "F4") {
        Some(PttKey::F4)
    } else if is_code(&c, "F5") {
        Some(PttKey::F5)
    } else if is_code(&c, "F6") {
        Some(PttKey::F6)
    } else if is_code(&c, "F7") {
        Some(PttKey::F7)
    } else if is_code(&c, "F8") {
        Some(PttKey::F8)
    } else if is_code(&c, "F9") {
        Some(PttKey::F9)
    } else if is_code(&c, "F10") {
        Some(PttKey::F10)
    } else if is_code(&c, "F11") {
        Some(PttKey::F11)
    } else if is_code(&c, "F12") {
        Some(PttKey::F12)
    } else if is_code(&c, "Space") {
        Some(PttKey::Space)
    } else {
        None
    }
}

/// What a start request does: nothing when a listener already runs, else
/// listen for the key that `code` names, or refuse an unsupported code.
pub fn plan_listener_start(running: bool, code: &str) -> (r: Result<Option<PttKey>, PttError>)
    ensures
        running ==> r == Ok::<Option<PttKey>, PttError>(None),
        !running ==> match key_for_code(code@) {
            Some(k) => r == Ok::<Option<PttKey>, PttError>(Some(k)),
            None => r matches Err(PttError::UnsupportedKey(c)) && c@ == code@,
        },
{
    if running {
        return Ok(None);
    }
    match js_code_to_key(code) {
        Some(k) => Ok(Some(k)),
        None => Err(PttError::UnsupportedKey(code.to_owned())),
    }
}

/// Whether the bound key is held: auto-repeated presses and stray releases
/// produce no signal.
#[derive(Clone, Copy, Debug, PartialEq, Eq, Structural)]
pub struct PttTracker {
    pub pressed: bool,
}

impl PttTracker {
    /// Tracker state and signal after `event`, for the key `target`.
    pub open spec fn next(self, event: KeyEvent, target: PttKey) -> (PttTracker, Option<PttSignal>) {
        match event {
            KeyEvent::Press(k) => if k == target && !self.pressed {
                (PttTracker { pressed: true }, Some(PttSignal::Pressed))
            } else {
                (self, None)
            },
            KeyEvent::Release(k) => if k == target && self.pressed {
                (PttTracker { pressed: false }, Some(PttSignal::Released))
            } else {
                (self, None)
            },
            KeyEvent::Other => (self, None),
        }
    }

    /// Key not held.
    pub fn new() -> (r: PttTracker)
        ensures
            !r.pressed,
    {
        PttTracker { pressed: false }
    }

    /// Feeds one event; a signal comes only when the held state of `target` changes.
    pub fn on_event(&mut self, event: KeyEvent, target: PttKey) -> (r: Option<PttSignal>)
        ensures
            (*final(self), r) == old(self).next(event, target),
    {
        match event {
            KeyEvent::Press(k) => {
                if k == target && !self.pressed {
                    self.pressed = true;
                    Some(PttSignal::Pressed)
                } else {
                    None
                }
            },
            KeyEvent::Release(k) => {
                if k == target && self.pressed {
                    self.pressed = false;
                    Some(PttSignal::Released)
                } else {
                    None
                }
            },
            KeyEvent::Other => None,
        }
    }
}

/// Signals alternate: a pressed signal only when the key was not held, a
/// released signal only when it was, so each physical press yields at most one
/// of each, in order.
pub proof fn lemma_signals_alternate(t: PttTracker, event: KeyEvent, target: PttKey)
    ensures
        t.next(event, target).1 == Some(PttSignal::Pressed) ==> !t.pressed && t.next(
            event,
            target,
        ).0.pressed,
        t.next(event, target).1 == Some(PttSignal::Released) ==> t.pressed && !t.next(
            event,
            target,
        ).0.pressed,
        t.next(event, target).1 is None ==> t.next(event, target).0 == t,
{
}

/// Tray menu choices.
#[derive(Clone, Copy, Debug, PartialEq, Eq, Structural)]
pub enum TrayAction {
    /// Show and focus the main window.
    Show,
    /// Exit the application.
    Quit,
    /// Only close the menu.
    Dismiss,
}

/// The choice a tray menu action name stands for.
pub open spec fn tray_action_spec(action: Seq<char>) -> TrayAction {
    if action == "show"@ {
        TrayAction::Show
    } else if action == "quit"@ {
        TrayAction::Quit
    } else {
        TrayAction::Dismiss
    }
}

/// Reads a tray menu action name.
pub fn tray_action(action: &str) -> (r: TrayAction)
    ensures
        r == tray_action_spec(action@),
{
    let a = chars_of(action);
    if is_code(&a, "show") {
        TrayAction::Show
    } else if is_code(&a, "quit") {
        TrayAction::Quit
    } else {
        TrayAction::Dismiss
    }
}

} // verus!
