use glazebot::transcript::transcript_text;
use glazebot::oauth::{callback_outcome, ok_response, request_target, OAuthError, OAuthState};
use glazebot::ptt::{
    js_code_to_key, plan_listener_start, tray_action, KeyEvent, PttError, PttKey, PttSignal,
    PttTracker, TrayAction,
};

#[test]
fn request_targets() {
    assert_eq!(request_target("GET /callback?code=abc HTTP/1.1\r\nHost: x\r\n\r\n"), "/callback?code=abc");
    assert_eq!(request_target("GET  \t/a  HTTP/1.1"), "/a");
    assert_eq!(request_target(""), "/");
    assert_eq!(request_target("GET"), "/");
    assert_eq!(request_target("GET\n/abc"), "/");
}

#[test]
fn callback_detection() {
    assert_eq!(
        callback_outcome(8080, "GET /cb?code=1 HTTP/1.1\r\n"),
        Some("http://localhost:8080/cb?code=1".to_string())
    );
    assert_eq!(
        callback_outcome(53123, "GET /?access_token=t&x=1 HTTP/1.1"),
        Some("http://localhost:53123/?access_token=t&x=1".to_string())
    );
    assert_eq!(callback_outcome(8080, "GET /favicon.ico HTTP/1.1\r\n"), None);
    assert_eq!(callback_outcome(8080, ""), None);
}

#[test]
fn response_framing() {
    assert_eq!(
        ok_response("<p>hi</p>"),
        "HTTP/1.1 200 OK\r\nContent-Type: text/html\r\nContent-Length: 9\r\nConnection: close\r\n\r\n<p>hi</p>"
    );
    assert!(ok_response("é").contains("Content-Length: 2\r\n"));
}

#[test]
fn oauth_receiver_is_taken_once() {
    let mut state: OAuthState<u8> = OAuthState::new();
    assert_eq!(state.take(), Err(OAuthError::NoServerRunning));
    state.store(5);
    state.store(6);
    assert_eq!(state.take(), Ok(6));
    assert_eq!(state.take(), Err(OAuthError::NoServerRunning));
}

#[test]
fn key_codes() {
    assert_eq!(js_code_to_key("ShiftLeft"), Some(PttKey::ShiftLeft));
    assert_eq!(js_code_to_key("AltLeft"), Some(PttKey::Alt));
    assert_eq!(js_code_to_key("AltRight"), Some(PttKey::AltGr));
    assert_eq!(js_code_to_key("Backquote"), Some(PttKey::BackQuote));
    assert_eq!(js_code_to_key("F12"), Some(PttKey::F12));
    assert_eq!(js_code_to_key("Space"), Some(PttKey::Space));
    assert_eq!(js_code_to_key("KeyV"), None);
    assert_eq!(js_code_to_key(""), None);
}

#[test]
fn listener_start_plans() {
    assert_eq!(plan_listener_start(true, "KeyV"), Ok(None));
    assert_eq!(plan_listener_start(false, "Space"), Ok(Some(PttKey::Space)));
    assert_eq!(plan_listener_start(false, "KeyV"), Err(PttError::UnsupportedKey("KeyV".to_string())));
}

#[test]
fn one_signal_per_press() {
    let mut t = PttTracker::new();
    let k = PttKey::Space;
    assert_eq!(t.on_event(KeyEvent::Release(k), k), None);
    assert_eq!(t.on_event(KeyEvent::Press(k), k), Some(PttSignal::Pressed));
    assert_eq!(t.on_event(KeyEvent::Press(k), k), None);
    assert_eq!(t.on_event(KeyEvent::Press(PttKey::F1), k), None);
    assert_eq!(t.on_event(KeyEvent::Release(PttKey::F1), k), None);
    assert_eq!(t.on_event(KeyEvent::Other, k), None);
    assert_eq!(t.on_event(KeyEvent::Release(k), k), Some(PttSignal::Released));
    assert_eq!(t.on_event(KeyEvent::Release(k), k), None);
}

#[test]
fn tray_actions() {
    assert_eq!(tray_action("show"), TrayAction::Show);
    assert_eq!(tray_action("quit"), TrayAction::Quit);
    assert_eq!(tray_action("Show"), TrayAction::Dismiss);
    assert_eq!(tray_action(""), TrayAction::Dismiss);
}

#[test]
fn transcript_joins_and_trims_segments() {
    let parts = vec![" Hello".to_string(), " world.".to_string(), "  \n".to_string()];
    assert_eq!(transcript_text(&parts), "Hello world.");
    assert_eq!(transcript_text(&vec![]), "");
    assert_eq!(transcript_text(&vec!["\u{3000}\t".to_string()]), "");
    let odd = "\u{a0}\u{2003}mixed\u{85} \u{2028}".to_string();
    assert_eq!(transcript_text(&vec![odd.clone()]), odd.trim());
    assert_eq!(transcript_text(&vec!["a ".to_string(), " b".to_string()]), "a  b");
}
