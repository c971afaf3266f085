use sender::console::{
    footer_hint, headless_banner, headless_line, headless_report, host_with_port, input_line,
    line_tone, qr_panel_shown, qr_width, send_argument, status_label, tui_banner, wants_headless,
    ws_address, Key, KeyOutcome, LineOutcome, State, Tone, UiEvent, LOG_CAPACITY,
};
use sender::qr::{pair_url, qr_lines, qr_text, rows_for};

fn s(x: &str) -> String {
    x.to_string()
}

fn connected() -> State {
    let mut st = State::new();
    st.on_ui(UiEvent::Connected(s("10.0.0.7:5000")));
    st
}

fn type_text(st: &mut State, text: &str) {
    for c in text.chars() {
        assert!(matches!(st.on_key(Key::Char { c, ctrl: false }), KeyOutcome::Nothing));
    }
}

#[test]
fn pair_url_is_the_canonical_payload() {
    assert_eq!(pair_url("192.168.1.20:8787", "123456"), "sender://pair?host=192.168.1.20:8787&pin=123456");
}

#[test]
fn qr_rows_are_a_square_block() {
    let rows = qr_lines("sender://pair?host=192.168.1.20:8787&pin=123456");
    assert!(rows.len() > 10);
    let w = rows[0].chars().count();
    assert!(rows.iter().all(|r| r.chars().count() == w));
    assert!(rows.iter().all(|r| r.chars().all(|c| " ▀▄█".contains(c))));
    assert_eq!(qr_text("sender://pair?host=192.168.1.20:8787&pin=123456"), rows.join("\n"));
    assert_eq!(qr_width(&rows) as usize, w);
}

#[test]
fn too_long_payload_is_shown_as_text() {
    let payload = "x".repeat(8000);
    assert_eq!(qr_lines(&payload), vec![payload.clone()]);
    assert_eq!(qr_text(&payload), payload);
    assert_eq!(rows_for("p", None), vec![s("p")]);
    assert_eq!(rows_for("p", Some("a\nb")), vec![s("a"), s("b")]);
}

#[test]
fn log_keeps_the_last_lines() {
    let mut st = State::new();
    for i in 0..(LOG_CAPACITY + 5) {
        st.log(format!("line {}", i));
    }
    assert_eq!(st.log.len(), LOG_CAPACITY);
    assert_eq!(st.log.front().unwrap(), "line 5");
    assert_eq!(st.log.back().unwrap(), &format!("line {}", LOG_CAPACITY + 4));
}

#[test]
fn enter_sends_the_trimmed_line() {
    let mut st = connected();
    type_text(&mut st, "  hi  ");
    match st.on_key(Key::Enter) {
        KeyOutcome::Send(body) => assert_eq!(body, "hi"),
        _ => panic!("expected send"),
    }
    assert_eq!(st.input, "");
    assert_eq!(st.log.back().unwrap(), "you ▸ hi");
}

#[test]
fn enter_without_phone_is_refused_and_blank_is_ignored() {
    let mut st = State::new();
    type_text(&mut st, "hello");
    assert!(matches!(st.on_key(Key::Enter), KeyOutcome::Nothing));
    assert_eq!(st.input, "");
    assert_eq!(st.log.back().unwrap(), "no phone connected yet");
    let mut st = connected();
    type_text(&mut st, "   ");
    let before = st.log.len();
    assert!(matches!(st.on_key(Key::Enter), KeyOutcome::Nothing));
    assert_eq!(st.input, "   ");
    assert_eq!(st.log.len(), before);
}

#[test]
fn command_keys_apply_only_to_an_empty_line() {
    let mut st = connected();
    assert!(matches!(st.on_key(Key::Char { c: 'r', ctrl: false }), KeyOutcome::Nothing));
    assert!(!st.show_qr);
    assert!(matches!(st.on_key(Key::Char { c: 'r', ctrl: false }), KeyOutcome::Nothing));
    assert!(st.show_qr);
    assert!(matches!(st.on_key(Key::Char { c: 'p', ctrl: false }), KeyOutcome::PushClipboard));
    assert!(matches!(st.on_key(Key::Char { c: 'q', ctrl: false }), KeyOutcome::Quit));
    assert!(matches!(st.on_key(Key::Esc), KeyOutcome::Quit));
    type_text(&mut st, "x");
    type_text(&mut st, "qrp");
    assert_eq!(st.input, "xqrp");
    assert!(matches!(st.on_key(Key::Esc), KeyOutcome::Nothing));
    assert!(matches!(st.on_key(Key::Char { c: 'c', ctrl: true }), KeyOutcome::Quit));
    assert!(matches!(st.on_key(Key::Backspace), KeyOutcome::Nothing));
    assert_eq!(st.input, "xqr");
    assert!(matches!(st.on_key(Key::Other), KeyOutcome::Nothing));
    let mut idle = State::new();
    assert!(matches!(idle.on_key(Key::Char { c: 'p', ctrl: false }), KeyOutcome::Nothing));
    assert_eq!(idle.log.back().unwrap(), "no phone connected yet");
    assert!(matches!(idle.on_key(Key::Backspace), KeyOutcome::Nothing));
    assert!(matches!(idle.on_key(Key::Char { c: 'c', ctrl: false }), KeyOutcome::Nothing));
    assert_eq!(idle.input, "c");
}

#[test]
fn connection_events_update_the_interface() {
    let mut st = State::new();
    st.on_ui(UiEvent::Disconnected);
    assert!(st.log.is_empty());
    st.on_ui(UiEvent::Connected(s("peer")));
    assert_eq!(st.phone.as_deref(), Some("peer"));
    assert_eq!(st.log.back().unwrap(), "✓ phone connected: peer");
    st.on_ui(UiEvent::Log(s("note")));
    assert_eq!(st.log.back().unwrap(), "note");
    st.on_ui(UiEvent::Disconnected);
    assert!(st.phone.is_none());
    assert_eq!(st.log.back().unwrap(), "phone disconnected");
}

#[test]
fn headless_input_and_reports() {
    assert!(matches!(headless_line("  \n", true), LineOutcome::Ignore));
    match headless_line("hi\n", false) {
        LineOutcome::Print(p) => assert_eq!(p, "(no phone connected)"),
        _ => panic!(),
    }
    match headless_line(" hi there \n", true) {
        LineOutcome::Send { echo, body } => {
            assert_eq!(echo, "you ▸ hi there");
            assert_eq!(body, "hi there");
        }
        _ => panic!(),
    }
    assert_eq!(headless_report(UiEvent::Log(s("x"))), (s("x"), None));
    assert_eq!(headless_report(UiEvent::Connected(s("p"))), (s("✓ phone connected: p"), Some(true)));
    assert_eq!(headless_report(UiEvent::Disconnected), (s("phone disconnected"), Some(false)));
}

#[test]
fn command_line_arguments() {
    let args = vec![s("sender"), s("--headless"), s("--send"), s("hello"), s("--send"), s("x")];
    assert!(wants_headless(&args));
    assert_eq!(send_argument(&args), Some(s("hello")));
    assert!(!wants_headless(&vec![s("sender")]));
    assert_eq!(send_argument(&vec![s("sender"), s("--send")]), None);
    assert_eq!(send_argument(&vec![s("sender")]), None);
}

#[test]
fn screen_texts() {
    assert_eq!(host_with_port("192.168.1.20"), "192.168.1.20:8787");
    assert_eq!(ws_address("192.168.1.20"), "ws://192.168.1.20:8787");
    assert_eq!(
        tui_banner("ws://h:8787", "123456"),
        vec![s("pair url  ws://h:8787"), s("pin       123456"), s("scan the QR on the right (r toggles) or enter PIN manually")]
    );
    let b = headless_banner("ws://h:8787", "123456", "sender://x", "QR");
    assert_eq!(b[2], "qr        sender://x");
    assert_eq!(b[3], "QR");
    assert_eq!(b[4], "type a line + Enter to send it to the phone; Ctrl-D to quit");
    assert_eq!(status_label(&Some(s("p"))), " ● p ");
    assert_eq!(status_label(&None), " ○ waiting for phone ");
    assert_eq!(footer_hint(true), "type + Enter send · p push clipboard · r QR · q quit");
    assert_eq!(footer_hint(false), "scan QR or type PIN on phone · p push clipboard · r QR · q quit");
    assert_eq!(input_line("ab"), "ab▏");
}

#[test]
fn log_line_colours() {
    assert_eq!(line_tone("✓ phone connected: p"), Tone::Good);
    assert_eq!(line_tone("✗ rejected"), Tone::Bad);
    assert_eq!(line_tone("FATAL: cannot bind"), Tone::Bad);
    assert_eq!(line_tone("you ▸ hi"), Tone::Mine);
    assert_eq!(line_tone("phone ▸ hi"), Tone::Plain);
    assert_eq!(line_tone(""), Tone::Plain);
}

#[test]
fn qr_panel_needs_room() {
    assert!(qr_panel_shown(true, 30, 80));
    assert!(!qr_panel_shown(true, 31, 80));
    assert!(!qr_panel_shown(false, 30, 200));
    assert!(!qr_panel_shown(true, 0, 200));
    assert_eq!(qr_width(&vec![s("ab"), s("▀▀▀"), s("")]), 3);
    assert_eq!(qr_width(&vec![]), 0);
}
