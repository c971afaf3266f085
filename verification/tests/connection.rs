use sender::link::{constant_eq, inbound_actions_for, Inbound, Link, LinkAction, LinkEvent, Outbound, Phase};
use sender::proto::Msg;

fn hello(pin: &str) -> Msg {
    Msg::Hello { pin: pin.to_string(), name: "phone".to_string() }
}

fn link() -> Link {
    Link::new("123456".to_string(), "10.0.0.7:5000".to_string())
}

fn only(acts: Vec<LinkAction>) -> LinkAction {
    assert_eq!(acts.len(), 1);
    acts.into_iter().next().unwrap()
}

fn log_text(a: LinkAction) -> String {
    match a {
        LinkAction::Log(s) => s,
        _ => panic!("not a log action"),
    }
}

#[test]
fn constant_eq_compares_whole_strings() {
    assert!(constant_eq("123456", "123456"));
    assert!(!constant_eq("123456", "123457"));
    assert!(!constant_eq("12345", "123456"));
    assert!(constant_eq("", ""));
    assert!(constant_eq("pïn", "pïn"));
    assert!(!constant_eq("pïn", "pin"));
}

#[test]
fn right_pin_is_welcomed_and_connected() {
    let mut l = link();
    let a = only(l.step(LinkEvent::FirstFrame(Some(hello("123456")))));
    match a {
        LinkAction::Send(Msg::Welcome { ok, err }) => {
            assert!(ok);
            assert_eq!(err, None);
        }
        _ => panic!("expected a welcome"),
    }
    assert_eq!(l.phase, Phase::Greeting { accepted: true });
    match only(l.step(LinkEvent::Delivered(true))) {
        LinkAction::Connected(peer) => assert_eq!(peer, "10.0.0.7:5000"),
        _ => panic!("expected connected"),
    }
    assert_eq!(l.phase, Phase::Relaying);
}

#[test]
fn wrong_pin_is_refused_and_closed() {
    let mut l = link();
    match only(l.step(LinkEvent::FirstFrame(Some(hello("000000"))))) {
        LinkAction::Send(Msg::Welcome { ok, err }) => {
            assert!(!ok);
            assert_eq!(err.as_deref(), Some("bad PIN"));
        }
        _ => panic!("expected a welcome"),
    }
    assert_eq!(log_text(only(l.step(LinkEvent::Delivered(true)))), "✗ rejected 10.0.0.7:5000 (bad PIN)");
    assert_eq!(l.phase, Phase::Closed);
    // nothing more happens
    assert!(l.step(LinkEvent::Inbound(Inbound::Text(Ok(Msg::Ping)))).is_empty());
    assert!(l.step(LinkEvent::Outbound(Outbound::Ready(Msg::Pong))).is_empty());
    assert_eq!(l.phase, Phase::Closed);
}

#[test]
fn first_frame_that_is_not_hello_is_refused() {
    for first in [None, Some(Msg::Ping), Some(Msg::Text { id: "1".into(), body: "123456".into(), ts: 0 })] {
        let mut l = link();
        match only(l.step(LinkEvent::FirstFrame(first))) {
            LinkAction::Send(Msg::Welcome { ok, .. }) => assert!(!ok),
            _ => panic!("expected a welcome"),
        }
        assert_eq!(l.phase, Phase::Greeting { accepted: false });
    }
}

#[test]
fn failed_welcome_closes_silently() {
    let mut l = link();
    l.step(LinkEvent::FirstFrame(Some(hello("123456"))));
    assert!(l.step(LinkEvent::Delivered(false)).is_empty());
    assert_eq!(l.phase, Phase::Closed);
}

#[test]
fn handshake_failure_is_logged() {
    let mut l = link();
    let line = log_text(only(l.step(LinkEvent::HandshakeFailed("boom".to_string()))));
    assert_eq!(line, "handshake failed 10.0.0.7:5000: boom");
    assert_eq!(l.phase, Phase::Closed);
}

fn relaying() -> Link {
    let mut l = link();
    l.step(LinkEvent::FirstFrame(Some(hello("123456"))));
    l.step(LinkEvent::Delivered(true));
    assert_eq!(l.phase, Phase::Relaying);
    l
}

#[test]
fn nothing_is_relayed_before_authentication() {
    let mut l = link();
    assert!(l.step(LinkEvent::Inbound(Inbound::Text(Ok(Msg::Text { id: "1".into(), body: "x".into(), ts: 1 })))).is_empty());
    assert!(l.step(LinkEvent::Outbound(Outbound::Ready(Msg::Ping))).is_empty());
    assert_eq!(l.phase, Phase::Handshaking);
}

#[test]
fn text_from_phone_goes_to_clipboard_and_log() {
    let mut l = relaying();
    let acts = l.step(LinkEvent::Inbound(Inbound::Text(Ok(Msg::Text { id: "1".into(), body: "hi".into(), ts: 5 }))));
    assert_eq!(acts.len(), 2);
    match &acts[0] {
        LinkAction::SetClipboardText(t) => assert_eq!(t, "hi"),
        _ => panic!("expected clipboard text"),
    }
    match &acts[1] {
        LinkAction::Log(t) => assert_eq!(t, "phone ▸ hi"),
        _ => panic!("expected a log line"),
    }
    assert_eq!(l.phase, Phase::Relaying);
}

#[test]
fn image_from_phone_is_handed_on() {
    let acts = inbound_actions_for(Msg::Img {
        id: "1".into(),
        name: "a.png".into(),
        mime: "image/png".into(),
        data: "AAAA".into(),
        ts: 2,
    });
    match only(acts) {
        LinkAction::SaveImage { name, mime, data } => {
            assert_eq!((name.as_str(), mime.as_str(), data.as_str()), ("a.png", "image/png", "AAAA"));
        }
        _ => panic!("expected save image"),
    }
    assert!(inbound_actions_for(Msg::Ack { id: "1".into(), ok: true, err: None }).is_empty());
    assert!(inbound_actions_for(Msg::Pong).is_empty());
    assert!(inbound_actions_for(hello("1")).is_empty());
}

#[test]
fn relay_handles_frames_and_queue() {
    let mut l = relaying();
    assert_eq!(log_text(only(l.step(LinkEvent::Inbound(Inbound::Text(Err("expected value".into())))))), "bad msg: expected value");
    match only(l.step(LinkEvent::Inbound(Inbound::Ping(vec![1, 2])))) {
        LinkAction::SendPong(p) => assert_eq!(p, vec![1, 2]),
        _ => panic!("expected pong"),
    }
    assert!(l.step(LinkEvent::Inbound(Inbound::Other)).is_empty());
    match only(l.step(LinkEvent::Outbound(Outbound::Ready(Msg::Ping)))) {
        LinkAction::Send(m) => assert_eq!(m, Msg::Ping),
        _ => panic!("expected send"),
    }
    assert!(l.step(LinkEvent::Delivered(true)).is_empty());
    assert_eq!(log_text(only(l.step(LinkEvent::Outbound(Outbound::Lagged(17))))), "slow consumer, dropped 17");
    assert_eq!(l.phase, Phase::Relaying);
}

#[test]
fn relay_ends_on_stream_end_queue_close_or_failed_send() {
    let mut l = relaying();
    match only(l.step(LinkEvent::Inbound(Inbound::Ended))) {
        LinkAction::Disconnected => {}
        _ => panic!("expected disconnected"),
    }
    assert_eq!(l.phase, Phase::Closed);

    let mut l = relaying();
    assert!(l.step(LinkEvent::Outbound(Outbound::Closed)).is_empty());
    assert_eq!(l.phase, Phase::Closed);

    let mut l = relaying();
    assert!(l.step(LinkEvent::Delivered(false)).is_empty());
    assert_eq!(l.phase, Phase::Closed);
}

#[test]
fn events_out_of_place_are_ignored() {
    let mut l = link();
    assert!(l.step(LinkEvent::Delivered(true)).is_empty());
    assert_eq!(l.phase, Phase::Handshaking);
    let mut l = relaying();
    assert!(l.step(LinkEvent::FirstFrame(Some(hello("123456")))).is_empty());
    assert!(l.step(LinkEvent::HandshakeFailed("x".into())).is_empty());
    assert_eq!(l.phase, Phase::Relaying);
}
