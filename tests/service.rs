use howareyou::delay::{count_digits, wait_gate, wait_outcome, WaitError, WaitTime, MAX_WAIT_DIGITS};
use howareyou::health::{health, health_route};
use howareyou::method::Method;
use howareyou::relay::{is_forwarded, relay_step, Frame, FrameKind, RelayAction, RelayEvent, RelayState};

#[test]
fn wait_in_milliseconds() {
    assert_eq!(wait_gate(Some("200ms")), Ok(Some(WaitTime { secs: 0, nanos: 200_000_000 })));
}

#[test]
fn wait_in_seconds_and_compound() {
    assert_eq!(wait_gate(Some("2s")), Ok(Some(WaitTime { secs: 2, nanos: 0 })));
    assert_eq!(wait_gate(Some("1s 500ms")), Ok(Some(WaitTime { secs: 1, nanos: 500_000_000 })));
    assert_eq!(wait_gate(Some("0")), Ok(Some(WaitTime { secs: 0, nanos: 0 })));
}

#[test]
fn wait_absent_means_no_delay() {
    assert_eq!(wait_gate(None), Ok(None));
}

#[test]
fn wait_malformed_is_refused() {
    assert_eq!(wait_gate(Some("soon")), Err(WaitError::Malformed));
    assert_eq!(wait_gate(Some("")), Err(WaitError::Malformed));
    assert_eq!(wait_outcome(None), Err(WaitError::Malformed));
    let w = WaitTime { secs: 3, nanos: 7 };
    assert_eq!(wait_outcome(Some(w)), Ok(Some(w)));
}

#[test]
fn wait_with_too_many_digits_is_refused() {
    assert_eq!(wait_gate(Some("18446744073709551615s 1000000000ns")), Err(WaitError::Malformed));
    assert_eq!(wait_gate(Some("123456789012ms")), Err(WaitError::Malformed));
}

#[test]
fn wait_at_digit_bound_is_read() {
    assert_eq!(MAX_WAIT_DIGITS, 11);
    assert_eq!(wait_gate(Some("99999999999s")), Ok(Some(WaitTime { secs: 99_999_999_999, nanos: 0 })));
    assert_eq!(wait_gate(Some("1s 999999999ns")), Ok(Some(WaitTime { secs: 1, nanos: 999_999_999 })));
}

#[test]
fn digits_counted_in_ascii_only() {
    assert_eq!(count_digits(""), 0);
    assert_eq!(count_digits("1s 500ms"), 4);
    assert_eq!(count_digits("\u{661}\u{662}x9"), 1);
}

#[test]
fn health_answers_get_and_head_only() {
    let ok = health();
    assert_eq!(ok.status, 200);
    assert_eq!(ok.body, "ok");
    assert_eq!(health_route(Method::Get), Some(ok.clone()));
    assert_eq!(health_route(Method::Head), Some(ok));
    for m in [Method::Post, Method::Put, Method::Delete, Method::Patch, Method::Options, Method::Connect, Method::Trace, Method::Other] {
        assert_eq!(health_route(m), None);
    }
}

fn frame(kind: FrameKind, payload: &[u8]) -> Frame {
    Frame { kind, payload: payload.to_vec() }
}

#[test]
fn data_frames_echoed_verbatim() {
    let text = frame(FrameKind::Text, b"hello");
    assert_eq!(relay_step(RelayState::Open, RelayEvent::Received(text.clone())), (RelayState::Open, RelayAction::Send(text)));
    let bin = frame(FrameKind::Binary, &[0, 255, 7]);
    assert_eq!(relay_step(RelayState::Open, RelayEvent::Received(bin.clone())), (RelayState::Open, RelayAction::Send(bin)));
    assert!(is_forwarded(FrameKind::Text) && is_forwarded(FrameKind::Binary));
}

#[test]
fn control_frames_not_echoed() {
    for kind in [FrameKind::Ping, FrameKind::Pong, FrameKind::Close] {
        assert!(!is_forwarded(kind));
        let r = relay_step(RelayState::Open, RelayEvent::Received(frame(kind, b"x")));
        assert_eq!(r, (RelayState::Open, RelayAction::Skip));
    }
}

#[test]
fn close_and_error_end_the_relay() {
    assert_eq!(relay_step(RelayState::Open, RelayEvent::Closed), (RelayState::Done, RelayAction::Finish));
    assert_eq!(relay_step(RelayState::Open, RelayEvent::Failed), (RelayState::Done, RelayAction::Abort));
    let after = relay_step(RelayState::Done, RelayEvent::Received(frame(FrameKind::Text, b"late")));
    assert_eq!(after, (RelayState::Done, RelayAction::Skip));
}

#[test]
fn closing_one_relay_leaves_another_echoing() {
    let (first, _) = relay_step(RelayState::Open, RelayEvent::Closed);
    let second = RelayState::Open;
    assert_eq!(first, RelayState::Done);
    let msg = frame(FrameKind::Text, b"still here");
    assert_eq!(relay_step(second, RelayEvent::Received(msg.clone())), (RelayState::Open, RelayAction::Send(msg)));
}
