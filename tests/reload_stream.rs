use esengine_preview::reload::{ReloadSignal, WaitOutcome};
use esengine_preview::reply::sse_headers;
use esengine_preview::session::{SessionStep, SseSession};

#[test]
fn new_signal_starts_at_zero() {
    let s = ReloadSignal::new();
    assert_eq!(s.current(), 0);
    assert!(!s.is_shut_down());
    assert_eq!(s.wait(0), WaitOutcome::Pending);
}

#[test]
fn notify_without_subscribers_just_counts() {
    let mut s = ReloadSignal::new();
    s.notify();
    s.notify();
    assert_eq!(s.current(), 2);
    assert!(!s.is_shut_down());
}

#[test]
fn wait_reports_change_then_pending() {
    let mut s = ReloadSignal::new();
    s.notify();
    assert_eq!(s.wait(0), WaitOutcome::Changed(1));
    assert_eq!(s.wait(1), WaitOutcome::Pending);
}

#[test]
fn wait_after_shutdown_is_closed() {
    let mut s = ReloadSignal::new();
    s.notify();
    s.shutdown();
    assert!(s.is_shut_down());
    assert_eq!(s.wait(0), WaitOutcome::Closed);
    assert_eq!(s.wait(1), WaitOutcome::Closed);
    s.notify();
    assert_eq!(s.current(), 2);
    assert_eq!(s.wait(1), WaitOutcome::Closed);
}

#[test]
fn session_subscribes_at_current_generation() {
    let mut s = ReloadSignal::new();
    s.notify();
    s.notify();
    let mut session = SseSession::subscribe(&s);
    assert_eq!(session.seen(), 2);
    assert_eq!(session.step(&s), SessionStep::Park);
}

#[test]
fn three_quick_notifications_coalesce_into_one_event() {
    let mut s = ReloadSignal::new();
    let mut session = SseSession::subscribe(&s);
    s.notify();
    s.notify();
    s.notify();
    assert_eq!(session.step(&s), SessionStep::Emit);
    assert_eq!(session.seen(), 3);
    assert_eq!(session.seen(), s.current());
    assert_eq!(session.step(&s), SessionStep::Park);
    assert_eq!(session.seen(), 3);
}

#[test]
fn sessions_are_independent() {
    let mut s = ReloadSignal::new();
    let mut fast = SseSession::subscribe(&s);
    let mut slow = SseSession::subscribe(&s);
    s.notify();
    assert_eq!(fast.step(&s), SessionStep::Emit);
    s.notify();
    assert_eq!(fast.step(&s), SessionStep::Emit);
    assert_eq!(slow.step(&s), SessionStep::Emit);
    assert_eq!(fast.seen(), 2);
    assert_eq!(slow.seen(), 2);
    assert_eq!(fast.step(&s), SessionStep::Park);
    assert_eq!(slow.step(&s), SessionStep::Park);
}

#[test]
fn shutdown_closes_a_waiting_session() {
    let mut s = ReloadSignal::new();
    let mut session = SseSession::subscribe(&s);
    assert_eq!(session.step(&s), SessionStep::Park);
    s.shutdown();
    assert_eq!(session.step(&s), SessionStep::Close);
    assert_eq!(session.seen(), 0);
}

#[test]
fn shutdown_closes_a_session_with_pending_news() {
    let mut s = ReloadSignal::new();
    let mut session = SseSession::subscribe(&s);
    s.notify();
    s.shutdown();
    assert_eq!(session.step(&s), SessionStep::Close);
}

#[test]
fn reload_frame_bytes() {
    assert_eq!(SseSession::frame(), b"data: reload\n\n".to_vec());
}

#[test]
fn stream_headers() {
    let h = sse_headers();
    let expected = vec![
        ("Content-Type", "text/event-stream"),
        ("Cache-Control", "no-cache"),
        ("Connection", "keep-alive"),
        ("Access-Control-Allow-Origin", "*"),
    ];
    assert_eq!(h.len(), expected.len());
    for (got, want) in h.iter().zip(expected.iter()) {
        assert_eq!(got.0, want.0);
        assert_eq!(got.1, want.1);
    }
}
