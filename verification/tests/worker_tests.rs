use vkbot::backoff::AttemptState;
use vkbot::errors::ProtocolError;
use vkbot::protocol::{Event, PollOutcome};
use vkbot::session::ServerConfig;
use vkbot::worker::{AfterDispatch, CycleStep, PollWait, RefreshStep, Worker};

fn session(key: &str, server: &str, ts: &str) -> ServerConfig {
    ServerConfig {
        key: key.to_owned(),
        server: server.to_owned(),
        ts: ts.to_owned(),
    }
}

fn worker() -> Worker {
    Worker::new(77, -100, session("k", "s", "4"))
}

fn ok_outcome(ts: Option<&str>, refresh_key: bool, refresh_all: bool, events: Vec<Event>) -> PollWait {
    PollWait::Delivered {
        outcome: Ok(PollOutcome {
            ts: ts.map(|t| t.to_owned()),
            refresh_key,
            refresh_all,
            events,
        }),
    }
}

fn failed_poll() -> PollWait {
    PollWait::Delivered {
        outcome: Err(ProtocolError::Malformed),
    }
}

#[test]
fn cancellation_stops_before_any_dispatch() {
    let mut w = worker();
    let step = w.on_poll_wait(PollWait::Cancelled);
    assert_eq!(step, CycleStep::Stop);
    assert_eq!(w.session, session("k", "s", "4"));
    assert!(!w.attempt.last_attempt_failed);
}

#[test]
fn consecutive_failures_sleep_long_then_short() {
    let mut w = worker();
    assert_eq!(w.on_poll_wait(failed_poll()), CycleStep::Sleep { secs: 300 });
    assert_eq!(w.on_poll_wait(failed_poll()), CycleStep::Sleep { secs: 15 });
    assert_eq!(w.session, session("k", "s", "4"));
}

#[test]
fn success_between_failures_restores_long_sleep() {
    let mut state = AttemptState::new();
    assert_eq!(state.on_failure(), 300);
    assert_eq!(state.on_failure(), 15);
    state.on_success();
    assert_eq!(state.on_failure(), 300);
}

#[test]
fn new_cursor_is_adopted_and_persisted() {
    let mut w = worker();
    let events = vec![Event::WallPost { id: 1 }];
    let step = w.on_poll_wait(ok_outcome(Some("5"), false, false, events.clone()));
    assert_eq!(
        step,
        CycleStep::Dispatch {
            events,
            after: AfterDispatch::Persist
        }
    );
    assert_eq!(w.session, session("k", "s", "5"));
    assert!(!w.attempt.last_attempt_failed);
}

#[test]
fn unchanged_cursor_is_not_persisted() {
    let mut w = worker();
    let step = w.on_poll_wait(ok_outcome(Some("4"), false, false, vec![]));
    assert_eq!(
        step,
        CycleStep::Dispatch {
            events: vec![],
            after: AfterDispatch::Continue
        }
    );
    assert_eq!(w.session, session("k", "s", "4"));
}

#[test]
fn success_resets_attempt_flag() {
    let mut w = worker();
    assert_eq!(w.on_poll_wait(failed_poll()), CycleStep::Sleep { secs: 300 });
    assert!(w.attempt.last_attempt_failed);
    w.on_poll_wait(ok_outcome(Some("4"), false, false, vec![]));
    assert!(!w.attempt.last_attempt_failed);
    assert_eq!(w.on_poll_wait(failed_poll()), CycleStep::Sleep { secs: 300 });
}

#[test]
fn key_refresh_requests_fetch() {
    let mut w = worker();
    let step = w.on_poll_wait(ok_outcome(None, true, false, vec![]));
    assert_eq!(
        step,
        CycleStep::Dispatch {
            events: vec![],
            after: AfterDispatch::FetchSession {
                all: false,
                cursor: None
            }
        }
    );
    assert_eq!(w.session, session("k", "s", "4"));
}

#[test]
fn key_refresh_keeps_server_and_cursor() {
    let mut w = worker();
    let step = w.on_refresh_result(false, None, Some(session("k2", "s2", "9")));
    assert_eq!(step, RefreshStep::Updated);
    assert_eq!(w.session, session("k2", "s", "4"));
}

#[test]
fn full_refresh_replaces_whole_session() {
    let mut w = worker();
    let step = w.on_refresh_result(true, None, Some(session("k2", "s2", "9")));
    assert_eq!(step, RefreshStep::Updated);
    assert_eq!(w.session, session("k2", "s2", "9"));
}

#[test]
fn refresh_adopts_cursor_from_outcome() {
    let mut w = worker();
    let step = w.on_refresh_result(false, Some("42".to_owned()), Some(session("k2", "s2", "9")));
    assert_eq!(step, RefreshStep::Updated);
    assert_eq!(w.session, session("k2", "s", "42"));
}

#[test]
fn failed_refresh_keeps_stale_session_and_backs_off() {
    let mut w = worker();
    let step = w.on_refresh_result(true, None, None);
    assert_eq!(step, RefreshStep::Sleep { secs: 300 });
    assert_eq!(w.session, session("k", "s", "4"));
    assert!(w.attempt.last_attempt_failed);
    let step = w.on_refresh_result(true, None, None);
    assert_eq!(step, RefreshStep::Sleep { secs: 15 });
}

#[test]
fn relay_failure_backs_off_like_any_failure() {
    let mut w = worker();
    assert_eq!(w.on_relay_failure(), 300);
    assert_eq!(w.on_relay_failure(), 15);
    assert!(w.attempt.last_attempt_failed);
}
