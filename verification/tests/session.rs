use subwoofer::scalar::Scalar;
use subwoofer::session::{
    Action, CycleStep, Event, Outcome, Phase, ScanStep, Session, SCAN_WINDOW_MS,
};
use subwoofer::settings::Settings;

fn level(x: f64) -> Scalar {
    Scalar::from_bits(x.to_bits())
}

fn batch(count: usize, mean: f64) -> Event {
    Event::Batch { count, mean: level(mean) }
}

/// A session that has connected, scanned, found `found` actuators and set
/// up capture, so that its next event is the first batch.
fn dispatching(settings: &Settings, found: usize) -> Session {
    let mut s = Session::new();
    assert_eq!(s.step(Event::Start, settings), Some(Action::Connect));
    assert_eq!(s.step(Event::Succeeded, settings), Some(Action::StartScan));
    assert_eq!(s.step(Event::Succeeded, settings), Some(Action::Wait { ms: 1000 }));
    assert_eq!(s.step(Event::Elapsed, settings), Some(Action::StopScan));
    assert_eq!(s.step(Event::Succeeded, settings), Some(Action::ListDevices));
    assert_eq!(s.step(Event::Discovered(found), settings), Some(Action::OpenCapture));
    assert_eq!(s.step(Event::Succeeded, settings), Some(Action::Receive { limit: 16 }));
    s
}

#[test]
fn a_new_session_is_disconnected() {
    let s = Session::new();
    assert_eq!(s.phase(), Phase::Disconnected);
    assert_eq!(s.device(), None);
    assert_eq!(s.outcome(), None);
}

#[test]
fn startup_walks_through_connect_and_scan() {
    let settings = Settings::default();
    let mut s = Session::new();
    assert_eq!(s.step(Event::Start, &settings), Some(Action::Connect));
    assert_eq!(s.phase(), Phase::Connecting);
    assert_eq!(s.step(Event::Succeeded, &settings), Some(Action::StartScan));
    assert_eq!(s.phase(), Phase::Scanning(ScanStep::Starting));
    assert_eq!(s.step(Event::Succeeded, &settings), Some(Action::Wait { ms: SCAN_WINDOW_MS }));
    assert_eq!(s.phase(), Phase::Scanning(ScanStep::Listening));
    assert_eq!(s.step(Event::Elapsed, &settings), Some(Action::StopScan));
    assert_eq!(s.phase(), Phase::Scanning(ScanStep::Stopping));
    assert_eq!(s.step(Event::Succeeded, &settings), Some(Action::ListDevices));
    assert_eq!(s.phase(), Phase::Scanning(ScanStep::Enumerating));
    assert_eq!(s.device(), None);
    assert_eq!(s.step(Event::Discovered(3), &settings), Some(Action::OpenCapture));
    assert_eq!(s.phase(), Phase::Ready);
    assert_eq!(s.device(), Some(0));
    assert_eq!(s.step(Event::Succeeded, &settings), Some(Action::Receive { limit: 16 }));
    assert_eq!(s.phase(), Phase::Dispatching(CycleStep::Receiving));
}

#[test]
fn the_scan_window_is_a_second() {
    assert_eq!(SCAN_WINDOW_MS, 1000);
}

#[test]
fn a_failed_connect_is_fatal() {
    let settings = Settings::default();
    let mut s = Session::new();
    s.step(Event::Start, &settings);
    assert_eq!(s.step(Event::Failed, &settings), Some(Action::Finish(Outcome::ConnectFailed)));
    assert_eq!(s.phase(), Phase::Disconnected);
    assert_eq!(s.outcome(), Some(Outcome::ConnectFailed));
    assert_eq!(s.step(Event::Start, &settings), None);
}

#[test]
fn a_failed_scan_is_fatal() {
    let settings = Settings::default();
    let mut s = Session::new();
    s.step(Event::Start, &settings);
    s.step(Event::Succeeded, &settings);
    assert_eq!(s.step(Event::Failed, &settings), Some(Action::Finish(Outcome::ScanFailed)));
    assert_eq!(s.outcome(), Some(Outcome::ScanFailed));

    let mut t = Session::new();
    t.step(Event::Start, &settings);
    t.step(Event::Succeeded, &settings);
    t.step(Event::Succeeded, &settings);
    t.step(Event::Elapsed, &settings);
    assert_eq!(t.step(Event::Failed, &settings), Some(Action::Finish(Outcome::ScanFailed)));
}

#[test]
fn no_actuator_is_fatal() {
    let settings = Settings::default();
    let mut s = Session::new();
    s.step(Event::Start, &settings);
    s.step(Event::Succeeded, &settings);
    s.step(Event::Succeeded, &settings);
    s.step(Event::Elapsed, &settings);
    s.step(Event::Succeeded, &settings);
    assert_eq!(s.step(Event::Discovered(0), &settings), Some(Action::Finish(Outcome::NoActuator)));
    assert_eq!(s.device(), None);
    assert_eq!(s.outcome(), Some(Outcome::NoActuator));
}

#[test]
fn no_capture_is_fatal() {
    let settings = Settings::default();
    let mut s = Session::new();
    s.step(Event::Start, &settings);
    s.step(Event::Succeeded, &settings);
    s.step(Event::Succeeded, &settings);
    s.step(Event::Elapsed, &settings);
    s.step(Event::Succeeded, &settings);
    s.step(Event::Discovered(1), &settings);
    assert_eq!(s.step(Event::Failed, &settings), Some(Action::Finish(Outcome::NoCapture)));
    assert_eq!(s.device(), None);
}

#[test]
fn a_cycle_commands_the_clamped_mean_then_pauses() {
    let settings = Settings::default();
    let mut s = dispatching(&settings, 2);
    assert_eq!(
        s.step(batch(16, 0.25), &settings),
        Some(Action::Vibrate { device: 0, intensity: level(0.25) })
    );
    assert_eq!(s.phase(), Phase::Dispatching(CycleStep::Sending));
    assert_eq!(s.step(Event::Succeeded, &settings), Some(Action::Wait { ms: 35 }));
    assert_eq!(s.phase(), Phase::Dispatching(CycleStep::Pausing));
    assert_eq!(s.step(Event::Elapsed, &settings), Some(Action::Receive { limit: 16 }));
    assert_eq!(
        s.step(batch(1, 5.0), &settings),
        Some(Action::Vibrate { device: 0, intensity: level(1.0) })
    );
}

#[test]
fn a_closed_channel_ends_the_session() {
    let settings = Settings::default();
    let mut s = dispatching(&settings, 1);
    assert_eq!(s.step(batch(0, 0.0), &settings), Some(Action::Disconnect));
    assert_eq!(s.phase(), Phase::Disconnecting);
    assert_eq!(s.device(), Some(0));
    assert_eq!(s.step(Event::Succeeded, &settings), Some(Action::Finish(Outcome::Completed)));
    assert_eq!(s.phase(), Phase::Disconnected);
    assert_eq!(s.device(), None);
    assert_eq!(s.outcome(), Some(Outcome::Completed));
}

#[test]
fn a_failed_disconnect_is_not_an_error() {
    let settings = Settings::default();
    let mut s = dispatching(&settings, 1);
    s.step(batch(0, 0.0), &settings);
    assert_eq!(s.step(Event::Failed, &settings), Some(Action::Finish(Outcome::Completed)));
}

#[test]
fn a_failed_command_ends_the_session() {
    let settings = Settings::default();
    let mut s = dispatching(&settings, 1);
    for _ in 0..3 {
        assert!(matches!(s.step(batch(4, 0.5), &settings), Some(Action::Vibrate { .. })));
        assert_eq!(s.step(Event::Succeeded, &settings), Some(Action::Wait { ms: 35 }));
        assert_eq!(s.step(Event::Elapsed, &settings), Some(Action::Receive { limit: 16 }));
    }
    assert!(matches!(s.step(batch(4, 0.5), &settings), Some(Action::Vibrate { .. })));
    assert_eq!(s.step(Event::Failed, &settings), Some(Action::Disconnect));
    assert_eq!(s.phase(), Phase::Disconnecting);
    assert_eq!(s.step(batch(4, 0.5), &settings), None);
    assert_eq!(s.step(Event::Elapsed, &settings), None);
    assert_eq!(s.step(Event::Succeeded, &settings), Some(Action::Finish(Outcome::Completed)));
    assert_eq!(s.step(batch(4, 0.5), &settings), None);
    assert_eq!(s.step(Event::Start, &settings), None);
}

#[test]
fn a_changed_interval_applies_to_the_next_pause() {
    let mut settings = Settings::default();
    let mut s = dispatching(&settings, 1);
    s.step(batch(2, 0.5), &settings);
    assert_eq!(s.step(Event::Succeeded, &settings), Some(Action::Wait { ms: 35 }));
    settings.set_interval_ms(120).unwrap();
    assert_eq!(s.step(Event::Elapsed, &settings), Some(Action::Receive { limit: 16 }));
    s.step(batch(2, 0.5), &settings);
    assert_eq!(s.step(Event::Succeeded, &settings), Some(Action::Wait { ms: 120 }));
}

#[test]
fn an_unexpected_event_is_refused_and_changes_nothing() {
    let settings = Settings::default();
    let mut s = Session::new();
    assert_eq!(s.step(Event::Succeeded, &settings), None);
    assert_eq!(s.phase(), Phase::Disconnected);
    let mut d = dispatching(&settings, 1);
    assert_eq!(d.step(Event::Succeeded, &settings), None);
    assert_eq!(d.step(batch(17, 0.5), &settings), None);
    assert_eq!(d.phase(), Phase::Dispatching(CycleStep::Receiving));
    assert_eq!(d.device(), Some(0));
}

#[test]
fn a_mean_that_is_undefined_commands_full_intensity() {
    let settings = Settings::default();
    let mut s = dispatching(&settings, 1);
    assert_eq!(
        s.step(batch(3, f64::NAN), &settings),
        Some(Action::Vibrate { device: 0, intensity: level(1.0) })
    );
}
