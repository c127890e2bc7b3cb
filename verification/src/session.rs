//! The actuator session as a state machine.
//!
//! The session does no work of its own. Each call of [`Session::step`] takes
//! what happened to the action issued last and answers with the next action
//! to perform: connect, scan for a second, pick the first actuator, then
//! receive a batch, command its clamped mean, pause, and so on until the
//! sample channel closes or a command fails; then disconnect.

use crate::dispatch::{clamped, command_intensity, BATCH_LIMIT};
use crate::scalar::Scalar;
use crate::settings::Settings;
use vstd::prelude::*;

verus! {

/// How long discovery runs, in milliseconds.
pub const SCAN_WINDOW_MS: u64 = 1000;

/// Where a scan stands.
#[derive(Clone, Copy, Debug, PartialEq, Eq, Structural)]
pub enum ScanStep {
    /// The request to start discovery is under way.
    Starting,
    /// Discovery runs for its window.
    Listening,
    /// The request to stop discovery is under way.
    Stopping,
    /// The discovered actuators are being counted.
    Enumerating,
}

/// Where a dispatch cycle stands.
#[derive(Clone, Copy, Debug, PartialEq, Eq, Structural)]
pub enum CycleStep {
    /// Waiting for a batch of samples.
    Receiving,
    /// A command is under way.
    Sending,
    /// Pausing before the next cycle.
    Pausing,
}

/// The state of the session.
#[derive(Clone, Copy, Debug, PartialEq, Eq, Structural)]
pub enum Phase {
    /// No session is open: before the run, and after it.
    Disconnected,
    /// A session to the control service is being opened.
    Connecting,
    /// Actuators are being discovered.
    Scanning(ScanStep),
    /// An actuator is held, and audio capture is being set up.
    Ready,
    /// The dispatch loop runs.
    Dispatching(CycleStep),
    /// The session is being taken down.
    Disconnecting,
}

/// How a session ended.
#[derive(Clone, Copy, Debug, PartialEq, Eq, Structural)]
pub enum Outcome {
    /// The dispatch loop ended and the session was taken down.
    Completed,
    /// The control service could not be reached.
    ConnectFailed,
    /// Discovery could not be started or stopped.
    ScanFailed,
    /// Discovery found no actuator.
    NoActuator,
    /// Audio capture could not be set up.
    NoCapture,
}

/// What happened to the action issued last.
#[derive(Clone, Copy, Debug, PartialEq, Eq, Structural)]
pub enum Event {
    /// The run begins.
    Start,
    /// The request succeeded.
    Succeeded,
    /// The request failed.
    Failed,
    /// The wait is over.
    Elapsed,
    /// Discovery found this many actuators.
    Discovered(usize),
    /// A receive returned `count` samples with the given mean. A count of
    /// zero says that the channel is closed; the mean is then ignored.
    Batch { count: usize, mean: Scalar },
}

/// What to do next.
#[derive(Clone, Copy, Debug, PartialEq, Eq, Structural)]
pub enum Action {
    /// Open a session to the control service.
    Connect,
    /// Ask for discovery to start.
    StartScan,
    /// Let this many milliseconds pass.
    Wait { ms: u64 },
    /// Ask for discovery to stop.
    StopScan,
    /// Count the discovered actuators.
    ListDevices,
    /// Set up the sample channel and audio capture.
    OpenCapture,
    /// Receive at most `limit` samples, waiting for the first.
    Receive { limit: usize },
    /// Command the actuator with this index to vibrate.
    Vibrate { device: usize, intensity: Scalar },
    /// Close the session to the control service.
    Disconnect,
    /// The run is over.
    Finish(Outcome),
}

/// What a [`Session`] holds.
pub ghost struct SessionView {
    pub phase: Phase,
    /// The index of the actuator in use, among those discovered.
    pub device: Option<usize>,
    /// How the session ended, once it has.
    pub outcome: Option<Outcome>,
}

impl SessionView {
    /// An actuator is held from the end of the scan until the session is
    /// taken down, and at no other time; an outcome is known only when
    /// disconnected.
    pub open spec fn wf(self) -> bool {
        &&& self.device is Some <==> (self.phase is Ready || self.phase is Dispatching
            || self.phase is Disconnecting)
        &&& self.outcome is Some ==> self.phase is Disconnected
    }

    /// A session that has not begun.
    pub open spec fn initial() -> SessionView {
        SessionView { phase: Phase::Disconnected, device: None, outcome: None }
    }

    /// Whether the session has run and ended.
    pub open spec fn finished(self) -> bool {
        self.phase is Disconnected && self.outcome is Some
    }

    /// The session moved to `phase`, the rest kept.
    pub open spec fn at(self, phase: Phase) -> SessionView {
        SessionView { phase, ..self }
    }

    /// The session ended with `outcome`.
    pub open spec fn ended(outcome: Outcome) -> (SessionView, Action) {
        (
            SessionView { phase: Phase::Disconnected, device: None, outcome: Some(outcome) },
            Action::Finish(outcome),
        )
    }

    /// The state and the action that follow `event`, or `None` where the
    /// event is no answer to what the session is waiting for. `interval_ms`
    /// is the pause between commands as the settings give it at this step.
    pub open spec fn next(self, event: Event, interval_ms: u64) -> Option<(SessionView, Action)> {
        match (self.phase, event) {
            (Phase::Disconnected, Event::Start) => if self.outcome is None {
                Some((self.at(Phase::Connecting), Action::Connect))
            } else {
                None
            },
            (Phase::Connecting, Event::Succeeded) => Some(
                (self.at(Phase::Scanning(ScanStep::Starting)), Action::StartScan),
            ),
            (Phase::Connecting, Event::Failed) => Some(Self::ended(Outcome::ConnectFailed)),
            (Phase::Scanning(ScanStep::Starting), Event::Succeeded) => Some(
                (
                    self.at(Phase::Scanning(ScanStep::Listening)),
                    Action::Wait { ms: SCAN_WINDOW_MS },
                ),
            ),
            (Phase::Scanning(ScanStep::Starting), Event::Failed) => Some(
                Self::ended(Outcome::ScanFailed),
            ),
            (Phase::Scanning(ScanStep::Listening), Event::Elapsed) => Some(
                (self.at(Phase::Scanning(ScanStep::Stopping)), Action::StopScan),
            ),
            (Phase::Scanning(ScanStep::Stopping), Event::Succeeded) => Some(
                (self.at(Phase::Scanning(ScanStep::Enumerating)), Action::ListDevices),
            ),
            (Phase::Scanning(ScanStep::Stopping), Event::Failed) => Some(
                Self::ended(Outcome::ScanFailed),
            ),
            (Phase::Scanning(ScanStep::Enumerating), Event::Discovered(found)) => if found == 0 {
                Some(Self::ended(Outcome::NoActuator))
            } else {
                Some(
                    (
                        SessionView { phase: Phase::Ready, device: Some(0), outcome: None },
                        Action::OpenCapture,
                    ),
                )
            },
            (Phase::Ready, Event::Succeeded) => Some(
                (
                    self.at(Phase::Dispatching(CycleStep::Receiving)),
                    Action::Receive { limit: BATCH_LIMIT },
                ),
            ),
            (Phase::Ready, Event::Failed) => Some(Self::ended(Outcome::NoCapture)),
            (Phase::Dispatching(CycleStep::Receiving), Event::Batch { count, mean }) => if count
                == 0 {
                Some((self.at(Phase::Disconnecting), Action::Disconnect))
            } else if count <= BATCH_LIMIT && self.device is Some {
                Some(
                    (
                        self.at(Phase::Dispatching(CycleStep::Sending)),
                        Action::Vibrate { device: self.device->Some_0, intensity: clamped(mean) },
                    ),
                )
            } else {
                None
            },
            (Phase::Dispatching(CycleStep::Sending), Event::Succeeded) => Some(
                (self.at(Phase::Dispatching(CycleStep::Pausing)), Action::Wait { ms: interval_ms }),
            ),
            (Phase::Dispatching(CycleStep::Sending), Event::Failed) => Some(
                (self.at(Phase::Disconnecting), Action::Disconnect),
            ),
            (Phase::Dispatching(CycleStep::Pausing), Event::Elapsed) => Some(
                (
                    self.at(Phase::Dispatching(CycleStep::Receiving)),
                    Action::Receive { limit: BATCH_LIMIT },
                ),
            ),
            (Phase::Disconnecting, Event::Succeeded) => Some(Self::ended(Outcome::Completed)),
            (Phase::Disconnecting, Event::Failed) => Some(Self::ended(Outcome::Completed)),
            _ => None,
        }
    }
}

impl SessionView {
    /// The state after the events of `events` in turn, with the actions
    /// issued on the way, or `None` where one of them is refused.
    pub open spec fn run(self, events: Seq<Event>, interval_ms: u64) -> Option<
        (SessionView, Seq<Action>),
    >
        decreases events.len(),
    {
        if events.len() == 0 {
            Some((self, Seq::empty()))
        } else {
            match self.next(events[0], interval_ms) {
                Some((state, action)) => match state.run(events.drop_first(), interval_ms) {
                    Some((last, actions)) => Some((last, seq![action] + actions)),
                    None => None,
                },
                None => None,
            }
        }
    }
}

/// Whether `event` is one of the ways in which `action` can turn out.
pub open spec fn answers(action: Action, event: Event) -> bool {
    match action {
        Action::Connect | Action::StartScan | Action::StopScan | Action::OpenCapture
        | Action::Vibrate { .. } | Action::Disconnect => event is Succeeded || event is Failed,
        Action::Wait { .. } => event is Elapsed,
        Action::ListDevices => event is Discovered,
        Action::Receive { limit } => event matches Event::Batch { count, .. } && count <= limit,
        Action::Finish(_) => false,
    }
}

/// The session with the actuator control service.
#[derive(Clone, Copy, Debug)]
pub struct Session {
    phase: Phase,
    device: Option<usize>,
    outcome: Option<Outcome>,
}

impl View for Session {
    type V = SessionView;

    closed spec fn view(&self) -> SessionView {
        SessionView { phase: self.phase, device: self.device, outcome: self.outcome }
    }
}

impl Session {
    #[verifier::type_invariant]
    spec fn inv(self) -> bool {
        self@.wf()
    }

    /// A session that has not begun. Its first event is [`Event::Start`].
    pub fn new() -> (s: Session)
        ensures
            s@ == SessionView::initial(),
            s@.wf(),
    {
        Session { phase: Phase::Disconnected, device: None, outcome: None }
    }

    /// The state of the session.
    pub fn phase(&self) -> (p: Phase)
        ensures
            p == self@.phase,
    {
        self.phase
    }

    /// The index of the actuator in use, if one is held.
    pub fn device(&self) -> (d: Option<usize>)
        ensures
            d == self@.device,
            d is Some <==> (self@.phase is Ready || self@.phase is Dispatching
                || self@.phase is Disconnecting),
    {
        proof {
            use_type_invariant(self);
        }
        self.device
    }

    /// How the session ended, once it has.
    pub fn outcome(&self) -> (o: Option<Outcome>)
        ensures
            o == self@.outcome,
            o is Some <==> self@.finished(),
    {
        proof {
            use_type_invariant(self);
        }
        self.outcome
    }

    /// Takes what happened to the action issued last and gives the next
    /// action. An event that is no answer to that action is refused with
    /// `None`, and the session stays as it is.
    ///
    /// The pause after a command is the interval of the `settings` handed to
    /// the very step that issues it; the session keeps nothing of them.
    pub fn step(&mut self, event: Event, settings: &Settings) -> (action: Option<Action>)
        ensures
            final(self)@.wf(),
            match old(self)@.next(event, settings@.interval_ms) {
                Some((state, issued)) => final(self)@ == state && action == Some(issued),
                None => final(self)@ == old(self)@ && action is None,
            },
    {
        proof {
            use_type_invariant(&*self);
        }
        match (self.phase, event) {
            (Phase::Disconnected, Event::Start) => {
                if self.outcome.is_some() {
                    return None;
                }
                self.phase = Phase::Connecting;
                Some(Action::Connect)
            },
            (Phase::Connecting, Event::Succeeded) => {
                self.phase = Phase::Scanning(ScanStep::Starting);
                Some(Action::StartScan)
            },
            (Phase::Connecting, Event::Failed) => Some(self.end(Outcome::ConnectFailed)),
            (Phase::Scanning(ScanStep::Starting), Event::Succeeded) => {
                self.phase = Phase::Scanning(ScanStep::Listening);
                Some(Action::Wait { ms: SCAN_WINDOW_MS })
            },
            (Phase::Scanning(ScanStep::Starting), Event::Failed) => Some(
                self.end(Outcome::ScanFailed),
            ),
            (Phase::Scanning(ScanStep::Listening), Event::Elapsed) => {
                self.phase = Phase::Scanning(ScanStep::Stopping);
                Some(Action::StopScan)
            },
            (Phase::Scanning(ScanStep::Stopping), Event::Succeeded) => {
                self.phase = Phase::Scanning(ScanStep::Enumerating);
                Some(Action::ListDevices)
            },
            (Phase::Scanning(ScanStep::Stopping), Event::Failed) => Some(
                self.end(Outcome::ScanFailed),
            ),
            (Phase::Scanning(ScanStep::Enumerating), Event::Discovered(found)) => {
                if found == 0 {
                    Some(self.end(Outcome::NoActuator))
                } else {
                    *self = Session { phase: Phase::Ready, device: Some(0), outcome: None };
                    Some(Action::OpenCapture)
                }
            },
            (Phase::Ready, Event::Succeeded) => {
                self.phase = Phase::Dispatching(CycleStep::Receiving);
                Some(Action::Receive { limit: BATCH_LIMIT })
            },
            (Phase::Ready, Event::Failed) => Some(self.end(Outcome::NoCapture)),
            (Phase::Dispatching(CycleStep::Receiving), Event::Batch { count, mean }) => {
                if count == 0 {
                    self.phase = Phase::Disconnecting;
                    Some(Action::Disconnect)
                } else if count <= BATCH_LIMIT {
                    match self.device {
                        Some(device) => {
                            self.phase = Phase::Dispatching(CycleStep::Sending);
                            Some(Action::Vibrate { device, intensity: command_intensity(mean) })
                        },
                        None => None,
                    }
                } else {
                    None
                }
            },
            (Phase::Dispatching(CycleStep::Sending), Event::Succeeded) => {
                self.phase = Phase::Dispatching(CycleStep::Pausing);
                Some(Action::Wait { ms: settings.interval_ms() })
            },
            (Phase::Dispatching(CycleStep::Sending), Event::Failed) => {
                self.phase = Phase::Disconnecting;
                Some(Action::Disconnect)
            },
            (Phase::Dispatching(CycleStep::Pausing), Event::Elapsed) => {
                self.phase = Phase::Dispatching(CycleStep::Receiving);
                Some(Action::Receive { limit: BATCH_LIMIT })
            },
            (Phase::Disconnecting, Event::Succeeded) => Some(self.end(Outcome::Completed)),
            (Phase::Disconnecting, Event::Failed) => Some(self.end(Outcome::Completed)),
            _ => None,
        }
    }

    fn end(&mut self, outcome: Outcome) -> (action: Action)
        ensures
            (final(self)@, action) == SessionView::ended(outcome),
    {
        *self = Session { phase: Phase::Disconnected, device: None, outcome: Some(outcome) };
        Action::Finish(outcome)
    }
}

/// Every step keeps the session well formed.
pub proof fn step_keeps_well_formed(s: SessionView, event: Event, interval_ms: u64)
    requires
        s.wf(),
        s.next(event, interval_ms) is Some,
    ensures
        s.next(event, interval_ms)->Some_0.0.wf(),
{
}

/// The session is never stuck: however the action it issued turns out, it
/// accepts the event, whatever the settings are by then.
pub proof fn every_answer_is_accepted(
    s: SessionView,
    event: Event,
    interval_ms: u64,
    answer: Event,
    later_interval_ms: u64,
)
    requires
        s.wf(),
        s.next(event, interval_ms) is Some,
        answers(s.next(event, interval_ms)->Some_0.1, answer),
    ensures
        s.next(event, interval_ms)->Some_0.0.next(answer, later_interval_ms) is Some,
{
}

/// A session ends exactly when it issues `Finish`, with the outcome that
/// the action names, and accepts nothing after that.
pub proof fn finish_is_final(s: SessionView, event: Event, interval_ms: u64)
    requires
        s.wf(),
    ensures
        s.finished() ==> s.next(event, interval_ms) is None,
        s.next(event, interval_ms) matches Some((state, action)) ==> (state.finished()
            <==> action is Finish) && (action matches Action::Finish(outcome) ==> state.outcome
            == Some(outcome)),
{
}

/// A receive that finds the channel closed ends the dispatch loop at once:
/// the session turns to disconnecting and asks for nothing else.
pub proof fn closed_channel_ends_dispatch(s: SessionView, mean: Scalar, interval_ms: u64)
    requires
        s.wf(),
        s.phase == Phase::Dispatching(CycleStep::Receiving),
    ensures
        s.next(Event::Batch { count: 0, mean }, interval_ms) == Some(
            (s.at(Phase::Disconnecting), Action::Disconnect),
        ),
{
}

/// A command that fails ends the dispatch loop at once: the session turns
/// to disconnecting, with no pause and no further receive.
pub proof fn failed_command_ends_dispatch(s: SessionView, interval_ms: u64)
    requires
        s.wf(),
        s.phase == Phase::Dispatching(CycleStep::Sending),
    ensures
        s.next(Event::Failed, interval_ms) == Some(
            (s.at(Phase::Disconnecting), Action::Disconnect),
        ),
{
}

/// Once disconnecting, a session accepts one more event, the outcome of the
/// disconnect, and whether that succeeded or failed it ends as completed.
pub proof fn disconnecting_only_finishes(s: SessionView, events: Seq<Event>, interval_ms: u64)
    requires
        s.wf(),
        s.phase is Disconnecting,
        s.run(events, interval_ms) is Some,
    ensures
        events.len() <= 1,
        events.len() == 1 ==> {
            &&& events[0] is Succeeded || events[0] is Failed
            &&& s.run(events, interval_ms)->Some_0.0.finished()
            &&& s.run(events, interval_ms)->Some_0.1 == seq![Action::Finish(Outcome::Completed)]
        },
{
    reveal_with_fuel(SessionView::run, 3);
    if events.len() >= 1 {
        let rest = events.drop_first();
        let (state, action) = s.next(events[0], interval_ms)->Some_0;
        assert(state.run(rest, interval_ms) is Some);
        if rest.len() >= 1 {
            assert(state.next(rest[0], interval_ms) is None);
        }
        assert(rest.len() == 0);
        assert(s.run(events, interval_ms)->Some_0.1 =~= seq![Action::Finish(Outcome::Completed)]);
    }
}

/// With the channel closed, so that every receive comes back empty, a
/// dispatching session is over within one cycle: it accepts at most four
/// more events, issues no further command, and has ended once it has
/// accepted four.
pub proof fn closed_channel_ends_within_one_cycle(
    s: SessionView,
    events: Seq<Event>,
    interval_ms: u64,
)
    requires
        s.wf(),
        s.phase is Dispatching,
        forall|i: int|
            0 <= i < events.len() ==> (#[trigger] events[i] matches Event::Batch { count, .. }
                ==> count == 0),
        s.run(events, interval_ms) is Some,
    ensures
        events.len() <= 4,
        forall|i: int|
            0 <= i < s.run(events, interval_ms)->Some_0.1.len() ==> !(#[trigger] s.run(
                events,
                interval_ms,
            )->Some_0.1[i] is Vibrate),
        events.len() == 4 ==> s.run(events, interval_ms)->Some_0.0.finished(),
{
    reveal_with_fuel(SessionView::run, 6);
    let e1 = events;
    if e1.len() >= 1 {
        let (s1, a1) = s.next(e1[0], interval_ms)->Some_0;
        let e2 = e1.drop_first();
        assert(s1.run(e2, interval_ms) is Some);
        if e2.len() >= 1 {
            assert(e2[0] == events[1]);
            let (s2, a2) = s1.next(e2[0], interval_ms)->Some_0;
            let e3 = e2.drop_first();
            assert(s2.run(e3, interval_ms) is Some);
            if e3.len() >= 1 {
                assert(e3[0] == events[2]);
                let (s3, a3) = s2.next(e3[0], interval_ms)->Some_0;
                let e4 = e3.drop_first();
                assert(s3.run(e4, interval_ms) is Some);
                if e4.len() >= 1 {
                    assert(e4[0] == events[3]);
                    let (s4, a4) = s3.next(e4[0], interval_ms)->Some_0;
                    let e5 = e4.drop_first();
                    assert(s4.run(e5, interval_ms) is Some);
                    assert(s4.finished());
                    if e5.len() >= 1 {
                        assert(s4.next(e5[0], interval_ms) is None);
                    }
                    assert(e5.len() == 0);
                }
            }
        }
    }
}

/// The pause after a command is the interval of the settings handed to the
/// step that issues it, and no step leaves a trace of its settings in the
/// session: a change takes effect at the next step and never earlier.
pub proof fn pause_follows_current_settings(
    s: SessionView,
    event: Event,
    interval_ms: u64,
    other_interval_ms: u64,
)
    requires
        s.wf(),
    ensures
        s.phase == Phase::Dispatching(CycleStep::Sending) ==> s.next(Event::Succeeded, interval_ms)
            == Some(
            (s.at(Phase::Dispatching(CycleStep::Pausing)), Action::Wait { ms: interval_ms }),
        ),
        s.next(event, interval_ms) is Some <==> s.next(event, other_interval_ms) is Some,
        s.next(event, interval_ms) is Some ==> s.next(event, interval_ms)->Some_0.0 == s.next(
            event,
            other_interval_ms,
        )->Some_0.0,
{
}

/// Whatever is commanded goes to the actuator that the session holds, is no
/// NaN and is at most one; it is zero or more as soon as the mean of the
/// batch is not negative.
pub proof fn commands_stay_in_range(s: SessionView, event: Event, interval_ms: u64)
    requires
        s.wf(),
        s.next(event, interval_ms) is Some,
        s.next(event, interval_ms)->Some_0.1 is Vibrate,
    ensures
        event is Batch,
        1 <= event->count <= BATCH_LIMIT,
        s.next(event, interval_ms)->Some_0.1 == (Action::Vibrate {
            device: s.device->Some_0,
            intensity: clamped(event->mean),
        }),
        s.device is Some,
        !clamped(event->mean).is_nan(),
        clamped(event->mean).rank() <= crate::scalar::ONE_BITS,
        event->mean.is_nan() || event->mean.rank() >= 0 ==> clamped(
            event->mean,
        ).in_unit_interval(),
{
}

} // verus!
