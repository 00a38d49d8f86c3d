//! The receiver's explicit "transfer finished" signal.
//!
//! The sender ends its session only after this signal, so it is sent on failure
//! too, and a transient connection failure is retried.
use vstd::prelude::*;

use crate::text::{decimal, decimal_of};

verus! {

/// How often the signal is tried.
pub const DONE_ATTEMPTS: usize = 3;

/// How long to wait for a connection to the sender, in milliseconds.
pub const DONE_CONNECT_TIMEOUT_MS: u64 = 3000;

/// How long to wait after a failure, and before the connection is given up once
/// the signal was sent, in milliseconds.
pub const DONE_PAUSE_MS: u64 = 500;

/// The byte that signals how the receiver ended.
pub open spec fn status_byte(ok: bool) -> u8 {
    if ok {
        0
    } else {
        1
    }
}

/// The byte that signals how the receiver ended: 0 on success.
pub fn done_byte(ok: bool) -> (r: u8)
    ensures
        r == status_byte(ok),
{
    if ok {
        0
    } else {
        1
    }
}

/// The step that is to be done next.
#[derive(Debug, Clone, Copy, PartialEq, Eq)]
pub enum DoneStep {
    /// Connect to the sender.
    Connect { attempt: usize },
    /// Open a stream on the connection.
    Open { attempt: usize },
    /// Send the byte.
    Send { status: u8 },
    /// Nothing more; `sent` says whether the signal went out.
    Finished { sent: bool },
}

/// How a step went.
#[derive(Debug, PartialEq, Eq)]
pub enum DoneEvent {
    /// The connection is there.
    Connected,
    /// Connecting failed.
    ConnectFailed { error: String },
    /// Connecting took too long.
    ConnectTimedOut,
    /// The stream is there.
    Opened,
    /// Opening a stream failed.
    OpenFailed { error: String },
    /// The byte was handed to the stream.
    Sent,
}

/// What follows a failed attempt: another one, unless it was the last.
pub open spec fn after_failed_attempt(attempt: usize) -> DoneStep {
    if attempt + 1 < 3 {
        DoneStep::Connect { attempt: (attempt + 1) as usize }
    } else {
        DoneStep::Finished { sent: false }
    }
}

/// The step after `step`, given how it went. An event that does not answer the
/// step changes nothing.
pub open spec fn done_after(ok: bool, step: DoneStep, event: DoneEvent) -> DoneStep {
    match (step, event) {
        (DoneStep::Connect { attempt }, DoneEvent::Connected) => DoneStep::Open { attempt },
        (DoneStep::Connect { attempt }, DoneEvent::ConnectFailed { .. }) => after_failed_attempt(
            attempt,
        ),
        (DoneStep::Connect { attempt }, DoneEvent::ConnectTimedOut) => after_failed_attempt(
            attempt,
        ),
        (DoneStep::Open { attempt }, DoneEvent::Opened) => DoneStep::Send {
            status: status_byte(ok),
        },
        (DoneStep::Open { attempt }, DoneEvent::OpenFailed { .. }) => after_failed_attempt(
            attempt,
        ),
        (DoneStep::Send { .. }, DoneEvent::Sent) => DoneStep::Finished { sent: true },
        _ => step,
    }
}

/// The text for attempt number `attempt`, counted from 0.
pub open spec fn attempt_text(attempt: usize) -> Seq<char> {
    "attempt "@ + decimal((attempt + 1) as nat) + "/3"@
}

/// The warning that goes with leaving `step`, if any.
pub open spec fn done_warning(step: DoneStep, event: DoneEvent) -> Option<Seq<char>> {
    match (step, event) {
        (DoneStep::Connect { attempt }, DoneEvent::ConnectFailed { error }) => Some(
            "warning: failed to notify sender of completion (connect, "@ + attempt_text(attempt)
                + "): "@ + error@,
        ),
        (DoneStep::Connect { attempt }, DoneEvent::ConnectTimedOut) => Some(
            "warning: timed out notifying sender of completion ("@ + attempt_text(attempt) + ")"@,
        ),
        (DoneStep::Open { attempt }, DoneEvent::OpenFailed { error }) => Some(
            "warning: failed to notify sender of completion (open_bi, "@ + attempt_text(attempt)
                + "): "@ + error@,
        ),
        _ => None,
    }
}

/// How long to wait when `step` is left, in milliseconds. Once the byte was sent
/// the sender gets a moment to process it; a timeout was wait enough.
pub open spec fn done_pause(step: DoneStep, event: DoneEvent) -> u64 {
    match (step, event) {
        (DoneStep::Connect { .. }, DoneEvent::ConnectFailed { .. }) => 500,
        (DoneStep::Open { .. }, DoneEvent::OpenFailed { .. }) => 500,
        (DoneStep::Send { .. }, DoneEvent::Sent) => 500,
        _ => 0,
    }
}

/// The steps that the signalling can be at.
pub open spec fn done_in_range(ok: bool, step: DoneStep) -> bool {
    match step {
        DoneStep::Connect { attempt } => attempt < 3,
        DoneStep::Open { attempt } => attempt < 3,
        DoneStep::Send { status } => status == status_byte(ok),
        DoneStep::Finished { .. } => true,
    }
}

/// What goes with the change from one step to the next.
#[derive(Debug, PartialEq, Eq)]
pub struct DoneNotes {
    /// A warning to print.
    pub warning: Option<String>,
    /// How long to wait before the next step, in milliseconds.
    pub pause_ms: u64,
}

/// The signalling of completion.
#[derive(Debug, PartialEq, Eq)]
pub struct DoneFlow {
    ok: bool,
    step: DoneStep,
}

fn attempt_label(attempt: usize) -> (r: String)
    requires
        attempt < 3,
    ensures
        r@ == attempt_text(attempt),
{
    let mut r: String = "attempt ".to_owned();
    r.append(decimal_of((attempt + 1) as u64).as_str());
    r.append("/3");
    r
}

impl DoneFlow {
    #[verifier::type_invariant]
    closed spec fn in_range(self) -> bool {
        done_in_range(self.ok, self.step)
    }

    /// Whether success is signalled.
    pub closed spec fn ok(self) -> bool {
        self.ok
    }

    /// The step that is to be done next.
    pub closed spec fn at(self) -> DoneStep {
        self.step
    }

    /// Tell the sender that this receiver is done. `ok` is true on success.
    pub fn new(ok: bool) -> (r: DoneFlow)
        ensures
            r.ok() == ok,
            r.at() == (DoneStep::Connect { attempt: 0 }),
    {
        DoneFlow { ok, step: DoneStep::Connect { attempt: 0 } }
    }

    /// The step that is to be done next.
    pub fn step(&self) -> (r: DoneStep)
        ensures
            r == self.at(),
            done_in_range(self.ok(), r),
    {
        proof {
            use_type_invariant(self);
        }
        self.step
    }

    fn retry(attempt: usize) -> (r: DoneStep)
        requires
            attempt < 3,
        ensures
            r == after_failed_attempt(attempt),
    {
        if attempt + 1 < DONE_ATTEMPTS {
            DoneStep::Connect { attempt: attempt + 1 }
        } else {
            DoneStep::Finished { sent: false }
        }
    }

    /// The signalling after its step was done, and what goes with the change.
    pub fn advance(self, event: DoneEvent) -> (r: (DoneFlow, DoneNotes))
        ensures
            r.0.ok() == self.ok(),
            r.0.at() == done_after(self.ok(), self.at(), event),
            match (r.1.warning, done_warning(self.at(), event)) {
                (Some(w), Some(expected)) => w@ == expected,
                (None, None) => true,
                _ => false,
            },
            r.1.pause_ms == done_pause(self.at(), event),
    {
        proof {
            use_type_invariant(&self);
        }
        let DoneFlow { ok, step } = self;
        let mut notes = DoneNotes { warning: None, pause_ms: 0 };
        let next = match (step, event) {
            (DoneStep::Connect { attempt }, DoneEvent::Connected) => DoneStep::Open { attempt },
            (DoneStep::Connect { attempt }, DoneEvent::ConnectFailed { error }) => {
                let mut w: String =
                    "warning: failed to notify sender of completion (connect, ".to_owned();
                w.append(attempt_label(attempt).as_str());
                w.append("): ");
                w.append(error.as_str());
                notes = DoneNotes { warning: Some(w), pause_ms: DONE_PAUSE_MS };
                Self::retry(attempt)
            },
            (DoneStep::Connect { attempt }, DoneEvent::ConnectTimedOut) => {
                let mut w: String =
                    "warning: timed out notifying sender of completion (".to_owned();
                w.append(attempt_label(attempt).as_str());
                w.append(")");
                notes = DoneNotes { warning: Some(w), pause_ms: 0 };
                Self::retry(attempt)
            },
            (DoneStep::Open { attempt }, DoneEvent::Opened) => DoneStep::Send {
                status: done_byte(ok),
            },
            (DoneStep::Open { attempt }, DoneEvent::OpenFailed { error }) => {
                let mut w: String =
                    "warning: failed to notify sender of completion (open_bi, ".to_owned();
                w.append(attempt_label(attempt).as_str());
                w.append("): ");
                w.append(error.as_str());
                notes = DoneNotes { warning: Some(w), pause_ms: DONE_PAUSE_MS };
                Self::retry(attempt)
            },
            (DoneStep::Send { status }, DoneEvent::Sent) => {
                notes = DoneNotes { warning: None, pause_ms: DONE_PAUSE_MS };
                DoneStep::Finished { sent: true }
            },
            (step, _) => step,
        };
        (DoneFlow { ok, step: next }, notes)
    }
}

/// Where the signalling is after the given events.
pub open spec fn run(ok: bool, step: DoneStep, events: Seq<DoneEvent>) -> DoneStep
    decreases events.len(),
{
    if events.len() == 0 {
        step
    } else {
        run(ok, done_after(ok, step, events[0]), events.drop_first())
    }
}

/// How many of the given events answer an attempt to connect.
pub open spec fn connects(ok: bool, step: DoneStep, events: Seq<DoneEvent>) -> nat
    decreases events.len(),
{
    if events.len() == 0 {
        0
    } else {
        (if step is Connect && done_after(ok, step, events[0]) != step {
            1nat
        } else {
            0nat
        }) + connects(ok, done_after(ok, step, events[0]), events.drop_first())
    }
}

proof fn connects_from(ok: bool, step: DoneStep, events: Seq<DoneEvent>)
    requires
        done_in_range(ok, step),
    ensures
        connects(ok, step, events) <= match step {
            DoneStep::Connect { attempt } => 3 - attempt,
            DoneStep::Open { attempt } => 2 - attempt,
            _ => 0,
        },
        done_in_range(ok, run(ok, step, events)),
    decreases events.len(),
{
    if events.len() > 0 {
        connects_from(ok, done_after(ok, step, events[0]), events.drop_first());
    }
}

/// However the steps go, the sender is contacted at most three times, and the
/// only byte that is ever sent says how the receiver ended.
pub proof fn signal_is_bounded_and_true(ok: bool, events: Seq<DoneEvent>)
    ensures
        connects(ok, DoneStep::Connect { attempt: 0 }, events) <= 3,
        run(ok, DoneStep::Connect { attempt: 0 }, events) matches DoneStep::Send { status }
            ==> status == status_byte(ok),
{
    connects_from(ok, DoneStep::Connect { attempt: 0 }, events);
}

/// Signalling is not given up early: a signal that was not sent has had three attempts
/// to connect.
pub proof fn signal_is_not_given_up(ok: bool, events: Seq<DoneEvent>)
    requires
        run(ok, DoneStep::Connect { attempt: 0 }, events) == (DoneStep::Finished { sent: false }),
    ensures
        connects(ok, DoneStep::Connect { attempt: 0 }, events) == 3,
{
    connects_from(ok, DoneStep::Connect { attempt: 0 }, events);
    unsent_after_all_attempts(ok, DoneStep::Connect { attempt: 0 }, events);
}

proof fn unsent_after_all_attempts(ok: bool, step: DoneStep, events: Seq<DoneEvent>)
    requires
        step !is Finished,
        done_in_range(ok, step),
        run(ok, step, events) == (DoneStep::Finished { sent: false }),
    ensures
        step !is Send,
        connects(ok, step, events) >= match step {
            DoneStep::Connect { attempt } => 3 - attempt,
            DoneStep::Open { attempt } => 2 - attempt,
            _ => 0,
        },
    decreases events.len(),
{
    if events.len() > 0 {
        let next = done_after(ok, step, events[0]);
        if next is Finished {
            done_stays(ok, next, events.drop_first());
        } else {
            unsent_after_all_attempts(ok, next, events.drop_first());
        }
    }
}

proof fn done_stays(ok: bool, step: DoneStep, events: Seq<DoneEvent>)
    requires
        step is Finished,
    ensures
        run(ok, step, events) == step,
    decreases events.len(),
{
    if events.len() > 0 {
        done_stays(ok, step, events.drop_first());
    }
}

/// Where nothing goes wrong, the signal is sent at the first attempt: one byte, 0 for
/// success and 1 for failure.
pub proof fn smooth_signal_is_sent(ok: bool, attempt: usize)
    ensures
        ({
            let opened = done_after(ok, DoneStep::Connect { attempt }, DoneEvent::Connected);
            let sending = done_after(ok, opened, DoneEvent::Opened);
            &&& opened == (DoneStep::Open { attempt })
            &&& sending == (DoneStep::Send { status: if ok { 0 } else { 1 } })
            &&& done_after(ok, sending, DoneEvent::Sent) == (DoneStep::Finished { sent: true })
        }),
{
}

/// A failure to connect or to open a stream makes for another attempt, until there were
/// three; what does not answer a step changes nothing.
pub proof fn failed_attempt_is_repeated(ok: bool, attempt: usize, error: String)
    requires
        attempt < 3,
    ensures
        ({
            let again = if attempt == 2 {
                DoneStep::Finished { sent: false }
            } else {
                DoneStep::Connect { attempt: (attempt + 1) as usize }
            };
            let connect = DoneStep::Connect { attempt };
            let open = DoneStep::Open { attempt };
            &&& done_after(ok, connect, DoneEvent::ConnectFailed { error }) == again
            &&& done_after(ok, connect, DoneEvent::ConnectTimedOut) == again
            &&& done_after(ok, open, DoneEvent::OpenFailed { error }) == again
            &&& done_after(ok, connect, DoneEvent::Opened) == connect
            &&& done_after(ok, connect, DoneEvent::OpenFailed { error }) == connect
            &&& done_after(ok, connect, DoneEvent::Sent) == connect
            &&& done_after(ok, open, DoneEvent::Connected) == open
            &&& done_after(ok, open, DoneEvent::ConnectFailed { error }) == open
            &&& done_after(ok, open, DoneEvent::ConnectTimedOut) == open
            &&& done_after(ok, open, DoneEvent::Sent) == open
        }),
{
}

/// A byte that is being sent is not given up, and what has ended stays ended.
pub proof fn sending_goes_on(ok: bool, status: u8, sent: bool, event: DoneEvent)
    ensures
        done_after(ok, DoneStep::Send { status }, event) == if event is Sent {
            DoneStep::Finished { sent: true }
        } else {
            DoneStep::Send { status }
        },
        done_after(ok, DoneStep::Finished { sent }, event) == (DoneStep::Finished { sent }),
{
}

/// What goes wrong is told with the number of the attempt, and followed by half a second
/// of waiting unless it was a timeout; the sender gets that time after the byte too.
pub proof fn failed_attempt_is_told(attempt: usize, error: String, status: u8)
    requires
        attempt < 3,
    ensures
        ({
            let connect = DoneStep::Connect { attempt };
            let open = DoneStep::Open { attempt };
            let failed = DoneEvent::ConnectFailed { error };
            let closed = DoneEvent::OpenFailed { error };
            let number = decimal((attempt + 1) as nat);
            &&& done_warning(connect, failed) == Some(
                "warning: failed to notify sender of completion (connect, "@ + ("attempt "@
                    + number + "/3"@) + "): "@ + error@,
            )
            &&& done_warning(open, closed) == Some(
                "warning: failed to notify sender of completion (open_bi, "@ + ("attempt "@
                    + number + "/3"@) + "): "@ + error@,
            )
            &&& done_warning(connect, DoneEvent::ConnectTimedOut) == Some(
                "warning: timed out notifying sender of completion ("@ + ("attempt "@ + number
                    + "/3"@) + ")"@,
            )
            &&& done_warning(connect, DoneEvent::Connected) is None
            &&& done_warning(open, DoneEvent::Opened) is None
            &&& done_warning(DoneStep::Send { status }, DoneEvent::Sent) is None
            &&& done_pause(connect, failed) == 500
            &&& done_pause(open, closed) == 500
            &&& done_pause(connect, DoneEvent::ConnectTimedOut) == 0
            &&& done_pause(connect, DoneEvent::Connected) == 0
            &&& done_pause(open, DoneEvent::Opened) == 0
            &&& done_pause(DoneStep::Send { status }, DoneEvent::Sent) == 500
        }),
{
}

/// Nothing is told, and nobody waits, but after a failure, a timeout or the byte.
pub proof fn signalling_is_otherwise_silent(step: DoneStep, event: DoneEvent)
    ensures
        done_warning(step, event) is Some ==> (step is Connect && (event is ConnectFailed
            || event is ConnectTimedOut)) || (step is Open && event is OpenFailed),
        done_pause(step, event) != 0 ==> (step is Connect && event is ConnectFailed) || (step is Open
            && event is OpenFailed) || (step is Send && event is Sent),
{
}

/// Success is told by the byte 0 and failure by the byte 1.
pub proof fn status_bytes_are_zero_and_one()
    ensures
        status_byte(true) == 0,
        status_byte(false) == 1,
{
}

} // verus!
