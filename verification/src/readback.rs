//! The outcome of a blocking buffer readback: what the map callback records, what the waiter
//! takes, and how a failure reads.
//!
//! The waiter blocks on a mutex and a condition variable around a [`MapSlot`]. The callback
//! records its outcome in the slot; one that is dropped uncalled records that, so that the waiter
//! never hangs.
use crate::number::decimal;
use vstd::prelude::*;

verus! {

/// Why polling a device failed.
#[derive(Debug, Clone, Copy, PartialEq, Eq, Structural)]
pub enum PollFailure {
    /// The wait timed out before the submission was completed.
    Timeout,
    /// The wait was given a wrong submission index: the one asked for, and the last successful
    /// one.
    WrongSubmissionIndex(u64, u64),
}

/// Why a readback wait failed. Every variant means the mapped range must not be read.
#[derive(Debug, Clone, Copy, PartialEq, Eq, Structural)]
pub enum ReadbackError {
    /// Polling the device failed while waiting for the map (device lost, timeout).
    Poll(PollFailure),
    /// The map completed with an error.
    MapFailed,
    /// The map callback was dropped without being called (the device or buffer is gone).
    Dropped,
}

/// How a poll failure reads.
pub open spec fn poll_failure_label(e: PollFailure) -> Seq<char> {
    match e {
        PollFailure::Timeout =>
            "The requested Wait timed out before the submission was completed."@,
        PollFailure::WrongSubmissionIndex(requested, successful) =>
            "Tried to wait using a submission index ("@ + decimal(requested as nat)
                + ") that has not been returned by a successful submission (last successful submission: "@
                + decimal(successful as nat),
    }
}

/// `wgpu::PollError`'s `Display`: the text of the failure, with its indices in decimal.
#[verifier::external_body]
pub(crate) fn poll_failure_text(e: PollFailure) -> (r: String)
    ensures
        r@ == poll_failure_label(e),
{
    match e {
        PollFailure::Timeout => wgpu::PollError::Timeout,
        PollFailure::WrongSubmissionIndex(a, b) => wgpu::PollError::WrongSubmissionIndex(a, b),
    }.to_string()
}

/// How a failed map reads.
pub open spec fn map_error_label() -> Seq<char> {
    "Error occurred when trying to async map a buffer"@
}

/// `wgpu::BufferAsyncError`'s `Display`: one fixed text.
#[verifier::external_body]
pub(crate) fn map_error_text() -> (r: String)
    ensures
        r@ == map_error_label(),
{
    wgpu::BufferAsyncError.to_string()
}

impl ReadbackError {
    /// How the error reads.
    pub open spec fn label(self) -> Seq<char> {
        match self {
            ReadbackError::Poll(e) => "device poll failed: "@ + poll_failure_label(e),
            ReadbackError::MapFailed => "buffer map failed: "@ + map_error_label(),
            ReadbackError::Dropped => "buffer map callback dropped without running"@,
        }
    }

    /// How the error reads.
    pub fn message(&self) -> (r: String)
        ensures
            r@ == self.label(),
    {
        match self {
            ReadbackError::Poll(e) => {
                let mut s = "device poll failed: ".to_owned();
                s.append(poll_failure_text(*e).as_str());
                s
            },
            ReadbackError::MapFailed => {
                let mut s = "buffer map failed: ".to_owned();
                s.append(map_error_text().as_str());
                s
            },
            ReadbackError::Dropped => "buffer map callback dropped without running".to_owned(),
        }
    }
}

/// What happened to a map callback.
#[derive(Debug, Clone, Copy, PartialEq, Eq, Structural)]
pub enum MapEvent {
    /// It was called: the buffer is mapped.
    Mapped,
    /// It was called with an error.
    Failed,
    /// It was dropped uncalled.
    Dropped,
}

/// The outcome that an event stands for.
pub open spec fn event_outcome(event: MapEvent) -> Result<(), ReadbackError> {
    match event {
        MapEvent::Mapped => Ok(()),
        MapEvent::Failed => Err(ReadbackError::MapFailed),
        MapEvent::Dropped => Err(ReadbackError::Dropped),
    }
}

/// The map outcome: none until the callback ran or was dropped uncalled.
#[derive(Debug)]
pub struct MapSlot {
    /// What was recorded and not taken yet.
    pub outcome: Option<Result<(), ReadbackError>>,
}

/// A slot's outcome after `event`: the first that was recorded stays.
pub open spec fn after_event(
    outcome: Option<Result<(), ReadbackError>>,
    event: MapEvent,
) -> Option<Result<(), ReadbackError>> {
    if outcome is Some {
        outcome
    } else {
        Some(event_outcome(event))
    }
}

impl MapSlot {
    /// A slot with no outcome yet.
    pub fn new() -> (r: Self)
        ensures
            r.outcome is None,
    {
        MapSlot { outcome: None }
    }

    /// Record the first outcome.
    pub fn finish(&mut self, event: MapEvent)
        ensures
            final(self).outcome == after_event(old(self).outcome, event),
    {
        if self.outcome.is_none() {
            self.outcome = Some(
                match event {
                    MapEvent::Mapped => Ok(()),
                    MapEvent::Failed => Err(ReadbackError::MapFailed),
                    MapEvent::Dropped => Err(ReadbackError::Dropped),
                },
            );
        }
    }

    /// Take the outcome, if there is one: a waiter with `None` waits on.
    pub fn take(&mut self) -> (r: Option<Result<(), ReadbackError>>)
        ensures
            r == old(self).outcome,
            final(self).outcome is None,
    {
        let r = self.outcome;
        self.outcome = None;
        r
    }

    /// One step of a readback after the device was polled: a failed poll ends it, else the
    /// recorded outcome does; `None` where there is none yet.
    pub fn map_read_step(&mut self, poll: Result<(), PollFailure>) -> (r: Option<
        Result<(), ReadbackError>,
    >)
        ensures
            match poll {
                Err(e) => r == Some(Err::<(), ReadbackError>(ReadbackError::Poll(e)))
                    && final(self).outcome == old(self).outcome,
                Ok(_) => r == old(self).outcome && final(self).outcome is None,
            },
    {
        match poll {
            Err(e) => Some(Err(ReadbackError::Poll(e))),
            Ok(_) => self.take(),
        }
    }
}

/// Whatever events follow, the first decides the outcome: a callback that ran and is dropped
/// afterwards counts as run, and a callback that is dropped uncalled still ends the wait.
pub proof fn law_first_event_wins(first: MapEvent, later: Seq<MapEvent>)
    ensures
        later.fold_left(after_event(None, first), |o, e: MapEvent| after_event(o, e)) == Some(
            event_outcome(first),
        ),
    decreases later.len(),
{
    if later.len() > 0 {
        law_first_event_wins(first, later.drop_last());
    }
}

/// A map that ran without error is the only success; a failed one and a dropped one are told apart.
pub proof fn law_outcomes_of_events(event: MapEvent)
    ensures
        event_outcome(event) is Ok <==> event == MapEvent::Mapped,
        event == MapEvent::Failed ==> event_outcome(event) == Err::<(), ReadbackError>(
            ReadbackError::MapFailed,
        ),
        event == MapEvent::Dropped ==> event_outcome(event) == Err::<(), ReadbackError>(
            ReadbackError::Dropped,
        ),
        after_event(None, event) == Some(event_outcome(event)),
{
}

/// A message says what failed, and behind that how.
pub proof fn law_messages(e: PollFailure)
    ensures
        ReadbackError::Poll(e).label() == "device poll failed: "@ + poll_failure_label(e),
        ReadbackError::MapFailed.label() == "buffer map failed: "@ + map_error_label(),
        ReadbackError::Dropped.label() == "buffer map callback dropped without running"@,
{
}

} // verus!
