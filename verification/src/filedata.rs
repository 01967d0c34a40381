//! Serving a read request: a buffer of the host is obtained, filled from
//! the backing store, handed to the host, and given back.
//!
//! The steps are taken by the embedding program, which owns the buffer.
//! What is decided here is their order.

use vstd::prelude::*;
use crate::provider::ProviderError;
use crate::status::{StatusCode, E_OUTOFMEMORY, S_OK};

verus! {

/// How far the serving of one read request has come.
#[derive(Clone, Copy, Debug, PartialEq, Eq)]
pub enum TransferPhase {
    /// The host has been asked for a buffer.
    Allocating,
    /// The backing store is filling the buffer.
    Reading,
    /// The host is taking the data from the buffer.
    Writing,
    /// The buffer is being given back to the host.
    Releasing,
    /// The request has been answered.
    Finished,
}

/// What the embedding program is to do next for a read request.
#[derive(Clone, Copy, Debug, PartialEq, Eq)]
pub enum TransferAction {
    /// Ask the host for an aligned buffer of `length` bytes.
    Allocate { length: u32 },
    /// Fill the buffer with `length` bytes of the file from `offset` on.
    Read { offset: u64, length: u32 },
    /// Hand the host the `length` bytes in the buffer as the file's data
    /// from `offset` on.
    Write { offset: u64, length: u32 },
    /// Give the buffer back to the host.
    Release,
    /// Answer the request.
    Finish(Result<StatusCode, ProviderError>),
}

/// What came of the last action.
#[derive(Clone, Copy, Debug, PartialEq, Eq)]
pub enum TransferEvent {
    /// Whether the host gave a buffer.
    Allocated(bool),
    /// Whether the backing store filled the buffer.
    Read(Result<(), ProviderError>),
    /// The host's answer to the data.
    Written(StatusCode),
    /// The buffer has been given back.
    Released,
}

/// The serving of one read request: `length` bytes from `offset` on.
#[derive(Clone, Copy, Debug, PartialEq, Eq)]
pub struct FileDataTransfer {
    pub phase: TransferPhase,
    pub offset: u64,
    pub length: u32,
    /// The answer that the request gets once the buffer is given back.
    pub outcome: Result<StatusCode, ProviderError>,
}

/// Whether a buffer of the host is held in `phase`.
pub open spec fn holds_buffer(phase: TransferPhase) -> bool {
    phase is Reading || phase is Writing || phase is Releasing
}

/// Whether `event` is what can come of the action that led to `phase`.
pub open spec fn transfer_expects(phase: TransferPhase, event: TransferEvent) -> bool {
    match phase {
        TransferPhase::Allocating => event is Allocated,
        TransferPhase::Reading => event is Read,
        TransferPhase::Writing => event is Written,
        TransferPhase::Releasing => event is Released,
        TransferPhase::Finished => false,
    }
}

/// The serving of a read request as it begins, and its first action.
pub open spec fn transfer_start(offset: u64, length: u32) -> (FileDataTransfer, TransferAction) {
    (
        FileDataTransfer { phase: TransferPhase::Allocating, offset, length, outcome: Ok(S_OK) },
        TransferAction::Allocate { length },
    )
}

/// The next state and action. Without a buffer the request is answered
/// with the out-of-memory status at once. With one, the backing store
/// fills it and the host takes the data; then, and also when the backing
/// store fails, the buffer is given back before the request is answered:
/// with the host's answer to the data, or with the backing store's error.
pub open spec fn transfer_step(t: FileDataTransfer, event: TransferEvent) -> (
    FileDataTransfer,
    TransferAction,
) {
    match (t.phase, event) {
        (TransferPhase::Allocating, TransferEvent::Allocated(true)) => (
            FileDataTransfer { phase: TransferPhase::Reading, ..t },
            TransferAction::Read { offset: t.offset, length: t.length },
        ),
        (TransferPhase::Allocating, TransferEvent::Allocated(false)) => (
            FileDataTransfer { phase: TransferPhase::Finished, outcome: Ok(E_OUTOFMEMORY), ..t },
            TransferAction::Finish(Ok(E_OUTOFMEMORY)),
        ),
        (TransferPhase::Reading, TransferEvent::Read(Ok(()))) => (
            FileDataTransfer { phase: TransferPhase::Writing, ..t },
            TransferAction::Write { offset: t.offset, length: t.length },
        ),
        (TransferPhase::Reading, TransferEvent::Read(Err(error))) => (
            FileDataTransfer { phase: TransferPhase::Releasing, outcome: Err(error), ..t },
            TransferAction::Release,
        ),
        (TransferPhase::Writing, TransferEvent::Written(status)) => (
            FileDataTransfer { phase: TransferPhase::Releasing, outcome: Ok(status), ..t },
            TransferAction::Release,
        ),
        (TransferPhase::Releasing, TransferEvent::Released) => (
            FileDataTransfer { phase: TransferPhase::Finished, ..t },
            TransferAction::Finish(t.outcome),
        ),
        _ => (t, TransferAction::Finish(t.outcome)),
    }
}

impl FileDataTransfer {
    /// Begins to serve a read request.
    pub fn start(offset: u64, length: u32) -> (r: (FileDataTransfer, TransferAction))
        ensures
            r == transfer_start(offset, length),
    {
        (
            FileDataTransfer {
                phase: TransferPhase::Allocating,
                offset,
                length,
                outcome: Ok(S_OK),
            },
            TransferAction::Allocate { length },
        )
    }

    /// Whether the request has been answered.
    pub fn is_finished(&self) -> (b: bool)
        ensures
            b == (self.phase is Finished),
    {
        match self.phase {
            TransferPhase::Finished => true,
            _ => false,
        }
    }

    /// Whether `event` is what can come of the last action.
    pub fn expects(&self, event: &TransferEvent) -> (b: bool)
        ensures
            b == transfer_expects(self.phase, *event),
    {
        match (self.phase, event) {
            (TransferPhase::Allocating, TransferEvent::Allocated(_)) => true,
            (TransferPhase::Reading, TransferEvent::Read(_)) => true,
            (TransferPhase::Writing, TransferEvent::Written(_)) => true,
            (TransferPhase::Releasing, TransferEvent::Released) => true,
            _ => false,
        }
    }

    /// Takes what came of the last action and says what to do next.
    pub fn step(&mut self, event: TransferEvent) -> (action: TransferAction)
        requires
            transfer_expects(old(self).phase, event),
        ensures
            (*final(self), action) == transfer_step(*old(self), event),
    {
        match (self.phase, event) {
            (TransferPhase::Allocating, TransferEvent::Allocated(true)) => {
                self.phase = TransferPhase::Reading;
                TransferAction::Read { offset: self.offset, length: self.length }
            },
            (TransferPhase::Allocating, TransferEvent::Allocated(false)) => {
                self.phase = TransferPhase::Finished;
                self.outcome = Ok(E_OUTOFMEMORY);
                TransferAction::Finish(Ok(E_OUTOFMEMORY))
            },
            (TransferPhase::Reading, TransferEvent::Read(Ok(()))) => {
                self.phase = TransferPhase::Writing;
                TransferAction::Write { offset: self.offset, length: self.length }
            },
            (TransferPhase::Reading, TransferEvent::Read(Err(error))) => {
                self.phase = TransferPhase::Releasing;
                self.outcome = Err(error);
                TransferAction::Release
            },
            (TransferPhase::Writing, TransferEvent::Written(status)) => {
                self.phase = TransferPhase::Releasing;
                self.outcome = Ok(status);
                TransferAction::Release
            },
            (TransferPhase::Releasing, TransferEvent::Released) => {
                self.phase = TransferPhase::Finished;
                TransferAction::Finish(self.outcome)
            },
            _ => TransferAction::Finish(self.outcome),
        }
    }
}

/// Whether each event of `events`, in turn, is what the transfer expects.
pub open spec fn transfer_run_valid(t: FileDataTransfer, events: Seq<TransferEvent>) -> bool
    decreases events.len(),
{
    events.len() == 0 || (transfer_expects(t.phase, events[0]) && transfer_run_valid(
        transfer_step(t, events[0]).0,
        events.drop_first(),
    ))
}

/// The transfer after the events of `events`, in turn.
pub open spec fn transfer_run_end(t: FileDataTransfer, events: Seq<TransferEvent>) -> FileDataTransfer
    decreases events.len(),
{
    if events.len() == 0 {
        t
    } else {
        transfer_run_end(transfer_step(t, events[0]).0, events.drop_first())
    }
}

/// How many buffers the host gave in `events`.
pub open spec fn buffers_obtained(events: Seq<TransferEvent>) -> nat
    decreases events.len(),
{
    if events.len() == 0 {
        0
    } else {
        (if events[0] == TransferEvent::Allocated(true) {
            1nat
        } else {
            0nat
        }) + buffers_obtained(events.drop_first())
    }
}

/// How many buffers were given back in `events`.
pub open spec fn buffers_released(events: Seq<TransferEvent>) -> nat
    decreases events.len(),
{
    if events.len() == 0 {
        0
    } else {
        (if events[0] is Released {
            1nat
        } else {
            0nat
        }) + buffers_released(events.drop_first())
    }
}

/// The buffers held before a run and those obtained in it are those given
/// back in it and those held after it.
pub proof fn lemma_transfer_buffers_balance(t: FileDataTransfer, events: Seq<TransferEvent>)
    requires
        transfer_run_valid(t, events),
    ensures
        (if holds_buffer(t.phase) {
            1nat
        } else {
            0nat
        }) + buffers_obtained(events) == buffers_released(events) + (if holds_buffer(
            transfer_run_end(t, events).phase,
        ) {
            1nat
        } else {
            0nat
        }),
    decreases events.len(),
{
    if events.len() > 0 {
        lemma_transfer_buffers_balance(transfer_step(t, events[0]).0, events.drop_first());
    }
}

/// A step answers the request only when no buffer is held, and it asks
/// for the buffer to be given back whenever the backing store has failed
/// or the host has taken the data.
pub proof fn lemma_transfer_step_releases(t: FileDataTransfer, event: TransferEvent)
    requires
        transfer_expects(t.phase, event),
    ensures
        transfer_step(t, event).1 is Finish ==> !holds_buffer(transfer_step(t, event).0.phase),
        transfer_step(t, event).1 is Finish <==> transfer_step(t, event).0.phase is Finished,
        transfer_step(t, event).1 is Release <==> transfer_step(t, event).0.phase is Releasing,
        t.phase is Reading && event is Read && event->Read_0 is Err ==> transfer_step(
            t,
            event,
        ).1 is Release,
        t.phase is Writing ==> transfer_step(t, event).1 is Release,
        holds_buffer(t.phase) && !holds_buffer(transfer_step(t, event).0.phase)
            ==> event is Released,
{
}

/// Over any run that serves a request from its start to its answer, as
/// many buffers are given back as were obtained, whatever failed on the
/// way.
pub proof fn lemma_transfer_releases_buffer(offset: u64, length: u32, events: Seq<TransferEvent>)
    requires
        transfer_run_valid(transfer_start(offset, length).0, events),
        transfer_run_end(transfer_start(offset, length).0, events).phase is Finished,
    ensures
        buffers_obtained(events) == buffers_released(events),
        buffers_obtained(events) <= 1,
{
    lemma_transfer_buffers_balance(transfer_start(offset, length).0, events);
    lemma_transfer_obtains_once(transfer_start(offset, length).0, events);
}

/// The most steps that serving a request can still take from `phase`.
pub open spec fn steps_left(phase: TransferPhase) -> nat {
    match phase {
        TransferPhase::Allocating => 4,
        TransferPhase::Reading => 3,
        TransferPhase::Writing => 2,
        TransferPhase::Releasing => 1,
        TransferPhase::Finished => 0,
    }
}

/// Serving a request comes to an end: every step brings the answer
/// nearer, so no run is longer than four steps, and a buffer that is held
/// is given back within three.
pub proof fn lemma_transfer_ends(t: FileDataTransfer, events: Seq<TransferEvent>)
    requires
        transfer_run_valid(t, events),
    ensures
        events.len() <= steps_left(t.phase),
        steps_left(transfer_run_end(t, events).phase) + events.len() <= steps_left(t.phase),
    decreases events.len(),
{
    if events.len() > 0 {
        lemma_transfer_ends(transfer_step(t, events[0]).0, events.drop_first());
    }
}

/// A run obtains a buffer only while it waits for one.
proof fn lemma_transfer_obtains_once(t: FileDataTransfer, events: Seq<TransferEvent>)
    requires
        transfer_run_valid(t, events),
    ensures
        buffers_obtained(events) <= if t.phase is Allocating {
            1nat
        } else {
            0nat
        },
    decreases events.len(),
{
    if events.len() > 0 {
        lemma_transfer_obtains_once(transfer_step(t, events[0]).0, events.drop_first());
    }
}

} // verus!
