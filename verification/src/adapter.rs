use vstd::prelude::*;

use crate::errors::CapError;

verus! {

/// What one iteration of the readiness-driven read protocol observes:
/// either the notifier has not yet marked the descriptor readable, or it
/// has and the single non-blocking read attempt ended with a byte count or
/// an error.
#[derive(Clone, Copy, Debug, PartialEq, Eq)]
pub enum ReadEvent {
    /// The readiness notifier has no readable mark yet.
    NotReady,
    /// The descriptor was marked readable and one read was attempted: so
    /// many bytes (zero is a legitimate empty frame, not end-of-stream),
    /// the expected `WouldBlock` of a spurious wake-up, or a fatal error.
    Ready(Result<usize, CapError>),
}

/// What the protocol does with one observation.
#[derive(Clone, Copy, Debug, PartialEq, Eq)]
pub enum StepAction {
    /// Suspend the calling task until the notifier wakes it.
    Suspend,
    /// Clear the readiness mark and go back to waiting; a spurious
    /// wake-up is never an error and never a return to the caller.
    Retry,
    /// Hand this many bytes to the caller.
    Complete(usize),
    /// Propagate a fatal read error to the caller.
    Fail(CapError),
}

/// The decision taken on one observation: suspend while not ready, retry
/// on a spurious wake-up, and return to the caller only with data or a
/// fatal error.
pub open spec fn step_of(ev: ReadEvent) -> StepAction {
    match ev {
        ReadEvent::NotReady => StepAction::Suspend,
        ReadEvent::Ready(Ok(n)) => StepAction::Complete(n),
        ReadEvent::Ready(Err(CapError::WouldBlock)) => StepAction::Retry,
        ReadEvent::Ready(Err(e)) => StepAction::Fail(e),
    }
}

/// Decides what one protocol iteration does with what it observed.
pub fn adapter_step(ev: &ReadEvent) -> (r: StepAction)
    ensures
        r == step_of(*ev),
{
    match ev {
        ReadEvent::NotReady => StepAction::Suspend,
        ReadEvent::Ready(Ok(n)) => StepAction::Complete(*n),
        ReadEvent::Ready(Err(CapError::WouldBlock)) => StepAction::Retry,
        ReadEvent::Ready(Err(e)) => StepAction::Fail(*e),
    }
}

/// How a whole suspension-point read ends.
#[derive(Clone, Copy, Debug, PartialEq, Eq)]
pub enum ReadOutcome {
    /// Data reached the caller: the read is over.
    Finished(usize),
    /// A fatal error reached the caller.
    Failed(CapError),
    /// Every observation so far was a wait or a spurious wake-up: the task
    /// is still suspended, not busy-looping and not returning.
    Suspended,
}

/// How the protocol ends on a sequence of observations: the first data or
/// fatal error decides; waits and spurious wake-ups only keep it going.
pub open spec fn run_of(events: Seq<ReadEvent>) -> ReadOutcome
    decreases events.len(),
{
    if events.len() == 0 {
        ReadOutcome::Suspended
    } else {
        match step_of(events[0]) {
            StepAction::Complete(n) => ReadOutcome::Finished(n),
            StepAction::Fail(e) => ReadOutcome::Failed(e),
            _ => run_of(events.skip(1)),
        }
    }
}

/// Drives the protocol over a sequence of observations, one
/// `adapter_step` decision per iteration.
pub fn read_async_model(events: &Vec<ReadEvent>) -> (r: ReadOutcome)
    ensures
        r == run_of(events@),
{
    let mut i: usize = 0;
    proof {
        assert(events@.skip(0) =~= events@);
    }
    while i < events.len()
        invariant
            i <= events@.len(),
            run_of(events@) == run_of(events@.skip(i as int)),
        decreases events@.len() - i,
    {
        proof {
            assert(events@.skip(i as int)[0] == events@[i as int]);
            assert(events@.skip(i as int).skip(1) =~= events@.skip(i as int + 1));
        }
        match adapter_step(&events[i]) {
            StepAction::Suspend => {},
            StepAction::Retry => {},
            StepAction::Complete(n) => {
                return ReadOutcome::Finished(n);
            },
            StepAction::Fail(e) => {
                return ReadOutcome::Failed(e);
            },
        }
        i = i + 1;
    }
    proof {
        assert(events@.skip(i as int) =~= Seq::<ReadEvent>::empty());
    }
    ReadOutcome::Suspended
}

/// Whether one observation is a wait or a spurious wake-up: the two that
/// keep the read going without returning.
pub open spec fn keeps_waiting(ev: ReadEvent) -> bool {
    ev == ReadEvent::NotReady || ev == ReadEvent::Ready(Err::<usize, CapError>(
        CapError::WouldBlock,
    ))
}

/// The protocol hands bytes to the caller only for an actual read of data,
/// and only after nothing but waits and spurious wake-ups: a would-block
/// read never reaches the caller and never ends the read.
pub proof fn lemma_finish_needs_data(events: Seq<ReadEvent>, n: usize)
    requires
        run_of(events) == ReadOutcome::Finished(n),
    ensures
        exists|i: int|
            0 <= i < events.len() && #[trigger] events[i] == ReadEvent::Ready(Ok::<
                usize,
                CapError,
            >(n)) && (forall|j: int| 0 <= j < i ==> keeps_waiting(events[j])),
    decreases events.len(),
{
    if step_of(events[0]) is Complete {
        assert(events[0] == ReadEvent::Ready(Ok::<usize, CapError>(n)) && (forall|j: int|
            0 <= j < 0 ==> keeps_waiting(events[j])));
    } else {
        lemma_finish_needs_data(events.skip(1), n);
        let i0 = choose|i: int|
            0 <= i < events.skip(1).len() && #[trigger] events.skip(1)[i] == ReadEvent::Ready(Ok::<
                usize,
                CapError,
            >(n)) && (forall|j: int| 0 <= j < i ==> keeps_waiting(events.skip(1)[j]));
        assert(events[i0 + 1] == ReadEvent::Ready(Ok::<usize, CapError>(n)));
        assert forall|j: int| 0 <= j < i0 + 1 implies keeps_waiting(events[j]) by {
            if j == 0 {
            } else {
                assert(keeps_waiting(events.skip(1)[j - 1]));
                assert(events.skip(1)[j - 1] == events[j]);
            }
        }
    }
}

/// A would-block is fully absorbed inside the protocol: whatever the
/// observations, the error that reaches the caller is never `WouldBlock`.
pub proof fn lemma_would_block_never_surfaces(events: Seq<ReadEvent>)
    ensures
        run_of(events) != ReadOutcome::Failed(CapError::WouldBlock),
    decreases events.len(),
{
    if events.len() > 0 {
        lemma_would_block_never_surfaces(events.skip(1));
    }
}

/// While every observation is a wait or a spurious wake-up, the protocol
/// stays suspended: it neither returns to the caller nor reports an error.
pub proof fn lemma_starved_stays_suspended(events: Seq<ReadEvent>)
    requires
        forall|j: int| 0 <= j < events.len() ==> keeps_waiting(#[trigger] events[j]),
    ensures
        run_of(events) == ReadOutcome::Suspended,
    decreases events.len(),
{
    if events.len() > 0 {
        assert(keeps_waiting(events[0]));
        assert forall|j: int| 0 <= j < events.skip(1).len() implies keeps_waiting(
            #[trigger] events.skip(1)[j],
        ) by {
            assert(events.skip(1)[j] == events[j + 1]);
        }
        lemma_starved_stays_suspended(events.skip(1));
    }
}

} // verus!
