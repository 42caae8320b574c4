use lanwatch::CapError;
use lanwatch::ReadEvent;
use lanwatch::ReadOutcome;
use lanwatch::StepAction;
use lanwatch::adapter_step;
use lanwatch::read_async_model;

#[test]
fn step_suspends_while_not_ready() {
    assert_eq!(adapter_step(&ReadEvent::NotReady), StepAction::Suspend);
}

#[test]
fn step_retries_on_spurious_wakeup() {
    let ev = ReadEvent::Ready(Err(CapError::WouldBlock));
    assert_eq!(adapter_step(&ev), StepAction::Retry);
}

#[test]
fn step_completes_on_data_and_fails_on_fatal_error() {
    assert_eq!(adapter_step(&ReadEvent::Ready(Ok(42))), StepAction::Complete(42));
    assert_eq!(adapter_step(&ReadEvent::Ready(Ok(0))), StepAction::Complete(0));
    assert_eq!(
        adapter_step(&ReadEvent::Ready(Err(CapError::OsError(5)))),
        StepAction::Fail(CapError::OsError(5))
    );
}

#[test]
fn would_block_then_success_reaches_caller_only_with_the_data() {
    // A socket double that reports would-block once, then delivers a frame:
    // the read must ride out the spurious wake-up and return the data.
    let events = vec![
        ReadEvent::Ready(Err(CapError::WouldBlock)),
        ReadEvent::Ready(Ok(60)),
    ];
    assert_eq!(read_async_model(&events), ReadOutcome::Finished(60));
}

#[test]
fn repeated_spurious_wakeups_never_return() {
    let events = vec![
        ReadEvent::NotReady,
        ReadEvent::Ready(Err(CapError::WouldBlock)),
        ReadEvent::NotReady,
        ReadEvent::Ready(Err(CapError::WouldBlock)),
    ];
    assert_eq!(read_async_model(&events), ReadOutcome::Suspended);
}

#[test]
fn empty_frame_is_data_not_end_of_stream() {
    let events = vec![
        ReadEvent::Ready(Err(CapError::WouldBlock)),
        ReadEvent::Ready(Ok(0)),
    ];
    assert_eq!(read_async_model(&events), ReadOutcome::Finished(0));
}

#[test]
fn fatal_error_propagates() {
    let events = vec![ReadEvent::NotReady, ReadEvent::Ready(Err(CapError::OsError(13)))];
    assert_eq!(read_async_model(&events), ReadOutcome::Failed(CapError::OsError(13)));
}

#[test]
fn first_decision_wins() {
    let events = vec![
        ReadEvent::Ready(Ok(7)),
        ReadEvent::Ready(Err(CapError::OsError(1))),
    ];
    assert_eq!(read_async_model(&events), ReadOutcome::Finished(7));
}

#[test]
fn would_block_never_surfaces_as_the_outcome() {
    let runs = [
        vec![ReadEvent::Ready(Err(CapError::WouldBlock))],
        vec![ReadEvent::NotReady, ReadEvent::Ready(Err(CapError::WouldBlock))],
        vec![
            ReadEvent::Ready(Err(CapError::WouldBlock)),
            ReadEvent::Ready(Err(CapError::OsError(9))),
        ],
    ];
    for events in runs {
        assert_ne!(read_async_model(&events), ReadOutcome::Failed(CapError::WouldBlock));
    }
}
