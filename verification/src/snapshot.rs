//! Working through the snapshots of one discovery stream.
//!
//! Each line is a snapshot. Its listeners are considered one after the other; a
//! line that cannot be read as a snapshot is skipped, and a listener that cannot be
//! forwarded does not keep the others from it. It goes on until the stream ends.

use vstd::prelude::*;

verus! {

/// How far the stream has been worked through.
#[derive(Debug, Clone, Copy, PartialEq, Eq, Structural)]
pub enum SnapshotState {
    /// Read the next line.
    Read,
    /// Consider a listener of the snapshot: its position, and how many there are.
    Consider(usize, usize),
}

/// What came of it.
#[derive(Debug, Clone, Copy, PartialEq, Eq, Structural)]
pub enum SnapshotEvent {
    /// The line is a snapshot with so many listeners.
    Parsed(usize),
    /// The line is no snapshot.
    Unparsable,
    /// The listener was considered; `false` where forwarding it failed.
    Considered(bool),
    /// The stream has ended.
    Ended,
    /// The stream could not be read.
    ReadFailed,
}

/// What follows.
#[derive(Debug, Clone, Copy, PartialEq, Eq, Structural)]
pub enum SnapshotStep {
    /// The stream is worked through further.
    Go(SnapshotState),
    /// The stream is done, and well.
    Over,
    /// The stream is done, with the error of the read.
    Failed,
}

/// What follows `event`; an event that does not belong to the state is ignored.
pub open spec fn snapshot_next(state: SnapshotState, event: SnapshotEvent) -> SnapshotStep {
    match (state, event) {
        (SnapshotState::Read, SnapshotEvent::Parsed(count)) => if count == 0 {
            SnapshotStep::Go(SnapshotState::Read)
        } else {
            SnapshotStep::Go(SnapshotState::Consider(0, count))
        },
        (SnapshotState::Read, SnapshotEvent::Unparsable) => SnapshotStep::Go(SnapshotState::Read),
        (SnapshotState::Read, SnapshotEvent::Ended) => SnapshotStep::Over,
        (SnapshotState::Read, SnapshotEvent::ReadFailed) => SnapshotStep::Failed,
        (SnapshotState::Consider(at, count), SnapshotEvent::Considered(_)) => if at + 1 < count {
            SnapshotStep::Go(SnapshotState::Consider((at + 1) as usize, count))
        } else {
            SnapshotStep::Go(SnapshotState::Read)
        },
        _ => SnapshotStep::Go(state),
    }
}

impl SnapshotState {
    /// What follows `event`.
    pub fn next(self, event: SnapshotEvent) -> (step: SnapshotStep)
        ensures
            step == snapshot_next(self, event),
    {
        match (self, event) {
            (SnapshotState::Read, SnapshotEvent::Parsed(count)) => if count == 0 {
                SnapshotStep::Go(SnapshotState::Read)
            } else {
                SnapshotStep::Go(SnapshotState::Consider(0, count))
            },
            (SnapshotState::Read, SnapshotEvent::Unparsable) => SnapshotStep::Go(
                SnapshotState::Read,
            ),
            (SnapshotState::Read, SnapshotEvent::Ended) => SnapshotStep::Over,
            (SnapshotState::Read, SnapshotEvent::ReadFailed) => SnapshotStep::Failed,
            (SnapshotState::Consider(at, count), SnapshotEvent::Considered(_)) => if at < count
                && at + 1 < count {
                SnapshotStep::Go(SnapshotState::Consider(at + 1, count))
            } else {
                SnapshotStep::Go(SnapshotState::Read)
            },
            (state, _) => SnapshotStep::Go(state),
        }
    }
}

/// Where the stream stands after a run of events.
pub open spec fn snapshot_run(start: SnapshotState, events: Seq<SnapshotEvent>) -> SnapshotStep
    decreases events.len(),
{
    if events.len() == 0 {
        SnapshotStep::Go(start)
    } else {
        match snapshot_run(start, events.drop_last()) {
            SnapshotStep::Go(state) => snapshot_next(state, events.last()),
            end => end,
        }
    }
}

/// Only the stream itself ends the work on it: its end, which is no error, and a
/// read that failed, which is one. Neither a line that is no snapshot nor a
/// listener that could not be forwarded does.
pub proof fn only_the_stream_ends_it(state: SnapshotState, event: SnapshotEvent)
    ensures
        snapshot_next(state, event) is Over <==> state is Read && event is Ended,
        snapshot_next(state, event) is Failed <==> state is Read && event is ReadFailed,
        snapshot_next(SnapshotState::Read, SnapshotEvent::Unparsable) == SnapshotStep::Go(
            SnapshotState::Read,
        ),
{
}

/// Whether forwarding a listener succeeded makes no difference to what follows.
pub proof fn failed_forward_is_passed_over(state: SnapshotState)
    ensures
        snapshot_next(state, SnapshotEvent::Considered(false)) == snapshot_next(
            state,
            SnapshotEvent::Considered(true),
        ),
{
}

/// Every listener of a snapshot is considered, in order, however the others fared,
/// and then the next line is read.
pub proof fn every_listener_is_considered(count: usize, outcomes: Seq<bool>)
    requires
        outcomes.len() <= count,
    ensures
        snapshot_run(
            SnapshotState::Read,
            seq![SnapshotEvent::Parsed(count)] + outcomes.map_values(
                |ok: bool| SnapshotEvent::Considered(ok),
            ),
        ) == SnapshotStep::Go(
            if outcomes.len() < count {
                SnapshotState::Consider(outcomes.len() as usize, count)
            } else {
                SnapshotState::Read
            },
        ),
    decreases outcomes.len(),
{
    let first = seq![SnapshotEvent::Parsed(count)];
    let events = first + outcomes.map_values(|ok: bool| SnapshotEvent::Considered(ok));
    if outcomes.len() == 0 {
        assert(events =~= first);
        assert(first.drop_last() =~= Seq::<SnapshotEvent>::empty());
        assert(snapshot_run(SnapshotState::Read, first.drop_last()) == SnapshotStep::Go(
            SnapshotState::Read,
        ));
    } else {
        let front = outcomes.drop_last();
        every_listener_is_considered(count, front);
        assert(events.drop_last() =~= first + front.map_values(
            |ok: bool| SnapshotEvent::Considered(ok),
        ));
    }
}

} // verus!
