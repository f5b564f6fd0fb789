//! The task that keeps a held lock alive: it refreshes the lock periodically until it is
//! asked to shut down, then releases it.
use vstd::prelude::*;

verus! {

/// What happened to the task that keeps the lock alive.
#[derive(Clone, Copy, PartialEq, Eq, Structural, Debug)]
pub enum RefresherEvent {
    /// The refresh period elapsed.
    Tick,
    /// A refresh of the lock was written.
    Refreshed,
    /// A refresh of the lock failed.
    RefreshFailed,
    /// The owner asked the task to release the lock and stop.
    ShutdownRequested,
}

/// What the task that keeps the lock alive does next.
#[derive(Clone, Copy, PartialEq, Eq, Structural, Debug)]
pub enum RefresherAction {
    /// Refresh the lock now.
    Refresh,
    /// Wait for the next event.
    Wait,
    /// Release the lock, then stop.
    ReleaseAndStop,
    /// Stop without touching the lock.
    Stop,
}

/// The state of the task that keeps the lock alive.
#[derive(Clone, Copy, PartialEq, Eq, Structural, Debug)]
pub enum RefresherState {
    Running,
    Stopped,
}

/// One step of the task that keeps the lock alive: it refreshes on every tick, stops for
/// good when a refresh fails, and releases the lock when asked to shut down.
pub fn refresher_step(state: RefresherState, event: RefresherEvent) -> (r: (RefresherState, RefresherAction))
    ensures
        r == refresher_outcome(state, event),
{
    match state {
        RefresherState::Stopped => (RefresherState::Stopped, RefresherAction::Stop),
        RefresherState::Running => match event {
            RefresherEvent::Tick => (RefresherState::Running, RefresherAction::Refresh),
            RefresherEvent::Refreshed => (RefresherState::Running, RefresherAction::Wait),
            RefresherEvent::RefreshFailed => (RefresherState::Stopped, RefresherAction::Stop),
            RefresherEvent::ShutdownRequested => (RefresherState::Stopped, RefresherAction::ReleaseAndStop),
        },
    }
}

/// The outcome of feeding events one after another to the refresher, from `state`.
pub open spec fn refresher_run(state: RefresherState, events: Seq<RefresherEvent>) -> (RefresherState, Seq<RefresherAction>)
    decreases events.len(),
{
    if events.len() == 0 {
        (state, Seq::empty())
    } else {
        let (next, action) = refresher_outcome(state, events[0]);
        let (last, actions) = refresher_run(next, events.drop_first());
        (last, seq![action] + actions)
    }
}

pub open spec fn refresher_outcome(state: RefresherState, event: RefresherEvent) -> (RefresherState, RefresherAction) {
    match (state, event) {
        (RefresherState::Stopped, _) => (RefresherState::Stopped, RefresherAction::Stop),
        (RefresherState::Running, RefresherEvent::Tick) => (RefresherState::Running, RefresherAction::Refresh),
        (RefresherState::Running, RefresherEvent::Refreshed) => (RefresherState::Running, RefresherAction::Wait),
        (RefresherState::Running, RefresherEvent::RefreshFailed) => (RefresherState::Stopped, RefresherAction::Stop),
        (RefresherState::Running, RefresherEvent::ShutdownRequested) => (RefresherState::Stopped, RefresherAction::ReleaseAndStop),
    }
}

/// Over any sequence of events, the task releases the lock at most once, and only in answer
/// to a shutdown request; once it has stopped it does nothing but stop, and it never
/// refreshes after a failed refresh.
pub proof fn lemma_refresher_releases_at_most_once(state: RefresherState, events: Seq<RefresherEvent>)
    ensures
        ({
            let (_, actions) = refresher_run(state, events);
            &&& actions.len() == events.len()
            &&& forall|i: int| 0 <= i < actions.len() && actions[i] == RefresherAction::ReleaseAndStop
                ==> events[i] == RefresherEvent::ShutdownRequested
            &&& forall|i: int, j: int| 0 <= i < j < actions.len() && (actions[i] == RefresherAction::ReleaseAndStop
                || actions[i] == RefresherAction::Stop) ==> actions[j] == RefresherAction::Stop
        }),
        state == RefresherState::Stopped ==> forall|i: int| 0 <= i < events.len() ==> refresher_run(state, events).1[i] == RefresherAction::Stop,
    decreases events.len(),
{
    if events.len() > 0 {
        let (next, action) = refresher_outcome(state, events[0]);
        lemma_refresher_releases_at_most_once(next, events.drop_first());
        let (last, rest) = refresher_run(next, events.drop_first());
        let actions = seq![action] + rest;
        assert(refresher_run(state, events).1 == actions);
        assert forall|i: int| 0 <= i < actions.len() && actions[i] == RefresherAction::ReleaseAndStop
            implies events[i] == RefresherEvent::ShutdownRequested by {
            if i > 0 {
                assert(actions[i] == rest[i - 1]);
                assert(events.drop_first()[i - 1] == events[i]);
            }
        }
        assert forall|i: int, j: int| 0 <= i < j < actions.len() && (actions[i] == RefresherAction::ReleaseAndStop
            || actions[i] == RefresherAction::Stop) implies actions[j] == RefresherAction::Stop by {
            assert(actions[j] == rest[j - 1]);
            if i > 0 {
                assert(actions[i] == rest[i - 1]);
            } else {
                assert(next == RefresherState::Stopped);
            }
        }
        if state == RefresherState::Stopped {
            assert forall|i: int| 0 <= i < events.len() implies actions[i] == RefresherAction::Stop by {
                if i > 0 {
                    assert(actions[i] == rest[i - 1]);
                }
            }
        }
    }
}

} // verus!
