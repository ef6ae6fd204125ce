//! Events of the controller's loop, and what to do with each.
//!
//! The embedding program owns the actual event loop; each event it receives
//! is interpreted here into an action it must carry out: run the main
//! runner's cycle, run popped dispatch callbacks, report a diagnostic, halt,
//! or hand the event to the root scene.

use vstd::prelude::*;

verus! {

use crate::dispatch::{DispatchList, DispatchMsg, spec_fire_many};
use crate::runner::DEFAULT_RECV_TIMEOUT_MS;

/// An event the application itself raises into its own loop.
#[derive(Debug, PartialEq, Eq)]
pub enum GameUserEvent {
    /// Stop all workers, join them, and halt with this code.
    Exit(i32),
    /// Fire previously registered dispatch entries.
    Dispatch(DispatchMsg),
    /// A diagnostic from another thread.
    Error(String),
}

/// An event of the controller's loop.
#[derive(Debug, PartialEq, Eq)]
pub enum GameEvent {
    /// The loop finished delivering events; time for one main-runner cycle.
    MainEventsCleared,
    /// The platform asked to close the window with this id.
    WindowCloseRequested { window_id: u64 },
    /// An application-raised event.
    User(GameUserEvent),
    /// Any other platform event; delivered to the root scene.
    Other,
}

/// The action the controller must carry out for one event.
pub enum EventAction<T> {
    /// Run one cycle of the main runner.
    RunMainSingle,
    /// Stop all workers, join them, and halt with this code.
    Exit(i32),
    /// Invoke these popped dispatch callbacks, in order.
    RunDispatches(Vec<T>),
    /// Log this diagnostic.
    ReportError(String),
    /// Hand the event to the root scene.
    Propagate(GameEvent),
}

/// Interpret one event: dispatch requests pop their entries here — cancelled
/// or unknown ids fire nothing — and every other event maps to the action the
/// embedding program must take.
pub fn handle_event<T>(dispatch_list: &mut DispatchList<T>, event: GameEvent) -> (r: EventAction<
    T,
>)
    ensures
        final(dispatch_list).spec_next_id() == old(dispatch_list).spec_next_id(),
        ({
            let unchanged = final(dispatch_list).entries() == old(dispatch_list).entries();
            match event {
                GameEvent::MainEventsCleared => r is RunMainSingle && unchanged,
                GameEvent::User(GameUserEvent::Exit(code)) => r == EventAction::<T>::Exit(code)
                    && unchanged,
                GameEvent::User(GameUserEvent::Dispatch(DispatchMsg::ExecuteDispatch(ids))) => {
                    &&& r matches EventAction::RunDispatches(cbs) && (
                    final(dispatch_list).entries(),
                    cbs@,
                    ) == spec_fire_many(old(dispatch_list).entries(), ids@)
                },
                GameEvent::User(GameUserEvent::Error(e)) => r == EventAction::<T>::ReportError(e)
                    && unchanged,
                _ => r == EventAction::<T>::Propagate(event) && unchanged,
            }
        }),
{
    match event {
        GameEvent::MainEventsCleared => EventAction::RunMainSingle,
        GameEvent::User(GameUserEvent::Exit(code)) => EventAction::Exit(code),
        GameEvent::User(GameUserEvent::Dispatch(DispatchMsg::ExecuteDispatch(ids))) => {
            let fired = dispatch_list.fire_many(&ids);
            EventAction::RunDispatches(fired)
        },
        GameEvent::User(GameUserEvent::Error(e)) => EventAction::ReportError(e),
        other => EventAction::Propagate(other),
    }
}

/// After an event is handled, how long the controller's loop may wait for the
/// next one: not at all while the main container runs servers (poll to keep
/// the frame cadence), else a bounded idle wait.
pub fn next_wait_ms(main_does_run: bool) -> (r: Option<u64>)
    ensures
        r == if main_does_run {
            None::<u64>
        } else {
            Some(DEFAULT_RECV_TIMEOUT_MS)
        },
{
    if main_does_run {
        None
    } else {
        Some(DEFAULT_RECV_TIMEOUT_MS)
    }
}

} // verus!
