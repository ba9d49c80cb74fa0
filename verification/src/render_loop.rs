//! The decisions of the frame loop.
//!
//! The loop itself lives with the window: it polls events, renders and
//! swaps buffers. After each of these it reports what happened as a
//! [`LoopEvent`] and is told by [`step`] what state it is in and what to do
//! next. The loop leaves `Running` when the window is asked to close or a
//! frame fails to render, and never returns to it.

use vstd::prelude::*;

verus! {

/// Whether the frame loop is still iterating.
#[derive(Clone, Copy, Debug, PartialEq, Eq, Structural)]
pub enum LoopState {
    Running,
    Terminated,
}

/// What the loop reads from a window event.
#[derive(Clone, Copy, Debug, PartialEq, Eq, Structural)]
pub enum WindowEvent {
    /// The window was asked to close.
    Close,
    /// Anything else; the loop ignores it.
    Other,
}

/// What is known of a frame before it is drawn.
#[derive(Clone, Copy, Debug, PartialEq, Eq, Structural)]
pub struct FrameState {
    /// Whole milliseconds since the loop started.
    pub elapsed_millis: u128,
}

/// What the loop reports.
#[derive(Clone, Copy, Debug, PartialEq, Eq, Structural)]
pub enum LoopEvent {
    /// A batch of window events was polled and drained.
    Polled { close_requested: bool, elapsed_millis: u128 },
    /// The frame's draw calls were submitted.
    Rendered { succeeded: bool },
}

/// What the loop is told to do.
#[derive(Clone, Copy, Debug, PartialEq, Eq, Structural)]
pub enum LoopAction {
    /// Clear, bind the program, write the uniforms and draw the mesh.
    Draw(FrameState),
    /// Swap the buffers and poll again.
    Present,
    /// Leave the loop.
    Stop,
}

impl LoopEvent {
    /// Whether the event ends the loop.
    pub open spec fn is_fatal(self) -> bool {
        match self {
            LoopEvent::Polled { close_requested, .. } => close_requested,
            LoopEvent::Rendered { succeeded } => !succeeded,
        }
    }
}

/// The state after an event.
pub open spec fn next_state(state: LoopState, event: LoopEvent) -> LoopState {
    if state == LoopState::Running && !event.is_fatal() {
        LoopState::Running
    } else {
        LoopState::Terminated
    }
}

/// What to do after an event.
pub open spec fn next_action(state: LoopState, event: LoopEvent) -> LoopAction {
    if next_state(state, event) == LoopState::Terminated {
        LoopAction::Stop
    } else {
        match event {
            LoopEvent::Polled { elapsed_millis, .. } => LoopAction::Draw(FrameState { elapsed_millis }),
            LoopEvent::Rendered { .. } => LoopAction::Present,
        }
    }
}

/// The state after a run of events.
pub open spec fn run(state: LoopState, events: Seq<LoopEvent>) -> LoopState
    decreases events.len(),
{
    if events.len() == 0 {
        state
    } else {
        next_state(run(state, events.drop_last()), events.last())
    }
}

impl LoopState {
    /// True once the loop has left `Running`.
    pub fn is_terminated(&self) -> (r: bool)
        ensures
            r == (*self == LoopState::Terminated),
    {
        match self {
            LoopState::Running => false,
            LoopState::Terminated => true,
        }
    }
}

/// Drains a batch of window events and tells whether any of them asks the
/// window to close. Every event of the batch is looked at.
pub fn close_requested(events: &Vec<WindowEvent>) -> (requested: bool)
    ensures
        requested == events@.contains(WindowEvent::Close),
{
    let mut requested = false;
    let mut i: usize = 0;
    while i < events.len()
        invariant
            i <= events.len(),
            requested == events@.take(i as int).contains(WindowEvent::Close),
        decreases events.len() - i,
    {
        proof {
            if events@[i as int] == WindowEvent::Close {
                assert(events@.take(i + 1)[i as int] == WindowEvent::Close);
            }
        }
        match events[i] {
            WindowEvent::Close => {
                requested = true;
            },
            WindowEvent::Other => {},
        }
        i += 1;
    }
    assert(events@.take(i as int) =~= events@);
    requested
}

/// The event that a polled batch of window events amounts to.
pub fn polled(events: &Vec<WindowEvent>, elapsed_millis: u128) -> (event: LoopEvent)
    ensures
        event == (LoopEvent::Polled { close_requested: events@.contains(WindowEvent::Close), elapsed_millis }),
{
    LoopEvent::Polled { close_requested: close_requested(events), elapsed_millis }
}

/// Takes the loop from one state to the next and says what to do.
///
/// A close request ends the loop before the frame is drawn; a frame that
/// failed to render ends it before the buffers are swapped.
pub fn step(state: LoopState, event: LoopEvent) -> (r: (LoopState, LoopAction))
    ensures
        r.0 == next_state(state, event),
        r.1 == next_action(state, event),
{
    match state {
        LoopState::Terminated => (LoopState::Terminated, LoopAction::Stop),
        LoopState::Running => match event {
            LoopEvent::Polled { close_requested, elapsed_millis } => {
                if close_requested {
                    (LoopState::Terminated, LoopAction::Stop)
                } else {
                    (LoopState::Running, LoopAction::Draw(FrameState { elapsed_millis }))
                }
            },
            LoopEvent::Rendered { succeeded } => {
                if succeeded {
                    (LoopState::Running, LoopAction::Present)
                } else {
                    (LoopState::Terminated, LoopAction::Stop)
                }
            },
        },
    }
}

/// The loop is running after a run of events exactly when it was running
/// before and none of the events is fatal: `Terminated` is never left, and
/// `Running` is left only on a close request or a failed frame.
pub proof fn lemma_running_until_fatal(state: LoopState, events: Seq<LoopEvent>)
    ensures
        run(state, events) == LoopState::Running <==> state == LoopState::Running && forall|i: int|
            0 <= i < events.len() ==> !(#[trigger] events[i]).is_fatal(),
    decreases events.len(),
{
    if events.len() > 0 {
        let init = events.drop_last();
        lemma_running_until_fatal(state, init);
        if run(state, events) == LoopState::Running {
            assert forall|i: int| 0 <= i < events.len() implies !(#[trigger] events[i]).is_fatal() by {
                if i < init.len() {
                    assert(init[i] == events[i]);
                }
            }
        }
        if state == LoopState::Running && forall|i: int| 0 <= i < events.len() ==> !(#[trigger] events[i]).is_fatal() {
            assert forall|i: int| 0 <= i < init.len() implies !(#[trigger] init[i]).is_fatal() by {}
        }
    }
}

/// A frame is drawn, or presented, only by a loop that is running and stays so.
pub proof fn lemma_no_work_after_termination(state: LoopState, event: LoopEvent)
    ensures
        next_action(state, event) != LoopAction::Stop ==> state == LoopState::Running && next_state(state, event)
            == LoopState::Running,
        next_action(state, event) matches LoopAction::Draw(frame) ==> event matches LoopEvent::Polled {
            close_requested,
            elapsed_millis,
        } && !close_requested && frame.elapsed_millis == elapsed_millis,
        next_action(state, event) == LoopAction::Present ==> event == (LoopEvent::Rendered { succeeded: true }),
{
}

} // verus!
