use mesh_viewer::render_loop::{close_requested, polled, step, FrameState, LoopAction, LoopEvent, LoopState, WindowEvent};

#[test]
fn close_on_the_first_batch_ends_the_loop_before_any_draw() {
    let batch = vec![WindowEvent::Close];
    let (state, action) = step(LoopState::Running, polled(&batch, 0));
    assert_eq!(state, LoopState::Terminated);
    assert_eq!(action, LoopAction::Stop);
    assert!(state.is_terminated());
}

#[test]
fn a_close_in_the_middle_of_a_batch_is_seen_after_the_batch_is_drained() {
    let batch = vec![WindowEvent::Other, WindowEvent::Close, WindowEvent::Other, WindowEvent::Other];
    assert!(close_requested(&batch));
    assert_eq!(polled(&batch, 12), LoopEvent::Polled { close_requested: true, elapsed_millis: 12 });
    assert_eq!(step(LoopState::Running, polled(&batch, 12)), (LoopState::Terminated, LoopAction::Stop));
}

#[test]
fn other_events_are_ignored() {
    assert!(!close_requested(&vec![]));
    assert!(!close_requested(&vec![WindowEvent::Other, WindowEvent::Other]));
    let batch = vec![WindowEvent::Other];
    assert_eq!(
        step(LoopState::Running, polled(&batch, 1500)),
        (LoopState::Running, LoopAction::Draw(FrameState { elapsed_millis: 1500 }))
    );
}

#[test]
fn a_rendered_frame_is_presented() {
    assert_eq!(
        step(LoopState::Running, LoopEvent::Rendered { succeeded: true }),
        (LoopState::Running, LoopAction::Present)
    );
    assert!(!LoopState::Running.is_terminated());
}

#[test]
fn a_failed_frame_ends_the_loop_without_a_swap() {
    assert_eq!(
        step(LoopState::Running, LoopEvent::Rendered { succeeded: false }),
        (LoopState::Terminated, LoopAction::Stop)
    );
}

#[test]
fn a_terminated_loop_stays_terminated() {
    let events = [
        LoopEvent::Polled { close_requested: false, elapsed_millis: 5 },
        LoopEvent::Polled { close_requested: true, elapsed_millis: 5 },
        LoopEvent::Rendered { succeeded: true },
        LoopEvent::Rendered { succeeded: false },
    ];
    for event in events {
        assert_eq!(step(LoopState::Terminated, event), (LoopState::Terminated, LoopAction::Stop));
    }
}

#[test]
fn a_session_runs_until_the_window_closes() {
    let mut state = LoopState::Running;
    let mut drawn = 0;
    let mut presented = 0;
    let batches = [vec![], vec![WindowEvent::Other], vec![WindowEvent::Other, WindowEvent::Close], vec![]];
    for (frame, batch) in batches.iter().enumerate() {
        let (next, action) = step(state, polled(batch, 16 * frame as u128));
        state = next;
        if let LoopAction::Draw(frame_state) = action {
            assert_eq!(frame_state.elapsed_millis, 16 * frame as u128);
            drawn += 1;
            let (next, action) = step(state, LoopEvent::Rendered { succeeded: true });
            state = next;
            if action == LoopAction::Present {
                presented += 1;
            }
        }
    }
    assert_eq!(state, LoopState::Terminated);
    assert_eq!(drawn, 2);
    assert_eq!(presented, 2);
}
