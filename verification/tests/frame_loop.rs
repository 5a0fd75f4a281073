use maplibre::frame_loop::{FrameLoop, LoopAction, LoopEvent, RenderError, WindowChange};

fn own(change: WindowChange) -> LoopEvent {
    LoopEvent::Window { own_window: true, taken_as_input: false, change }
}

#[test]
fn close_and_escape_leave_the_loop() {
    let mut state = FrameLoop::new(None);
    assert_eq!(state.on_event(own(WindowChange::CloseRequested)), LoopAction::Exit);
    assert_eq!(state.on_event(own(WindowChange::EscapePressed)), LoopAction::Exit);
    assert_eq!(state, FrameLoop { current_frame: 0, max_frames: None });
}

#[test]
fn window_events_are_answered() {
    let mut state = FrameLoop::new(Some(10));
    assert_eq!(
        state.on_event(own(WindowChange::Resized { width: 800, height: 600 })),
        LoopAction::Resize { width: 800, height: 600 }
    );
    assert_eq!(
        state.on_event(own(WindowChange::ScaleFactorChanged { width: 1600, height: 1200 })),
        LoopAction::Resize { width: 1600, height: 1200 }
    );
    assert_eq!(state.on_event(own(WindowChange::Other)), LoopAction::Continue);
    assert_eq!(state.on_event(LoopEvent::RedrawRequested), LoopAction::Redraw);
    assert_eq!(state.on_event(LoopEvent::Suspended), LoopAction::Suspend);
    assert_eq!(
        state.on_event(LoopEvent::Resumed { width: 640, height: 480 }),
        LoopAction::Resume { width: 640, height: 480 }
    );
    assert_eq!(state.on_event(LoopEvent::MainEventsCleared), LoopAction::RequestRedraw);
    assert_eq!(state.on_event(LoopEvent::Other), LoopAction::Continue);
    assert_eq!(state, FrameLoop { current_frame: 0, max_frames: Some(10) });
}

#[test]
fn events_of_other_windows_are_passed_over() {
    let mut state = FrameLoop::new(None);
    for change in [
        WindowChange::CloseRequested,
        WindowChange::EscapePressed,
        WindowChange::Resized { width: 1, height: 2 },
        WindowChange::ScaleFactorChanged { width: 3, height: 4 },
        WindowChange::Other,
    ] {
        for taken_as_input in [false, true] {
            let event = LoopEvent::Window { own_window: false, taken_as_input, change };
            assert_eq!(state.on_event(event), LoopAction::Continue);
        }
    }
}

#[test]
fn events_taken_as_input_are_passed_over() {
    let mut state = FrameLoop::new(None);
    for change in [
        WindowChange::CloseRequested,
        WindowChange::EscapePressed,
        WindowChange::Resized { width: 1, height: 2 },
        WindowChange::ScaleFactorChanged { width: 3, height: 4 },
        WindowChange::Other,
    ] {
        let event = LoopEvent::Window { own_window: true, taken_as_input: true, change };
        assert_eq!(state.on_event(event), LoopAction::Continue);
    }
}

#[test]
fn frame_limit_is_reached_when_enough_frames_are_counted() {
    let mut state = FrameLoop::new(Some(2));
    assert!(!state.frame_limit_reached());
    state.on_event(LoopEvent::Redrawn(Ok(())));
    assert!(!state.frame_limit_reached());
    state.on_event(LoopEvent::Redrawn(Err(RenderError::OutOfMemory)));
    assert!(state.frame_limit_reached());
    assert!(!FrameLoop::new(None).frame_limit_reached());
    assert!(FrameLoop::new(Some(0)).frame_limit_reached());
}

#[test]
fn frames_are_counted_up_to_the_limit() {
    let mut state = FrameLoop::new(Some(3));
    assert_eq!(state.on_event(LoopEvent::Redrawn(Ok(()))), LoopAction::Continue);
    assert_eq!(state.current_frame, 1);
    assert_eq!(state.on_event(LoopEvent::Redrawn(Err(RenderError::Timeout))), LoopAction::Continue);
    assert_eq!(state.current_frame, 2);
    assert_eq!(state.on_event(LoopEvent::Redrawn(Ok(()))), LoopAction::Exit);
    assert_eq!(state.current_frame, 3);
    assert_eq!(state.on_event(LoopEvent::Redrawn(Ok(()))), LoopAction::Exit);
    assert_eq!(state.current_frame, 4);
}

#[test]
fn loop_without_limit_goes_on() {
    let mut state = FrameLoop::new(None);
    for frame in 1..=1000u64 {
        assert_eq!(state.on_event(LoopEvent::Redrawn(Ok(()))), LoopAction::Continue);
        assert_eq!(state.current_frame, frame);
    }
}

#[test]
fn limit_of_zero_ends_at_the_first_frame() {
    let mut state = FrameLoop::new(Some(0));
    assert_eq!(state.on_event(LoopEvent::Redrawn(Ok(()))), LoopAction::Exit);
}

#[test]
fn only_lack_of_memory_ends_the_loop() {
    let mut state = FrameLoop::new(None);
    assert_eq!(state.on_event(LoopEvent::Redrawn(Err(RenderError::Lost))), LoopAction::Continue);
    assert_eq!(state.on_event(LoopEvent::Redrawn(Err(RenderError::Outdated))), LoopAction::Continue);
    assert_eq!(state.on_event(LoopEvent::Redrawn(Err(RenderError::Timeout))), LoopAction::Continue);
    assert_eq!(state.on_event(LoopEvent::Redrawn(Err(RenderError::OutOfMemory))), LoopAction::Exit);
    assert_eq!(state.current_frame, 4);
}

#[test]
fn frame_count_stops_at_the_largest_number() {
    let mut state = FrameLoop { current_frame: u64::MAX - 1, max_frames: None };
    assert_eq!(state.on_event(LoopEvent::Redrawn(Ok(()))), LoopAction::Continue);
    assert_eq!(state.current_frame, u64::MAX);
    assert_eq!(state.on_event(LoopEvent::Redrawn(Ok(()))), LoopAction::Continue);
    assert_eq!(state.current_frame, u64::MAX);
}
