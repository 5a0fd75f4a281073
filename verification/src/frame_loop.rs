//! What the main loop decides.
//!
//! The window system delivers events; the loop answers each with one
//! action. Doing the action (resizing the surface, drawing a frame, asking
//! for the next redraw) is the platform's part. Deciding is done here: which
//! events count, when to leave, when to draw, and how frames are counted.

use vstd::prelude::*;

verus! {

/// Why a frame could not be drawn.
#[derive(Clone, Copy, Debug, PartialEq, Eq, Structural)]
pub enum RenderError {
    /// The surface was lost.
    Lost,
    /// The system is out of memory.
    OutOfMemory,
    /// The surface no longer fits the window.
    Outdated,
    /// The surface was not ready in time.
    Timeout,
}

/// What happened to a window.
#[derive(Clone, Copy, Debug, PartialEq, Eq, Structural)]
pub enum WindowChange {
    /// The user asked to close the window.
    CloseRequested,
    /// The escape key went down.
    EscapePressed,
    /// The window has a new size.
    Resized { width: u32, height: u32 },
    /// The scale factor changed, and with it the size.
    ScaleFactorChanged { width: u32, height: u32 },
    /// Anything else.
    Other,
}

/// What the window system or the renderer reports.
#[derive(Clone, Copy, Debug, PartialEq, Eq)]
pub enum LoopEvent {
    /// Something happened to a window. `own_window` says whether it is the
    /// window of the map, `taken_as_input` whether the input controller
    /// used the event up.
    Window { own_window: bool, taken_as_input: bool, change: WindowChange },
    /// The window wants to be drawn.
    RedrawRequested,
    /// A frame was drawn, or it was not.
    Redrawn(Result<(), RenderError>),
    /// The application was suspended.
    Suspended,
    /// The application was resumed, with a window of this size.
    Resumed { width: u32, height: u32 },
    /// All events of this round were delivered.
    MainEventsCleared,
    /// Anything else.
    Other,
}

/// What the platform is to do.
#[derive(Clone, Copy, Debug, PartialEq, Eq, Structural)]
pub enum LoopAction {
    /// Nothing.
    Continue,
    /// Leave the loop.
    Exit,
    /// Give the surface this size.
    Resize { width: u32, height: u32 },
    /// Update the state and draw a frame, then report how it went.
    Redraw,
    /// Release what a suspended application may not hold.
    Suspend,
    /// Make a new surface of this size and go on.
    Resume { width: u32, height: u32 },
    /// Ask the window for a redraw.
    RequestRedraw,
}

/// The state of the main loop: the frames counted so far and the number of
/// frames after which the loop ends, if it is limited.
#[derive(Clone, Copy, Debug, PartialEq, Eq, Structural)]
pub struct FrameLoop {
    pub current_frame: u64,
    pub max_frames: Option<u64>,
}

/// The frame count after one more frame. It stops at the largest number.
pub open spec fn counted(current_frame: u64) -> u64 {
    if current_frame == u64::MAX {
        current_frame
    } else {
        (current_frame + 1) as u64
    }
}

/// Whether `frames` frames are all that a loop limited to `max_frames` may
/// draw.
pub open spec fn limit_reached(frames: u64, max_frames: Option<u64>) -> bool {
    match max_frames {
        Some(limit) => frames >= limit,
        None => false,
    }
}

/// The action that answers a change of the map's own window that was not
/// taken as input.
pub open spec fn window_answer(change: WindowChange) -> LoopAction {
    match change {
        WindowChange::CloseRequested | WindowChange::EscapePressed => LoopAction::Exit,
        WindowChange::Resized { width, height }
        | WindowChange::ScaleFactorChanged { width, height } => LoopAction::Resize {
            width,
            height,
        },
        WindowChange::Other => LoopAction::Continue,
    }
}

/// The loop after `event`, and the action that answers it.
pub open spec fn answered(state: FrameLoop, event: LoopEvent) -> (FrameLoop, LoopAction) {
    match event {
        LoopEvent::Window { own_window, taken_as_input, change } => if own_window
            && !taken_as_input {
            (state, window_answer(change))
        } else {
            (state, LoopAction::Continue)
        },
        LoopEvent::RedrawRequested => (state, LoopAction::Redraw),
        LoopEvent::Redrawn(outcome) => {
            let frames = counted(state.current_frame);
            let next = FrameLoop { current_frame: frames, max_frames: state.max_frames };
            if outcome == Err::<(), RenderError>(RenderError::OutOfMemory) || limit_reached(
                frames,
                state.max_frames,
            ) {
                (next, LoopAction::Exit)
            } else {
                (next, LoopAction::Continue)
            }
        },
        LoopEvent::Suspended => (state, LoopAction::Suspend),
        LoopEvent::Resumed { width, height } => (state, LoopAction::Resume { width, height }),
        LoopEvent::MainEventsCleared => (state, LoopAction::RequestRedraw),
        LoopEvent::Other => (state, LoopAction::Continue),
    }
}

impl FrameLoop {
    /// A loop that has drawn no frame yet. With `max_frames` it ends after
    /// that many frames.
    pub fn new(max_frames: Option<u64>) -> (state: Self)
        ensures
            state == (FrameLoop { current_frame: 0, max_frames }),
    {
        FrameLoop { current_frame: 0, max_frames }
    }

    /// Whether the loop has counted as many frames as it may draw.
    pub fn frame_limit_reached(&self) -> (reached: bool)
        ensures
            reached == limit_reached(self.current_frame, self.max_frames),
    {
        match self.max_frames {
            Some(limit) => self.current_frame >= limit,
            None => false,
        }
    }

    /// Takes in `event` and says what to do.
    ///
    /// What happens to another window, and what the input controller used
    /// up, is passed over. A frame is counted when it was drawn or failed
    /// to draw. The loop ends when the user closes the window or presses
    /// escape, when memory ran out, and when the frame limit is reached. A
    /// lost, outdated or late surface ends nothing: the next frame puts it
    /// right.
    pub fn on_event(&mut self, event: LoopEvent) -> (action: LoopAction)
        ensures
            (*final(self), action) == answered(*old(self), event),
    {
        match event {
            LoopEvent::Window { own_window, taken_as_input, change } => {
                if own_window && !taken_as_input {
                    match change {
                        WindowChange::CloseRequested => LoopAction::Exit,
                        WindowChange::EscapePressed => LoopAction::Exit,
                        WindowChange::Resized { width, height } => LoopAction::Resize {
                            width,
                            height,
                        },
                        WindowChange::ScaleFactorChanged { width, height } => LoopAction::Resize {
                            width,
                            height,
                        },
                        WindowChange::Other => LoopAction::Continue,
                    }
                } else {
                    LoopAction::Continue
                }
            },
            LoopEvent::RedrawRequested => LoopAction::Redraw,
            LoopEvent::Redrawn(outcome) => {
                if self.current_frame < u64::MAX {
                    self.current_frame = self.current_frame + 1;
                }
                let out_of_memory = match outcome {
                    Err(RenderError::OutOfMemory) => true,
                    _ => false,
                };
                if out_of_memory || self.frame_limit_reached() {
                    LoopAction::Exit
                } else {
                    LoopAction::Continue
                }
            },
            LoopEvent::Suspended => LoopAction::Suspend,
            LoopEvent::Resumed { width, height } => LoopAction::Resume { width, height },
            LoopEvent::MainEventsCleared => LoopAction::RequestRedraw,
            LoopEvent::Other => LoopAction::Continue,
        }
    }
}

/// The loop after `frames` more frames were drawn without fault.
pub open spec fn after_frames(state: FrameLoop, frames: nat) -> FrameLoop
    decreases frames,
{
    if frames == 0 {
        state
    } else {
        answered(after_frames(state, (frames - 1) as nat), LoopEvent::Redrawn(Ok(()))).0
    }
}

/// A loop limited to `limit` frames draws no more than that: counting from
/// a fresh loop, the frame that reaches the limit is answered with the
/// order to leave, and no earlier frame that was drawn without fault is.
pub proof fn lemma_frame_limit_ends_loop(limit: u64, frames: nat)
    requires
        limit >= 1,
        frames < limit,
    ensures
        after_frames(FrameLoop { current_frame: 0, max_frames: Some(limit) }, frames)
            == (FrameLoop { current_frame: frames as u64, max_frames: Some(limit) }),
        answered(
            after_frames(FrameLoop { current_frame: 0, max_frames: Some(limit) }, frames),
            LoopEvent::Redrawn(Ok(())),
        ).1 == if frames + 1 == limit {
            LoopAction::Exit
        } else {
            LoopAction::Continue
        },
    decreases frames,
{
    if frames > 0 {
        lemma_frame_limit_ends_loop(limit, (frames - 1) as nat);
    }
}

} // verus!
