use vstd::prelude::*;

use crate::geometry::{CursorPos, ScreenRect};

verus! {

/// What a dispatch call asks of the scene stack.
pub enum SceneOutcome<S> {
    /// Put a new scene on top; the current one stays below, suspended.
    Push(Box<S>),
    /// Remove the current scene and hand the signal to the one below it.
    Pop(SceneSignal),
    /// Leave the stack as it is.
    Stay,
}

/// A result that a scene hands to its parent as it leaves the stack.
#[derive(Clone, Debug)]
pub enum SceneSignal {
    /// Plain acknowledgement.
    JustPop,
    /// The level that was chosen, by its resource name.
    LevelChoice(String),
    /// A colour index.
    Colour(usize),
    /// An integer amount.
    Amount(i32),
    /// A pair of integer dimensions.
    Dimensions(i32, i32),
}

/// One interactive mode of the program. A scene owns its state, knows nothing
/// of the stack it stands on, and talks to its parent through outcomes only.
pub trait Scene: Sized {
    /// The raw input event the host delivers.
    type Event;
    /// Untextured geometry for one frame.
    type Batch;
    /// Textured geometry for one frame.
    type UvBatch;

    /// This scene, given `event` with the rectangle and cursor, may become
    /// `after` and return `so`.
    spec fn takes_event(
        &self,
        event: Self::Event,
        screen_rect: ScreenRect,
        cursor_pos: CursorPos,
        after: Self,
        so: SceneOutcome<Self>,
    ) -> bool;

    /// This scene, given `signal`, may become `after` and return `so`.
    spec fn takes_signal(&self, signal: SceneSignal, after: Self, so: SceneOutcome<Self>) -> bool;

    /// Consumes one input event, given the screen rectangle and the cursor.
    fn handle_event(&mut self, event: &Self::Event, screen_rect: ScreenRect, cursor_pos: CursorPos) -> (r: SceneOutcome<Self>)
        ensures
            old(self).takes_event(*event, screen_rect, cursor_pos, *final(self), r),
    ;

    /// Receives the signal of a child that was just popped off above it.
    fn handle_signal(&mut self, signal: SceneSignal) -> (r: SceneOutcome<Self>)
        ensures
            old(self).takes_signal(signal, *final(self), r),
    ;

    /// The geometry this scene draws in its present state.
    spec fn frame(&self, screen_rect: ScreenRect) -> (Option<Self::Batch>, Option<Self::UvBatch>);

    /// Produces the geometry of one frame, without changing the scene: a
    /// function of the scene's state and the rectangle alone.
    fn draw(&self, screen_rect: ScreenRect) -> (r: (Option<Self::Batch>, Option<Self::UvBatch>))
        ensures
            r == self.frame(screen_rect),
    ;
}

} // verus!
