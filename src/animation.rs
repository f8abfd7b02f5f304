//! The two timed state machines that react to round outcomes: one alternates
//! the end-of-game message with the final dice, the other makes the display
//! blink while a game is over.
use crate::round::GameResult;
use vstd::prelude::*;

verus! {

/// How the display shows its picture: blinking (inverted every second) or solid.
#[derive(Clone, Copy, Debug, PartialEq, Eq, Structural)]
pub enum DisplayMode {
    Blink,
    Solid,
}

/// What the animation draws on a tick.
#[derive(Clone, Copy, Debug, PartialEq, Eq, Structural)]
pub enum Slide {
    /// The cached end-of-game message.
    Message,
    /// The cached frame of the final dice.
    PickedDice,
}

/// The milliseconds between two slides of the end-of-game animation.
pub const ANIMATION_TICK_MS: u64 = 2000;

/// The milliseconds between two inversions of a blinking display.
pub const BLINK_TICK_MS: u64 = 1000;

/// Alternates the end-of-game message with the final dice while a game is over.
pub struct AnimationCoordinator {
    /// The last round outcome received.
    pub state: GameResult,
    /// Whether the next tick draws the message.
    pub show_message: bool,
}

impl AnimationCoordinator {
    pub fn new() -> (r: AnimationCoordinator)
        ensures
            r.state == GameResult::Playing,
            r.show_message,
    {
        AnimationCoordinator { state: GameResult::Playing, show_message: true }
    }

    /// Takes in the outcome of a round and returns the display mode to
    /// publish: `Blink` when the game is over, `Solid` while it goes on. The
    /// next tick after an ended game shows the message first.
    pub fn on_result(&mut self, result: GameResult) -> (r: DisplayMode)
        ensures
            final(self).state == result,
            final(self).show_message,
            r == if result.ends_game() {
                DisplayMode::Blink
            } else {
                DisplayMode::Solid
            },
    {
        self.state = result;
        self.show_message = true;
        if result.is_final_state() {
            DisplayMode::Blink
        } else {
            DisplayMode::Solid
        }
    }

    /// On a tick of the animation timer: while a game is over, returns the
    /// slide to draw and switches to the other one; while a game goes on,
    /// does nothing.
    pub fn on_tick(&mut self) -> (r: Option<Slide>)
        ensures
            final(self).state == old(self).state,
            old(self).state.ends_game() ==> {
                &&& r == Some(
                    if old(self).show_message {
                        Slide::Message
                    } else {
                        Slide::PickedDice
                    },
                )
                &&& final(self).show_message == !old(self).show_message
            },
            !old(self).state.ends_game() ==> r is None && final(self).show_message
                == old(self).show_message,
    {
        if !self.state.is_final_state() {
            return None;
        }
        let slide = if self.show_message {
            Slide::Message
        } else {
            Slide::PickedDice
        };
        self.show_message = !self.show_message;
        Some(slide)
    }
}

/// Inverts the display every tick while it blinks.
pub struct DisplayModeController {
    pub mode: DisplayMode,
    /// Whether the display shows its picture inverted.
    pub inverted: bool,
}

impl DisplayModeController {
    pub fn new() -> (r: DisplayModeController)
        ensures
            r.mode == DisplayMode::Solid,
            !r.inverted,
    {
        DisplayModeController { mode: DisplayMode::Solid, inverted: false }
    }

    /// Switches to `mode` and returns the inversion to apply to the display:
    /// a blinking display starts inverted, a solid one is never inverted.
    pub fn on_mode(&mut self, mode: DisplayMode) -> (r: bool)
        ensures
            final(self).mode == mode,
            final(self).inverted == (mode == DisplayMode::Blink),
            r == final(self).inverted,
    {
        self.mode = mode;
        self.inverted = mode != DisplayMode::Solid;
        self.inverted
    }

    /// On a tick of the blink timer: a blinking display flips its inversion,
    /// which is returned to apply; a solid one does nothing.
    pub fn on_tick(&mut self) -> (r: Option<bool>)
        ensures
            final(self).mode == old(self).mode,
            old(self).mode == DisplayMode::Blink ==> {
                &&& final(self).inverted == !old(self).inverted
                &&& r == Some(final(self).inverted)
            },
            old(self).mode == DisplayMode::Solid ==> r is None && final(self).inverted
                == old(self).inverted,
    {
        if self.mode == DisplayMode::Blink {
            self.inverted = !self.inverted;
            Some(self.inverted)
        } else {
            None
        }
    }
}

} // verus!
