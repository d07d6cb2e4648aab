//! The wormhole scene's own state: whether the player has asked to leave, and the clock that
//! turns frame time into simulation ticks. The world that the ticks advance is the caller's.

use crate::components::DeltaTime;
use crate::gamestates::StateTransition;
use crate::inputstate::{default_bindings, pressed_after, InputState, SCANCODE_ESCAPE};
use crate::timestep::FixedStep;
use vstd::prelude::*;

verus! {

/// The state of the wormhole scene that is not held in the world.
pub struct WormholeState {
    quit: bool,
    clock: FixedStep,
}

impl WormholeState {
    /// Whether the escape key has been pressed since the scene began.
    pub closed spec fn quit(&self) -> bool {
        self.quit
    }

    /// The scene's simulation clock.
    pub closed spec fn clock(&self) -> FixedStep {
        self.clock
    }

    /// A scene that nobody has asked to leave, with no frame time accumulated, whose world is
    /// simulated in steps of `step`.
    pub fn new(step: DeltaTime) -> (s: Self)
        requires
            step.0 > 0,
        ensures
            !s.quit(),
            s.clock().step() == step.0,
            s.clock().remaining() == 0,
    {
        WormholeState { quit: false, clock: FixedStep::new(step) }
    }

    /// The simulation step.
    pub fn delta_time(&self) -> (dt: DeltaTime)
        ensures
            dt.0 == self.clock().step(),
            dt.0 > 0,
    {
        self.clock.delta_time()
    }

    /// The scene leaves the stack once the escape key has been pressed, and stays until then.
    pub fn transition<S>(&self) -> (t: StateTransition<S>)
        ensures
            t == if self.quit() {
                StateTransition::<S>::Pop
            } else {
                StateTransition::<S>::Stay
            },
    {
        if self.quit {
            StateTransition::Pop
        } else {
            StateTransition::Stay
        }
    }

    /// Takes in the `delta` nanoseconds that the last frame took and returns how many ticks
    /// the world is to be advanced by: the whole steps in the frame time accumulated.
    pub fn update(&mut self, delta: u64) -> (ticks: u64)
        ensures
            final(self).quit() == old(self).quit(),
            final(self).clock().step() == old(self).clock().step(),
            ticks == (old(self).clock().remaining() + delta) / (old(self).clock().step() as int),
            final(self).clock().remaining() == (old(self).clock().remaining() + delta) % (old(
                self,
            ).clock().step() as int),
    {
        self.clock.advance(delta)
    }

    /// A key went down: the escape key asks to leave the scene, and a key that is bound to a
    /// logical input holds that input. The event is not passed on to the state beneath.
    pub fn key_down_event(&mut self, input: &mut InputState, scancode: i32) -> (pass_on: bool)
        ensures
            !pass_on,
            final(self).quit() == (old(self).quit() || scancode == SCANCODE_ESCAPE),
            final(self).clock() == old(self).clock(),
            final(input).bindings() == default_bindings(),
            final(input).pressed() == pressed_after(
                old(input).pressed(),
                default_bindings(),
                scancode,
                true,
            ),
    {
        if scancode == SCANCODE_ESCAPE {
            self.quit = true;
        }
        input.set(scancode);
        false
    }

    /// A key came up: the logical input that it is bound to is released. The event is not
    /// passed on to the state beneath.
    pub fn key_up_event(&self, input: &mut InputState, scancode: i32) -> (pass_on: bool)
        ensures
            !pass_on,
            final(input).bindings() == default_bindings(),
            final(input).pressed() == pressed_after(
                old(input).pressed(),
                default_bindings(),
                scancode,
                false,
            ),
    {
        input.unset(scancode);
        false
    }
}

} // verus!
