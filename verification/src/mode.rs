//! The game-mode state machine: a base mode, with a pause that can be pushed
//! on top of play and popped again.

use vstd::prelude::*;

verus! {

/// The mode that governs a frame.
#[derive(Clone, Copy, Debug, PartialEq, Eq, Structural)]
pub enum Mode {
    Playing,
    Dead,
    Paused,
}

/// The mode underneath a pause.
#[derive(Clone, Copy, Debug, PartialEq, Eq, Structural)]
pub enum BaseMode {
    Playing,
    Dead,
}

/// What can move the machine.
#[derive(Clone, Copy, Debug, PartialEq, Eq, Structural)]
pub enum Signal {
    PlayerLost,
    RespawnRequested,
    PauseRequested,
    ResumeRequested,
}

/// The mode stack: the base mode and whether a pause lies on top of it.
#[derive(Clone, Copy, Debug, PartialEq, Eq, Structural)]
pub struct ModeStack {
    pub base: BaseMode,
    pub paused: bool,
}

impl ModeStack {
    /// The mode on top of the stack.
    pub open spec fn top(self) -> Mode {
        if self.paused {
            Mode::Paused
        } else {
            match self.base {
                BaseMode::Playing => Mode::Playing,
                BaseMode::Dead => Mode::Dead,
            }
        }
    }

    /// A pause only ever lies on top of play.
    pub open spec fn well_formed(self) -> bool {
        self.paused ==> self.base == BaseMode::Playing
    }

    /// The stack after a signal. A signal that the top mode does not accept
    /// leaves the stack as it is.
    pub open spec fn after(self, signal: Signal) -> ModeStack {
        match signal {
            Signal::PlayerLost => if self.top() == Mode::Playing {
                ModeStack { base: BaseMode::Dead, paused: false }
            } else {
                self
            },
            Signal::RespawnRequested => if self.top() == Mode::Dead {
                ModeStack { base: BaseMode::Playing, paused: false }
            } else {
                self
            },
            Signal::PauseRequested => if self.top() == Mode::Playing {
                ModeStack { base: self.base, paused: true }
            } else {
                self
            },
            Signal::ResumeRequested => if self.top() == Mode::Paused {
                ModeStack { base: self.base, paused: false }
            } else {
                self
            },
        }
    }

    /// The initial stack as a value: play, not paused.
    pub open spec fn new_spec() -> ModeStack {
        ModeStack { base: BaseMode::Playing, paused: false }
    }

    /// The initial stack: play, not paused.
    #[verifier::when_used_as_spec(new_spec)]
    pub fn new() -> (stack: ModeStack)
        ensures
            stack == ModeStack::new_spec(),
            stack.top() == Mode::Playing,
            stack.well_formed(),
    {
        ModeStack { base: BaseMode::Playing, paused: false }
    }

    /// The mode on top of the stack.
    pub fn current(&self) -> (mode: Mode)
        ensures
            mode == self.top(),
    {
        if self.paused {
            Mode::Paused
        } else {
            match self.base {
                BaseMode::Playing => Mode::Playing,
                BaseMode::Dead => Mode::Dead,
            }
        }
    }

    /// Whether the simulation systems run this frame.
    pub fn is_playing(&self) -> (playing: bool)
        ensures
            playing == (self.top() == Mode::Playing),
    {
        !self.paused && self.base == BaseMode::Playing
    }

    /// Moves the machine by one signal.
    pub fn apply(&mut self, signal: Signal)
        ensures
            *final(self) == old(self).after(signal),
            old(self).well_formed() ==> final(self).well_formed(),
    {
        let top = self.current();
        match signal {
            Signal::PlayerLost => {
                if top == Mode::Playing {
                    self.base = BaseMode::Dead;
                }
            },
            Signal::RespawnRequested => {
                if top == Mode::Dead {
                    self.base = BaseMode::Playing;
                }
            },
            Signal::PauseRequested => {
                if top == Mode::Playing {
                    self.paused = true;
                }
            },
            Signal::ResumeRequested => {
                if top == Mode::Paused {
                    self.paused = false;
                }
            },
        }
    }
}

/// Every transition keeps a pause on top of play only.
pub proof fn lemma_transitions_keep_well_formed(stack: ModeStack, signal: Signal)
    requires
        stack.well_formed(),
    ensures
        stack.after(signal).well_formed(),
{
}

/// A pause pushed on play and popped again restores the stack it was pushed
/// on, and between the two the top mode is `Paused`.
pub proof fn lemma_pause_then_resume(stack: ModeStack)
    requires
        stack.top() == Mode::Playing,
    ensures
        stack.after(Signal::PauseRequested).top() == Mode::Paused,
        stack.after(Signal::PauseRequested).base == stack.base,
        stack.after(Signal::PauseRequested).after(Signal::ResumeRequested) == stack,
{
}

/// A pause is never entered from death, and death is entered from play only.
pub proof fn lemma_entries(stack: ModeStack, signal: Signal)
    requires
        stack.well_formed(),
    ensures
        stack.top() == Mode::Dead ==> stack.after(signal).top() != Mode::Paused,
        stack.top() != Mode::Playing && stack.after(signal).top() == Mode::Dead ==> stack.top()
            == Mode::Dead,
{
}

} // verus!
