//! State machine of the cooperative event loop.
//!
//! The loop itself performs terminal work each tick — refresh, redraw, input
//! poll — through outside collaborators. The decisions live here: what a tick
//! of a given state must do, and how a polled input changes the state. The
//! driver performs the planned actions and feeds the resulting events back.

use vstd::prelude::*;

verus! {

/// State of the loop: it runs until a quit input moves it to `Exiting`.
#[derive(Clone, Copy, PartialEq, Eq, Structural, Debug)]
pub enum LoopState {
    Running,
    Exiting,
}

/// Classification of one bounded-wait input poll.
#[derive(Clone, Copy, PartialEq, Eq, Structural, Debug)]
pub enum InputEvent {
    /// A press of the quit key.
    Quit,
    /// A press of any other key; ignored.
    OtherKey,
    /// The poll timed out with no input.
    Idle,
}

/// What the driver of one tick must do, in order: refresh the cache if
/// `refresh` is set, then redraw if `draw` is set.
#[derive(Clone, Copy, PartialEq, Eq, Structural, Debug)]
pub struct TickPlan {
    pub refresh: bool,
    pub draw: bool,
}

/// The loop recognizes exactly one quit key and ignores all others.
pub fn is_quit_key(c: char) -> (r: bool)
    ensures
        r == (c == 'q'),
{
    c == 'q'
}

/// The event loop's state machine.
#[derive(Clone, Copy, PartialEq, Eq, Structural, Debug)]
pub struct EventLoop {
    pub state: LoopState,
}

impl EventLoop {
    /// The plan for one tick: an exiting loop schedules no refresh and no
    /// draw; a running loop always redraws and refreshes exactly when due.
    pub open spec fn spec_plan(self, refresh_due: bool) -> TickPlan {
        match self.state {
            LoopState::Running => TickPlan { refresh: refresh_due, draw: true },
            LoopState::Exiting => TickPlan { refresh: false, draw: false },
        }
    }

    /// The state after one polled input: the quit event moves the loop to
    /// `Exiting`; every other event leaves the state unchanged.
    pub open spec fn spec_after_input(self, ev: InputEvent) -> EventLoop {
        match ev {
            InputEvent::Quit => EventLoop { state: LoopState::Exiting },
            InputEvent::OtherKey => self,
            InputEvent::Idle => self,
        }
    }

    /// A fresh loop starts out running.
    pub fn new() -> (r: EventLoop)
        ensures
            r.state == LoopState::Running,
    {
        EventLoop { state: LoopState::Running }
    }

    /// Plans the actions of the current tick.
    pub fn plan_tick(&self, refresh_due: bool) -> (r: TickPlan)
        ensures
            r == self.spec_plan(refresh_due),
    {
        match self.state {
            LoopState::Running => TickPlan { refresh: refresh_due, draw: true },
            LoopState::Exiting => TickPlan { refresh: false, draw: false },
        }
    }

    /// Applies one polled input to the loop state.
    pub fn handle_input(&mut self, ev: InputEvent)
        ensures
            *final(self) == old(self).spec_after_input(ev),
    {
        match ev {
            InputEvent::Quit => {
                self.state = LoopState::Exiting;
            },
            InputEvent::OtherKey => {
            },
            InputEvent::Idle => {
            },
        }
    }

    /// Whether the driver should run another tick.
    pub fn is_running(&self) -> (r: bool)
        ensures
            r == (self.state == LoopState::Running),
    {
        match self.state {
            LoopState::Running => true,
            LoopState::Exiting => false,
        }
    }
}

/// Quitting stops the loop within one iteration: whatever the state was, the
/// quit input moves it to `Exiting`; an exiting loop plans no further refresh
/// and no further draw, whether or not a refresh was due; and no later input
/// ever leaves `Exiting` again.
pub proof fn lemma_quit_stops_loop(l: EventLoop, refresh_due: bool)
    ensures
        l.spec_after_input(InputEvent::Quit).state == LoopState::Exiting,
        l.spec_after_input(InputEvent::Quit).spec_plan(refresh_due) == (TickPlan {
            refresh: false,
            draw: false,
        }),
        forall|ev: InputEvent|
            l.spec_after_input(InputEvent::Quit).spec_after_input(ev).state == LoopState::Exiting,
{
}

/// Exit status reported to the operating system: zero exactly on a clean
/// quit, non-zero when a terminal or draw error ended the loop.
pub fn exit_code(clean: bool) -> (r: i32)
    ensures
        r == if clean {
            0int
        } else {
            1int
        },
{
    if clean {
        0
    } else {
        1
    }
}

} // verus!
