//! The render-loop driver: a two-state machine (idle, looping) that decides,
//! for each host tick and key event, which actions the host must perform.
//! The host performs the actions in order: it invokes the user draw
//! callback, blits the offscreen buffer onto the visible surface, asks the
//! scheduler for the next tick, and hands key callbacks the normalized key.

use vstd::prelude::*;
use crate::canvas::Surface;

verus! {

/// The driver's lifecycle: idle until `run` is invoked, looping afterwards.
/// There is no transition back: once started, the loop runs until the host
/// tears the process down.
#[derive(Clone, Copy, Debug, PartialEq, Eq, Structural)]
pub enum LoopState {
    Idle,
    Looping,
}

/// One thing the host must do on the driver's behalf, in the order given.
#[derive(Clone, Debug, PartialEq, Eq)]
pub enum Action {
    /// Subscribe the key-down handler to the host event source.
    RegisterKeyDownHandler,
    /// Subscribe the key-up handler to the host event source.
    RegisterKeyUpHandler,
    /// Invoke the user draw callback synchronously.
    InvokeDraw,
    /// Copy the offscreen buffer onto the visible display surface.
    BlitToDisplay,
    /// Ask the host scheduler to deliver the next animation tick.
    ScheduleNextTick,
    /// Invoke the user key-down callback with the normalized key.
    InvokeKeyDown(String),
    /// Invoke the user key-up callback with the normalized key.
    InvokeKeyUp(String),
}

/// The uppercase form of a key identifier, as the host's case folding
/// computes it from the characters alone.
pub uninterp spec fn upper_of(s: Seq<char>) -> Seq<char>;

/// Relies on str::to_uppercase: the result is a function of the characters
/// of the input alone.
#[verifier::external_body]
fn to_upper(s: &str) -> (r: String)
    ensures
        r@ == upper_of(s@),
{
    s.to_uppercase()
}

/// The render-loop driver. It owns the offscreen surface and its own
/// lifecycle state; it holds no drawing logic of its own.
pub struct Canvas {
    /// The offscreen frame buffer that draw callbacks mutate.
    pub surface: Surface,
    state: LoopState,
}

impl Canvas {
    /// The driver's lifecycle state.
    pub closed spec fn loop_state(&self) -> LoopState {
        self.state
    }

    /// The surface the driver owns, for contracts.
    pub closed spec fn spec_surface(&self) -> Surface {
        self.surface
    }

    /// Whether the loop has been started.
    pub fn is_looping(&self) -> (r: bool)
        ensures
            r <==> self.loop_state() is Looping,
    {
        self.state == LoopState::Looping
    }

    /// A driver that owns `surface` and has not started looping.
    pub fn new(surface: Surface) -> (c: Canvas)
        ensures
            c.loop_state() is Idle,
            c.spec_surface() == surface,
    {
        Canvas { surface, state: LoopState::Idle }
    }

    /// Starts the loop: the one transition from idle to looping. The host
    /// must first subscribe both key handlers, then request the first tick.
    pub fn run(&mut self) -> (actions: Vec<Action>)
        requires
            old(self).loop_state() is Idle,
        ensures
            final(self).loop_state() is Looping,
            final(self).spec_surface() == old(self).spec_surface(),
            actions@ == seq![
                Action::RegisterKeyDownHandler,
                Action::RegisterKeyUpHandler,
                Action::ScheduleNextTick,
            ],
    {
        self.state = LoopState::Looping;
        let mut actions: Vec<Action> = Vec::new();
        actions.push(Action::RegisterKeyDownHandler);
        actions.push(Action::RegisterKeyUpHandler);
        actions.push(Action::ScheduleNextTick);
        proof {
            assert(actions@ =~= seq![
                Action::RegisterKeyDownHandler,
                Action::RegisterKeyUpHandler,
                Action::ScheduleNextTick,
            ]);
        }
        actions
    }

    /// One animation tick: the draw callback runs first, then the blit,
    /// then the request for the next tick; the driver itself neither draws
    /// nor changes state.
    pub fn on_tick(&self) -> (actions: Vec<Action>)
        requires
            self.loop_state() is Looping,
        ensures
            actions@ == seq![Action::InvokeDraw, Action::BlitToDisplay, Action::ScheduleNextTick],
    {
        let mut actions: Vec<Action> = Vec::new();
        actions.push(Action::InvokeDraw);
        actions.push(Action::BlitToDisplay);
        actions.push(Action::ScheduleNextTick);
        proof {
            assert(actions@ =~= seq![
                Action::InvokeDraw,
                Action::BlitToDisplay,
                Action::ScheduleNextTick,
            ]);
        }
        actions
    }

    /// A key-down event with identifier `key`: the user key-down callback is
    /// invoked exactly once, with the uppercased identifier.
    pub fn on_key_down(&self, key: &str) -> (actions: Vec<Action>)
        requires
            self.loop_state() is Looping,
        ensures
            actions@.len() == 1,
            (actions@[0] matches Action::InvokeKeyDown(k) && k@ == upper_of(key@)),
    {
        let k = to_upper(key);
        let mut actions: Vec<Action> = Vec::new();
        actions.push(Action::InvokeKeyDown(k));
        actions
    }

    /// A key-up event with identifier `key`: the user key-up callback is
    /// invoked exactly once, with the uppercased identifier.
    pub fn on_key_up(&self, key: &str) -> (actions: Vec<Action>)
        requires
            self.loop_state() is Looping,
        ensures
            actions@.len() == 1,
            (actions@[0] matches Action::InvokeKeyUp(k) && k@ == upper_of(key@)),
    {
        let k = to_upper(key);
        let mut actions: Vec<Action> = Vec::new();
        actions.push(Action::InvokeKeyUp(k));
        actions
    }
}

} // verus!
