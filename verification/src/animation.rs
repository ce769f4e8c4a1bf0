//! The animation as a machine of two states that never halts.
//!
//! While rendering, the frame at the current rotation is computed; while
//! presenting, it is written out, the display pauses, and the cursor goes back
//! to the top of the frame. Each presented frame turns the sphere by one step
//! of pi/90, so `STEPS_PER_TURN` frames are one full turn. The rotation is
//! counted in those steps; it only grows.

use vstd::prelude::*;

verus! {

/// Steps of rotation in one full turn.
pub const STEPS_PER_TURN: u64 = 180;

/// Milliseconds between two frames: a sixtieth of a second, rounded down.
pub const PAUSE_MILLIS: u64 = 16;

/// The two states of the animation.
#[derive(Clone, Copy, Debug, PartialEq, Eq, Structural)]
pub enum Phase {
    /// A frame is being computed.
    Rendering,
    /// The computed frame is being shown.
    Presenting,
}

/// What the driver of the animation does next.
#[derive(Clone, Copy, Debug, PartialEq, Eq, Structural)]
pub enum Action {
    /// Compute the frame of the sphere turned by this many steps.
    Render { rotation_steps: u64 },
    /// Write the frame, wait this long, and put the cursor back on the
    /// frame's first row.
    Present { pause_millis: u64 },
}

/// The state of the animation as a value of its own.
pub struct AnimationState {
    pub phase: Phase,
    /// Steps by which the sphere is turned.
    pub rotation: nat,
}

/// The state in which the animation starts.
pub open spec fn initial_state() -> AnimationState {
    AnimationState { phase: Phase::Rendering, rotation: 0 }
}

/// What is done in a state.
pub open spec fn action_in(state: AnimationState) -> Action {
    match state.phase {
        Phase::Rendering => Action::Render { rotation_steps: state.rotation as u64 },
        Phase::Presenting => Action::Present { pause_millis: PAUSE_MILLIS },
    }
}

/// The state that follows `state`: a rendered frame is presented next, and
/// after a presented frame the next one is rendered, one step further round.
pub open spec fn next_state(state: AnimationState) -> AnimationState {
    match state.phase {
        Phase::Rendering => AnimationState { phase: Phase::Presenting, rotation: state.rotation },
        Phase::Presenting => AnimationState {
            phase: Phase::Rendering,
            rotation: state.rotation + 1,
        },
    }
}

/// The state after `steps` transitions from the start.
pub open spec fn state_after(steps: nat) -> AnimationState
    decreases steps,
{
    if steps == 0 {
        initial_state()
    } else {
        next_state(state_after((steps - 1) as nat))
    }
}

/// The animation: its state, held by the loop that drives it.
#[derive(Debug)]
pub struct Animation {
    phase: Phase,
    rotation: u64,
}

impl View for Animation {
    type V = AnimationState;

    closed spec fn view(&self) -> AnimationState {
        AnimationState { phase: self.phase, rotation: self.rotation as nat }
    }
}

impl Animation {
    /// An animation at its start: about to render the unturned sphere.
    pub fn new() -> (animation: Animation)
        ensures
            animation@ == initial_state(),
    {
        Animation { phase: Phase::Rendering, rotation: 0 }
    }

    /// The current state.
    pub fn phase(&self) -> (phase: Phase)
        ensures
            phase == self@.phase,
    {
        self.phase
    }

    /// Steps by which the sphere is turned.
    pub fn rotation_steps(&self) -> (steps: u64)
        ensures
            steps == self@.rotation,
    {
        self.rotation
    }

    /// Gives the action of the current state and moves on to the next state.
    /// Where that turns the sphere, the count of steps must have room for one
    /// more.
    pub fn step(&mut self) -> (action: Action)
        requires
            old(self)@.phase is Presenting ==> old(self)@.rotation < u64::MAX,
        ensures
            action == action_in(old(self)@),
            final(self)@ == next_state(old(self)@),
    {
        match self.phase {
            Phase::Rendering => {
                self.phase = Phase::Presenting;
                Action::Render { rotation_steps: self.rotation }
            },
            Phase::Presenting => {
                self.phase = Phase::Rendering;
                self.rotation = self.rotation + 1;
                Action::Present { pause_millis: PAUSE_MILLIS }
            },
        }
    }
}

/// From one frame to the next the rotation grows by exactly one step, and no
/// transition takes any of it back.
pub proof fn lemma_rotation_grows(state: AnimationState)
    ensures
        next_state(state).rotation >= state.rotation,
        next_state(next_state(state)).phase == state.phase,
        next_state(next_state(state)).rotation == state.rotation + 1,
{
}

/// After `frames` frames were rendered and presented, the sphere is turned by
/// `frames` steps, and the machine renders or presents the next one.
pub proof fn lemma_rotation_after(frames: nat)
    ensures
        state_after(2 * frames) == (AnimationState { phase: Phase::Rendering, rotation: frames }),
        state_after(2 * frames + 1) == (AnimationState {
            phase: Phase::Presenting,
            rotation: frames,
        }),
    decreases frames,
{
    if frames > 0 {
        lemma_rotation_after((frames - 1) as nat);
        assert(state_after(2 * frames) == next_state(state_after((2 * frames - 1) as nat)));
    }
    assert(state_after(2 * frames + 1) == next_state(state_after(2 * frames)));
}

/// The rotation is never reset: a later state is turned at least as far as an
/// earlier one.
pub proof fn lemma_rotation_never_reset(earlier: nat, later: nat)
    requires
        earlier <= later,
    ensures
        state_after(earlier).rotation <= state_after(later).rotation,
    decreases later - earlier,
{
    if earlier < later {
        lemma_rotation_never_reset(earlier, (later - 1) as nat);
    }
}

} // verus!
