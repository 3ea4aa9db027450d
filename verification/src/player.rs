//! The player character's animation state: which animation is showing and
//! how many animation steps it has run. Attack animations are finite and
//! fall back to running; the running animation loops for as long as needed.

use vstd::prelude::*;

verus! {

/// The animations the player character can show.
#[derive(Clone, Copy, Debug, PartialEq, Eq, Structural)]
pub enum Animation {
    Running,
    AttackLow,
    AttackHigh,
}

/// Steps of the low attack animation.
pub const ATTACK_LOW_LENGTH: usize = 5;

/// Steps of the high attack animation.
pub const ATTACK_HIGH_LENGTH: usize = 4;

/// The current animation and its step counter.
#[derive(Clone, Copy, Debug, PartialEq, Eq, Structural)]
pub struct AnimationState {
    pub current: Animation,
    pub frame: usize,
}

/// The animation state one step later: the counter grows (wrapping at the
/// machine's limit), and a finished attack falls back to running.
pub open spec fn spec_animation_step(s: AnimationState) -> AnimationState {
    let frame = if s.frame == usize::MAX {
        0usize
    } else {
        (s.frame + 1) as usize
    };
    match s.current {
        Animation::AttackLow => if frame == ATTACK_LOW_LENGTH {
            AnimationState { current: Animation::Running, frame: 0 }
        } else {
            AnimationState { current: s.current, frame }
        },
        Animation::AttackHigh => if frame == ATTACK_HIGH_LENGTH {
            AnimationState { current: Animation::Running, frame: 0 }
        } else {
            AnimationState { current: s.current, frame }
        },
        Animation::Running => AnimationState { current: s.current, frame },
    }
}

impl Default for AnimationState {
    fn default() -> (r: Self)
        ensures
            r.current == Animation::Running,
            r.frame == 0,
    {
        Self { current: Animation::Running, frame: 0 }
    }
}

impl AnimationState {
    pub fn animation(&self) -> (r: &Animation)
        ensures
            *r == self.current,
    {
        &self.current
    }

    pub fn frame(&self) -> (r: usize)
        ensures
            r == self.frame,
    {
        self.frame
    }

    /// Switch to an animation, starting it from its first step.
    pub fn change_to(&mut self, anim: Animation)
        ensures
            final(self).current == anim,
            final(self).frame == 0,
    {
        self.current = anim;
        self.frame = 0;
    }

    /// Advance the animation by one step.
    pub fn update(&mut self)
        ensures
            *final(self) == spec_animation_step(*old(self)),
    {
        self.frame = if self.frame == usize::MAX {
            0
        } else {
            self.frame + 1
        };
        match self.current {
            Animation::AttackLow => {
                if self.frame == ATTACK_LOW_LENGTH {
                    self.change_to(Animation::Running);
                }
            },
            Animation::AttackHigh => {
                if self.frame == ATTACK_HIGH_LENGTH {
                    self.change_to(Animation::Running);
                }
            },
            Animation::Running => {},
        }
    }
}

} // verus!
