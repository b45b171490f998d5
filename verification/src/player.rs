//! The player character and its kinematics.

use vstd::prelude::*;
use crate::geom::{Vec2, iabs};
use crate::model::{
    PlayerM, spec_run, spec_jump, FLOOR_HEIGHT, GRAVITY_DECAY, JUMP_LAUNCH, JUMP_STEP, JV_LIMIT,
    POS_LIMIT, RUN_SPEED,
};

verus! {

/// The player: a position, whether a jump is in progress, and the stored
/// vertical jump velocity.
#[derive(Clone, Copy, PartialEq, Eq, Structural, Debug)]
pub struct Player {
    pub pos: Vec2,
    pub is_jumping: bool,
    pub jump_velocity: i64,
}

impl View for Player {
    type V = PlayerM;

    open spec fn view(&self) -> PlayerM {
        PlayerM {
            px: self.pos.x as int,
            py: self.pos.y as int,
            jumping: self.is_jumping,
            jv: self.jump_velocity as int,
        }
    }
}

/// Player state the executable tick accepts: position and stored velocity
/// within the exact-arithmetic bounds.
pub open spec fn player_in_range(p: PlayerM) -> bool {
    &&& iabs(p.px) <= POS_LIMIT as int
    &&& iabs(p.py) <= POS_LIMIT as int
    &&& iabs(p.jv) <= JV_LIMIT as int
}

impl Player {
    /// Horizontal run control: the position advances by the axis value times
    /// the run speed.
    pub fn run(&mut self, axis: i64)
        requires
            -1 <= axis <= 1,
            iabs(old(self)@.px) <= POS_LIMIT as int,
        ensures
            final(self)@ == spec_run(old(self)@, axis as int),
    {
        self.pos.x = self.pos.x + axis * RUN_SPEED;
    }

    /// One tick of vertical kinematics: a press while grounded launches a
    /// jump; while jumping the player rises by the flat jump step, the
    /// stored velocity decays, and reaching the floor height resets the
    /// jump flag without clamping the position.
    pub fn jump_step(&mut self, pressed: bool)
        requires
            iabs(old(self)@.py) <= POS_LIMIT as int,
            iabs(old(self)@.jv) <= JV_LIMIT as int,
        ensures
            final(self)@ == spec_jump(old(self)@, pressed),
    {
        if pressed && !self.is_jumping {
            self.is_jumping = true;
            self.jump_velocity = JUMP_LAUNCH;
        }
        if self.is_jumping {
            self.pos.y = self.pos.y + JUMP_STEP;
            self.jump_velocity = self.jump_velocity - GRAVITY_DECAY;
            if self.pos.y >= FLOOR_HEIGHT {
                self.is_jumping = false;
            }
        }
    }
}

} // verus!
