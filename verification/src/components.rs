use vstd::arithmetic::div_mod::{
    lemma_add_mod_noop, lemma_fundamental_div_mod_converse_mod, lemma_mod_bound,
    lemma_multiply_divide_lt, lemma_small_mod,
};
use vstd::prelude::*;

verus! {

/// One whole unit of the fixed-point scale this crate uses for world
/// coordinates, sizes, rotations and tint channels; the rendering edge
/// divides by it when it builds its floating-point matrices.
pub const FIXED_ONE: i64 = 65536;

/// Handle to a layered texture owned by the rendering edge outside this
/// crate.
pub type TextureId = u32;

/// A 2D world position, in fixed-point world units.
#[derive(Copy, Clone, Debug, PartialEq, Eq, Structural)]
pub struct Position {
    pub x: i64,
    pub y: i64,
}

/// A 2D velocity, in fixed-point world units per second. Reserved for a
/// future physics stage; no system in this crate consumes it.
#[derive(Copy, Clone, Debug, PartialEq, Eq, Structural)]
pub struct Velocity {
    pub dx: i64,
    pub dy: i64,
}

/// An RGBA multiplier, in fixed-point channels where `FIXED_ONE` is full
/// intensity. An entity without one is drawn with every channel at
/// `FIXED_ONE`.
#[derive(Copy, Clone, Debug, PartialEq, Eq, Structural)]
pub struct Tint {
    pub red: i64,
    pub green: i64,
    pub blue: i64,
    pub alpha: i64,
}

impl Tint {
    /// The neutral tint: full intensity on every channel.
    pub fn white() -> (r: Tint)
        ensures
            r == (Tint { red: FIXED_ONE, green: FIXED_ONE, blue: FIXED_ONE, alpha: FIXED_ONE }),
    {
        Tint { red: FIXED_ONE, green: FIXED_ONE, blue: FIXED_ONE, alpha: FIXED_ONE }
    }
}

/// An animated textured quad: its size, rotation and animation clock, and
/// the layered texture whose layers are the animation frames.
///
/// Times are in microseconds; the invariant keeps the clock strictly inside
/// one animation period.
#[derive(Copy, Clone, Debug, PartialEq, Eq, Structural)]
pub struct Sprite {
    pub size_x: i64,
    pub size_y: i64,
    pub scale: i64,
    pub rotation: i64,
    pub animation_length: u64,
    pub animation_time: u64,
    pub texture: TextureId,
    pub frame_count: u32,
}

/// The animation frame a sprite shows: how far the clock is through the
/// period, scaled to the frame count and rounded down.
pub open spec fn spec_animation_frame(s: Sprite) -> int {
    s.animation_time * s.frame_count / (s.animation_length as int)
}

/// The sprite as it is after its animation clock advances by `delta_time`,
/// wrapped into the period.
pub open spec fn spec_animated(s: Sprite, delta_time: u64) -> Sprite {
    Sprite {
        animation_time: (((s.animation_time + delta_time) % (s.animation_length as int)) as u64),
        ..s
    }
}

impl Sprite {
    /// A sprite's animation period is at least one microsecond, its clock
    /// lies inside the period, and its texture has at least one frame.
    pub open spec fn wf(self) -> bool {
        &&& self.animation_length >= 1
        &&& self.animation_time < self.animation_length
        &&& self.frame_count >= 1
    }

    /// A freshly loaded sprite: unit size, no rotation, clock at zero.
    pub fn new(texture: TextureId, frame_count: u32, animation_length: u64) -> (r: Sprite)
        requires
            frame_count >= 1,
            animation_length >= 1,
        ensures
            r.wf(),
            r == (Sprite {
                size_x: FIXED_ONE,
                size_y: FIXED_ONE,
                scale: FIXED_ONE,
                rotation: 0,
                animation_length,
                animation_time: 0,
                texture,
                frame_count,
            }),
    {
        Sprite {
            size_x: FIXED_ONE,
            size_y: FIXED_ONE,
            scale: FIXED_ONE,
            rotation: 0,
            animation_length,
            animation_time: 0,
            texture,
            frame_count,
        }
    }

    /// Advances the animation clock by `delta_time` and wraps it into the
    /// period by true modulo, so that even a delta far longer than the
    /// period lands back inside it.
    pub fn update(&mut self, delta_time: u64)
        requires
            old(self).wf(),
        ensures
            final(self).wf(),
            *final(self) == spec_animated(*old(self), delta_time),
    {
        let len = self.animation_length;
        let time = self.animation_time;
        let r = delta_time % len;
        let new_time = if r >= len - time {
            r - (len - time)
        } else {
            time + r
        };
        proof {
            let l = len as int;
            lemma_add_mod_noop(time as int, delta_time as int, l);
            lemma_small_mod(time as nat, len as nat);
            lemma_mod_bound(delta_time as int, l);
            if r >= len - time {
                lemma_fundamental_div_mod_converse_mod(time + r, l, 1, time + r - l);
            } else {
                lemma_small_mod((time + r) as nat, len as nat);
            }
            lemma_mod_bound((time + delta_time) as int, l);
        }
        self.animation_time = new_time;
    }

    /// The frame to draw now; always strictly below the frame count, since
    /// the clock stays strictly inside the period.
    pub fn animation_frame(&self) -> (r: u32)
        requires
            self.wf(),
        ensures
            r == spec_animation_frame(*self),
            r < self.frame_count,
    {
        proof {
            assert((self.animation_time as int) * (self.frame_count as int) <= (u64::MAX as int)
                * (u32::MAX as int) && (self.animation_time as int) * (self.frame_count as int) < (
            self.animation_length as int) * (self.frame_count as int)) by (nonlinear_arith)
                requires
                    self.animation_time <= u64::MAX,
                    self.frame_count <= u32::MAX,
                    self.animation_time < self.animation_length,
                    self.frame_count >= 1,
            {}
        }
        let num = (self.animation_time as u128) * (self.frame_count as u128);
        let frame = num / (self.animation_length as u128);
        proof {
            lemma_multiply_divide_lt(
                num as int,
                self.animation_length as int,
                self.frame_count as int,
            );
        }
        frame as u32
    }
}

} // verus!
