//! Frame clock of an eased animation between two whole-pixel positions.
//!
//! An animation runs for `ANIM_FRAMES` frames along a fixed easing table;
//! only its clock (start and end position, current frame, finished flag)
//! lives here. The eased position in between is a fraction of a pixel and is
//! computed where the picture is drawn.

use vstd::prelude::*;

verus! {

/// Number of frames an animation takes.
pub const ANIM_FRAMES: u8 = 8;

/// Easing table: the share (out of 255) of the way covered after each frame.
pub const EASE_LUT: [u8; 9] = [0, 84, 147, 193, 223, 242, 251, 254, 255];

/// The easing table as a sequence.
pub open spec fn ease(f: int) -> int {
    if f <= 0 {
        0
    } else if f == 1 {
        84
    } else if f == 2 {
        147
    } else if f == 3 {
        193
    } else if f == 4 {
        223
    } else if f == 5 {
        242
    } else if f == 6 {
        251
    } else if f == 7 {
        254
    } else {
        255
    }
}

/// Reads the easing table at frame `f` (at most `ANIM_FRAMES`).
pub fn ease_at(f: u8) -> (e: u8)
    requires
        f <= ANIM_FRAMES,
    ensures
        e == ease(f as int),
{
    let lut: [u8; 9] = EASE_LUT;
    assert(lut@ =~= seq![0u8, 84, 147, 193, 223, 242, 251, 254, 255]);
    lut[f as usize]
}

/// The clock of an animation from `from` to `to`.
#[derive(Clone, Copy, PartialEq, Eq, Structural)]
pub struct Tween {
    pub from: i32,
    pub to: i32,
    pub frame: u8,
    pub done: bool,
}

impl Tween {
    /// A clock that is not running: its frame count is used up.
    pub open spec fn wf(&self) -> bool {
        self.done || self.frame < ANIM_FRAMES
    }

    /// An animation resting at `v`.
    pub fn new(v: i32) -> (t: Self)
        ensures
            t == (Tween { from: v, to: v, frame: ANIM_FRAMES, done: true }),
    {
        Tween { from: v, to: v, frame: ANIM_FRAMES, done: true }
    }

    /// An animation that rests at `from` and is then sent towards `to`; it
    /// runs only when the two differ.
    pub open spec fn spec_between(from: i32, to: i32) -> Tween {
        if from == to {
            Tween { from, to, frame: ANIM_FRAMES, done: true }
        } else {
            Tween { from, to, frame: 0, done: false }
        }
    }

    /// An animation that rests at `from` and is then sent towards `to`.
    pub fn between(from: i32, to: i32) -> (t: Self)
        ensures
            t == Self::spec_between(from, to),
            t.wf(),
    {
        if from == to {
            Tween { from, to, frame: ANIM_FRAMES, done: true }
        } else {
            Tween { from, to, frame: 0, done: false }
        }
    }

    /// The clock after one more frame.
    pub open spec fn spec_update(self) -> Tween {
        if self.done {
            self
        } else if self.frame + 1 >= ANIM_FRAMES {
            Tween { frame: (self.frame + 1) as u8, done: true, ..self }
        } else {
            Tween { frame: (self.frame + 1) as u8, ..self }
        }
    }

    /// Advances the clock by one frame.
    pub fn update(&mut self)
        requires
            old(self).wf(),
        ensures
            *final(self) == old(self).spec_update(),
            final(self).wf(),
    {
        if self.done {
            return;
        }
        self.frame = self.frame + 1;
        if self.frame >= ANIM_FRAMES {
            self.done = true;
        }
    }
}

/// The frame clock of an animation whose positions the caller keeps: how
/// many of its `ANIM_FRAMES` frames have run, and whether it is over.
#[derive(Clone, Copy, PartialEq, Eq, Structural)]
pub struct FrameClock {
    pub frame: u8,
    pub done: bool,
}

impl FrameClock {
    /// A clock that is not running has its frame count used up.
    pub open spec fn wf(&self) -> bool {
        self.done || self.frame < ANIM_FRAMES
    }

    /// A clock just sent off: running from frame 0 when the animation
    /// started (its target differed from where it stood), else already over.
    pub open spec fn spec_start(started: bool) -> FrameClock {
        if started {
            FrameClock { frame: 0, done: false }
        } else {
            FrameClock { frame: ANIM_FRAMES, done: true }
        }
    }

    /// A clock just sent off (see `spec_start`).
    pub fn start(started: bool) -> (c: Self)
        ensures
            c == Self::spec_start(started),
            c.wf(),
    {
        if started {
            FrameClock { frame: 0, done: false }
        } else {
            FrameClock { frame: ANIM_FRAMES, done: true }
        }
    }

    /// The clock after one more frame.
    pub open spec fn spec_update(self) -> FrameClock {
        if self.done {
            self
        } else if self.frame + 1 >= ANIM_FRAMES {
            FrameClock { frame: (self.frame + 1) as u8, done: true }
        } else {
            FrameClock { frame: (self.frame + 1) as u8, done: false }
        }
    }

    /// Frames until the clock is over: none once it is.
    pub open spec fn frames_left(self) -> int {
        if self.done { 0 } else { ANIM_FRAMES - self.frame }
    }

    /// Advances the clock by one frame.
    pub fn update(&mut self)
        requires
            old(self).wf(),
        ensures
            *final(self) == old(self).spec_update(),
            final(self).wf(),
    {
        if self.done {
            return;
        }
        self.frame = self.frame + 1;
        if self.frame >= ANIM_FRAMES {
            self.done = true;
        }
    }
}

/// A running clock counts down: one frame brings it one frame nearer its
/// end, and it is over exactly when no frames are left.
pub proof fn lemma_clock_counts_down(c: FrameClock)
    requires
        c.wf(),
    ensures
        c.spec_update().wf(),
        0 <= c.frames_left() <= ANIM_FRAMES,
        !c.done ==> c.spec_update().frames_left() == c.frames_left() - 1,
        c.spec_update().done <==> c.frames_left() <= 1,
{
}

/// A running animation finishes after at most `ANIM_FRAMES` updates.
pub proof fn lemma_tween_finishes(t: Tween)
    requires
        t.wf(),
    ensures
        t.spec_update().spec_update().spec_update().spec_update().spec_update().spec_update()
            .spec_update().spec_update().done,
{
}

} // verus!
