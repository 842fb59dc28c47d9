//! Reading the four keys each frame: press edges, long presses of back and
//! enter, and auto-repeat of up and down while held.
//!
//! Keys are numbered K1 (up), K2 (down), K3 (back), K4 (enter).

use vstd::prelude::*;

verus! {

/// Frames a key must be held to count as a long press (and before
/// up/down start repeating).
pub const LONG_PRESS: u16 = 66;

/// Whether a held up/down key repeats on the frame where it has been held
/// `h` frames: from `LONG_PRESS` on, every 4 frames, after 90 every 3,
/// after 120 every 2.
pub open spec fn repeat_fires(h: u16) -> bool {
    h >= LONG_PRESS && (h - LONG_PRESS) % (if h < 90 { 4int } else if h < 120 { 3int } else { 2int }) == 0
}

/// The hold counter after a frame: one more (at most 65535) while pressed,
/// zero once released.
pub open spec fn hold_next(h: u16, pressed: bool) -> u16 {
    if !pressed {
        0
    } else if h == 65535 {
        65535
    } else {
        (h + 1) as u16
    }
}

/// The key events of one frame, as the view model takes them.
#[derive(Clone, Copy, PartialEq, Eq, Debug, Structural)]
pub struct KeyFrame {
    pub up: bool,
    pub down: bool,
    pub enter: bool,
    pub back: bool,
    pub long_back: bool,
    pub long_enter: bool,
}

/// What the keys looked like on the previous frame and how long each has
/// been held.
pub struct KeyScanner {
    pub prev: [bool; 4],
    pub hold: [u16; 4],
}

impl KeyScanner {
    /// A scanner that treats every key as already pressed, so that keys held
    /// at start-up give no press.
    pub fn new() -> (k: Self)
        ensures
            k.prev@ == seq![true, true, true, true],
            k.hold@ == seq![0u16, 0, 0, 0],
    {
        let k = KeyScanner { prev: [true; 4], hold: [0u16; 4] };
        assert(k.prev@ =~= seq![true, true, true, true]);
        assert(k.hold@ =~= seq![0u16, 0, 0, 0]);
        k
    }

    /// Takes this frame's key levels (`true` is pressed) and gives its
    /// events: a press edge of any key; up/down again while they repeat;
    /// back/enter long presses on the frame their hold reaches `LONG_PRESS`.
    pub fn scan(&mut self, pressed: [bool; 4]) -> (f: KeyFrame)
        ensures
            forall|i: int| 0 <= i < 4 ==> #[trigger] final(self).hold@[i] == hold_next(old(self).hold@[i], pressed@[i]),
            final(self).prev@ == pressed@,
            f.up == ((pressed@[0] && !old(self).prev@[0]) || repeat_fires(final(self).hold@[0])),
            f.down == ((pressed@[1] && !old(self).prev@[1]) || repeat_fires(final(self).hold@[1])),
            f.back == (pressed@[2] && !old(self).prev@[2]),
            f.enter == (pressed@[3] && !old(self).prev@[3]),
            f.long_back == (final(self).hold@[2] == LONG_PRESS),
            f.long_enter == (final(self).hold@[3] == LONG_PRESS),
    {
        let mut edge = [false; 4];
        let mut long_edge = [false; 4];
        let mut repeat = [false; 2];
        let mut i: usize = 0;
        while i < 4
            invariant
                i <= 4,
                forall|j: int| 0 <= j < i ==> #[trigger] self.hold@[j] == hold_next(old(self).hold@[j], pressed@[j]),
                forall|j: int| i <= j < 4 ==> #[trigger] self.hold@[j] == old(self).hold@[j],
                self.prev@ == old(self).prev@,
                forall|j: int| 0 <= j < i ==> #[trigger] edge@[j] == (pressed@[j] && !old(self).prev@[j]),
                forall|j: int| 0 <= j < i && j < 2 ==> #[trigger] repeat@[j] == repeat_fires(self.hold@[j]),
                forall|j: int| 0 <= j < i && j < 2 ==> !(#[trigger] long_edge@[j]),
                forall|j: int| 0 <= j < i && j >= 2 ==> #[trigger] long_edge@[j] == (self.hold@[j] == LONG_PRESS),
                forall|j: int| i <= j < 4 ==> !(#[trigger] long_edge@[j]),
                forall|j: int| i <= j < 2 ==> !(#[trigger] repeat@[j]),
            decreases 4 - i,
        {
            edge[i] = pressed[i] && !self.prev[i];
            if pressed[i] {
                self.hold[i] = self.hold[i].saturating_add(1);
            } else {
                self.hold[i] = 0;
            }
            let h = self.hold[i];
            if i < 2 {
                if h >= LONG_PRESS {
                    let interval: u16 = if h < 90 { 4 } else if h < 120 { 3 } else { 2 };
                    if (h - LONG_PRESS) % interval == 0 {
                        repeat[i] = true;
                    }
                }
            } else if h == LONG_PRESS {
                long_edge[i] = true;
            }
            i = i + 1;
        }
        self.prev = pressed;
        KeyFrame {
            up: edge[0] || repeat[0],
            down: edge[1] || repeat[1],
            enter: edge[3],
            back: edge[2],
            long_back: long_edge[2],
            long_enter: long_edge[3],
        }
    }
}

/// The hold counter of a key pressed for `k` frames in a row after being released.
pub open spec fn held_for(k: nat) -> u16
    decreases k,
{
    if k == 0 {
        0
    } else {
        hold_next(held_for((k - 1) as nat), true)
    }
}

/// A key held `k` frames after a release has a hold count of `k` (at most
/// 65535); so its long press fires on exactly one frame of the hold, the
/// `LONG_PRESS`-th.
pub proof fn lemma_long_press_once(k: nat)
    ensures
        held_for(k) == (if k < 65535 { k } else { 65535 }),
        (held_for(k) == LONG_PRESS) == (k == LONG_PRESS),
    decreases k,
{
    if k > 0 {
        lemma_long_press_once((k - 1) as nat);
    }
}

/// Releasing a key resets its hold, so the next press starts afresh.
pub proof fn lemma_release_resets(h: u16)
    ensures
        hold_next(h, false) == 0,
        !repeat_fires(hold_next(h, false)),
{
}

} // verus!
