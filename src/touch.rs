//! The touch interlock: which faders a hand is holding right now.
use vstd::prelude::*;

verus! {

/// Number of touch slots: slot 0 is unused, 1 to 8 are the channel faders,
/// 9 is the master fader, the rest are reserved.
pub const TOUCH_SLOTS: usize = 13;

/// First note of the channel-fader touch sensors (fader 1).
pub const FIRST_TOUCH_NOTE: u8 = 104;

/// Note of the master fader's touch sensor.
pub const MASTER_TOUCH_NOTE: u8 = 112;

/// The touch slot that a note reports on, if it is a touch sensor's note:
/// notes 104 to 111 are faders 1 to 8 and note 112 the master, slot 9.
pub open spec fn touch_slot_of(note: u8) -> Option<int> {
    if 104 <= note <= 112 {
        Some(note - 103)
    } else {
        None
    }
}

pub fn touch_slot(note: u8) -> (r: Option<usize>)
    ensures
        touch_slot_of(note) == match r {
            Some(i) => Some(i as int),
            None => None,
        },
        r matches Some(i) ==> 1 <= i <= 9,
{
    if note >= FIRST_TOUCH_NOTE && note <= 111 {
        Some((note - 103) as usize)
    } else if note == MASTER_TOUCH_NOTE {
        Some(9)
    } else {
        None
    }
}

/// A `true` slot means that a hand holds that fader: software must not move
/// its motor.
pub struct TouchState {
    pub slots: [bool; 13],
}

impl View for TouchState {
    type V = Seq<bool>;

    open spec fn view(&self) -> Seq<bool> {
        self.slots@
    }
}

/// Whether a touch slot is held; indices past the array are never held.
pub open spec fn held(slots: Seq<bool>, idx: int) -> bool {
    0 <= idx < slots.len() && slots[idx]
}

impl TouchState {
    /// No fader held.
    pub fn new() -> (r: TouchState)
        ensures
            r@.len() == TOUCH_SLOTS,
            forall|i: int| !held(r@, i),
    {
        TouchState { slots: [false; 13] }
    }

    pub fn is_touched(&self, idx: usize) -> (r: bool)
        ensures
            r == held(self@, idx as int),
    {
        if idx < TOUCH_SLOTS {
            self.slots[idx]
        } else {
            false
        }
    }

    /// Records the touch sensor reading carried by a note message: with a
    /// note-on status (`0x9n`) and a non-zero velocity the fader is held,
    /// with any other status it is released. Notes that are not touch
    /// sensors change nothing.
    pub fn apply_note(&mut self, status: u8, note: u8, velocity: u8)
        ensures
            final(self)@ == match touch_slot_of(note) {
                Some(i) => old(self)@.update(i, status & 0xF0 == 0x90 && velocity > 0),
                None => old(self)@,
            },
    {
        let is_touch = status & 0xF0 == 0x90 && velocity > 0;
        match touch_slot(note) {
            Some(i) => {
                self.slots[i] = is_touch;
                assert(self@ =~= old(self)@.update(i as int, is_touch));
            },
            None => {},
        }
    }
}

} // verus!
