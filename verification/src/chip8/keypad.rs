//! The sixteen-key keypad, viewed as a sequence of sixteen booleans
//! (`true` means pressed).

use vstd::prelude::*;

verus! {

/// How many keys the keypad has.
pub const NUM_KEYS: usize = 16;

/// The pressed key of lowest index among `keys[i..]`, if any key at or
/// beyond `i` is pressed.
pub open spec fn first_pressed_from(keys: Seq<bool>, i: nat) -> Option<u8>
    decreases 16 - i,
{
    if i >= 16 {
        None
    } else if keys[i as int] {
        Some(i as u8)
    } else {
        first_pressed_from(keys, i + 1)
    }
}

/// The pressed key of lowest index, if any key is pressed.
pub open spec fn first_pressed(keys: Seq<bool>) -> Option<u8> {
    first_pressed_from(keys, 0)
}

/// The sixteen key states.
pub struct Keypad {
    keys: [bool; 16],
}

impl View for Keypad {
    type V = Seq<bool>;

    closed spec fn view(&self) -> Seq<bool> {
        self.keys@
    }
}

impl Keypad {
    /// A keypad with no key pressed.
    pub fn new() -> (r: Keypad)
        ensures
            r@.len() == 16,
            forall|i: int| 0 <= i < 16 ==> !r@[i],
    {
        Keypad { keys: [false; 16] }
    }

    /// Records whether the key named by `key_index` is pressed; an index
    /// outside `[0, 15]` changes nothing.
    pub fn set_key_pressed(&mut self, key_index: u8, is_pressed: bool)
        ensures
            key_index < 16 ==> final(self)@ == old(self)@.update(key_index as int, is_pressed),
            key_index >= 16 ==> final(self)@ == old(self)@,
    {
        if (key_index as usize) < NUM_KEYS {
            self.keys[key_index as usize] = is_pressed;
        }
    }

    /// Whether the key named by `key_index` is pressed; an index outside
    /// `[0, 15]` reports "not pressed".
    pub fn is_key_pressed(&self, key_index: u8) -> (r: bool)
        ensures
            r == (key_index < 16 && self@[key_index as int]),
    {
        if (key_index as usize) < NUM_KEYS {
            self.keys[key_index as usize]
        } else {
            false
        }
    }

    /// The pressed key of lowest index, or `None` when no key is pressed.
    pub fn get_pressed_key(&self) -> (r: Option<u8>)
        ensures
            r == first_pressed(self@),
            r matches Some(k) ==> k < 16 && self@[k as int],
            r is None ==> forall|i: int| 0 <= i < 16 ==> !self@[i],
    {
        let mut i: usize = 0;
        while i < NUM_KEYS
            invariant
                i <= 16,
                first_pressed(self@) == first_pressed_from(self@, i as nat),
                forall|j: int| 0 <= j < i ==> !self@[j],
            decreases 16 - i,
        {
            if self.keys[i] {
                return Some(i as u8);
            }
            i += 1;
        }
        None
    }
}

} // verus!
