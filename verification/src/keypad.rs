//! The sixteen-key hexadecimal pad.

use vstd::prelude::*;

verus! {

/// Number of keys on the pad; key codes are `0..KEY_COUNT`.
pub const KEY_COUNT: usize = 16;

/// The lowest key code in `from..16` that `keys` holds, if there is one.
pub open spec fn lowest_from(keys: Set<int>, from: int) -> Option<int>
    decreases 16 - from,
{
    if from >= 16 {
        None
    } else if keys.contains(from) {
        Some(from)
    } else {
        lowest_from(keys, from + 1)
    }
}

/// The lowest key code that `keys` holds, if it holds any.
pub open spec fn lowest_key(keys: Set<int>) -> Option<int> {
    lowest_from(keys, 0)
}

/// Whether every member of `keys` is a key code.
pub open spec fn valid_keys(keys: Set<int>) -> bool {
    forall|k: int| keys.contains(k) ==> 0 <= k < 16
}

/// The keys that are down right now.
pub struct Keypad {
    held: [bool; 16],
}

impl View for Keypad {
    type V = Set<int>;

    /// The set of key codes that are held.
    closed spec fn view(&self) -> Set<int> {
        Set::new(|k: int| 0 <= k < 16 && self.held@[k])
    }
}

impl Keypad {
    /// A pad with no key down.
    pub fn new() -> (pad: Keypad)
        ensures
            pad@ == Set::<int>::empty(),
    {
        let pad = Keypad { held: [false; 16] };
        assert(pad@ =~= Set::<int>::empty());
        pad
    }

    /// Every held key is a key code.
    pub proof fn lemma_valid(&self)
        ensures
            valid_keys(self@),
    {
    }

    /// Marks `key` as down. A code that is not on the pad is ignored.
    pub fn press(&mut self, key: usize)
        ensures
            final(self)@ == (if key < 16 {
                old(self)@.insert(key as int)
            } else {
                old(self)@
            }),
    {
        if key < KEY_COUNT {
            self.held[key] = true;
            assert(self@ =~= old(self)@.insert(key as int));
        }
    }

    /// Marks `key` as up. A code that is not on the pad is ignored.
    pub fn release(&mut self, key: usize)
        ensures
            final(self)@ == old(self)@.remove(key as int),
    {
        if key < KEY_COUNT {
            self.held[key] = false;
        }
        assert(self@ =~= old(self)@.remove(key as int));
    }

    /// Whether `key` is down.
    pub fn is_held(&self, key: usize) -> (held: bool)
        ensures
            held == self@.contains(key as int),
    {
        key < KEY_COUNT && self.held[key]
    }

    /// The lowest key that is down, if any is.
    pub fn any_held(&self) -> (key: Option<usize>)
        ensures
            match key {
                Some(k) => lowest_key(self@) == Some(k as int),
                None => lowest_key(self@) is None,
            },
    {
        let mut k: usize = 0;
        while k < KEY_COUNT
            invariant
                k <= 16,
                lowest_key(self@) == lowest_from(self@, k as int),
            decreases 16 - k,
        {
            if self.held[k] {
                return Some(k);
            }
            k = k + 1;
        }
        None
    }
}

/// What `lowest_key` finds is held and no lower key is; it finds nothing
/// exactly when no key code is held.
pub proof fn lemma_lowest_key(keys: Set<int>)
    ensures
        match lowest_key(keys) {
            Some(k) => 0 <= k < 16 && keys.contains(k) && forall|j: int|
                0 <= j < k ==> !keys.contains(j),
            None => forall|j: int| 0 <= j < 16 ==> !keys.contains(j),
        },
{
    lemma_lowest_from(keys, 0);
}

proof fn lemma_lowest_from(keys: Set<int>, from: int)
    requires
        0 <= from <= 16,
    ensures
        match lowest_from(keys, from) {
            Some(k) => from <= k < 16 && keys.contains(k) && forall|j: int|
                from <= j < k ==> !keys.contains(j),
            None => forall|j: int| from <= j < 16 ==> !keys.contains(j),
        },
    decreases 16 - from,
{
    if from < 16 && !keys.contains(from) {
        lemma_lowest_from(keys, from + 1);
    }
}

/// The key that a keyboard scancode stands for, by the usual layout: the
/// block `1234 / QWER / ASDF / ZXCV` is the pad `123C / 456D / 789E / A0BF`.
/// Scancodes are USB usage codes (`A` is 4, `Z` is 29, `1` is 30).
pub open spec fn keypad_layout(scancode: i32) -> Option<usize> {
    if scancode == 27 {
        Some(0x0usize)
    } else if scancode == 30 {
        Some(0x1usize)
    } else if scancode == 31 {
        Some(0x2usize)
    } else if scancode == 32 {
        Some(0x3usize)
    } else if scancode == 20 {
        Some(0x4usize)
    } else if scancode == 26 {
        Some(0x5usize)
    } else if scancode == 8 {
        Some(0x6usize)
    } else if scancode == 4 {
        Some(0x7usize)
    } else if scancode == 22 {
        Some(0x8usize)
    } else if scancode == 7 {
        Some(0x9usize)
    } else if scancode == 29 {
        Some(0xAusize)
    } else if scancode == 6 {
        Some(0xBusize)
    } else if scancode == 33 {
        Some(0xCusize)
    } else if scancode == 21 {
        Some(0xDusize)
    } else if scancode == 9 {
        Some(0xEusize)
    } else if scancode == 25 {
        Some(0xFusize)
    } else {
        None
    }
}

/// Maps a keyboard scancode to the pad key it stands for, if any.
pub fn hex_keypad(scancode: i32) -> (key: Option<usize>)
    ensures
        key == keypad_layout(scancode),
        key matches Some(k) ==> k < 16,
{
    match scancode {
        27 => Some(0x0),
        30 => Some(0x1),
        31 => Some(0x2),
        32 => Some(0x3),
        20 => Some(0x4),
        26 => Some(0x5),
        8 => Some(0x6),
        4 => Some(0x7),
        22 => Some(0x8),
        7 => Some(0x9),
        29 => Some(0xA),
        6 => Some(0xB),
        33 => Some(0xC),
        21 => Some(0xD),
        9 => Some(0xE),
        25 => Some(0xF),
        _ => None,
    }
}

} // verus!
