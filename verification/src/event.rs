//! The 32-bit record that one track holds for one tick.

use vstd::prelude::*;

verus! {

/// Piano key, in range `0..=23`.
pub type PianoKey = u8;

/// Number of piano keys.
pub const N_KEYS: PianoKey = 24;

/// Number of entries in the pan table.
pub const N_PANS: usize = 8;

/// Key presses and an optional pan change for one tick of one track.
///
/// Bit `k` (for `k < 24`) says that key `k` is pressed at this tick. The high
/// byte is the pan index, where zero means that the pan stays as it was.
#[derive(Clone, Copy, PartialEq, Eq, Structural, Debug)]
pub struct Event(pub u32);

/// Whether bit `key` of `bits` is set.
pub open spec fn key_bit(bits: u32, key: PianoKey) -> bool {
    bits & (1u32 << key) != 0
}

/// The high byte of `bits`: the pan index that an event carries.
pub open spec fn pan_index(bits: u32) -> int {
    bits as int / 0x100_0000
}

/// The pan table: stereo balance for each pan index, positive to the left.
pub open spec fn pan_table(index: int) -> i16 {
    if index == 0 {
        2560
    } else if index == 1 {
        1600
    } else if index == 2 {
        760
    } else if index == 3 {
        320
    } else if index == 4 {
        0
    } else if index == 5 {
        -320i16
    } else if index == 6 {
        -760i16
    } else {
        -1640i16
    }
}

/// The pan that an event word carries, if any. The table has eight entries,
/// so only the low three bits of the pan index select one.
pub open spec fn pan_of(bits: u32) -> Option<i16> {
    if pan_index(bits) == 0 {
        None
    } else {
        Some(pan_table(pan_index(bits) % 8))
    }
}

/// The event word that has exactly the first `n` keys of `keys` as its bits.
pub open spec fn pack_keys(keys: Seq<bool>, n: int) -> u32
    decreases n,
{
    if n <= 0 {
        0
    } else if keys[n - 1] {
        pack_keys(keys, n - 1) | (1u32 << ((n - 1) as u8))
    } else {
        pack_keys(keys, n - 1)
    }
}

/// Entry `index` of the pan table.
pub fn pan_entry(index: usize) -> (pan: i16)
    requires
        index < N_PANS,
    ensures
        pan == pan_table(index as int),
{
    match index {
        0 => 2560,
        1 => 1600,
        2 => 760,
        3 => 320,
        4 => 0,
        5 => -320,
        6 => -760,
        _ => -1640,
    }
}

impl Default for Event {
    /// The event that presses nothing and leaves the pan alone.
    fn default() -> (event: Self)
        ensures
            event.0 == 0,
    {
        Event(0)
    }
}

impl Event {
    /// Whether the piano key `key` is down.
    #[must_use]
    pub fn key_down(self, key: PianoKey) -> (down: bool)
        requires
            key < N_KEYS,
        ensures
            down == key_bit(self.0, key),
    {
        self.0 & (1u32 << key) != 0
    }

    /// Set the piano key `key` to be down. Every other key and the pan stay.
    pub fn set_key_down(&mut self, key: PianoKey)
        requires
            key < N_KEYS,
        ensures
            final(self).0 == old(self).0 | (1u32 << key),
            key_bit(final(self).0, key),
            forall|other: PianoKey|
                other < 32 && other != key ==> key_bit(final(self).0, other) == key_bit(
                    old(self).0,
                    other,
                ),
            pan_index(final(self).0) == pan_index(old(self).0),
    {
        proof {
            lemma_set_bit(self.0, key);
        }
        self.0 = self.0 | (1u32 << key);
    }

    /// Set the piano key `key` to be up. Every other key and the pan stay.
    pub fn set_key_up(&mut self, key: PianoKey)
        requires
            key < N_KEYS,
        ensures
            final(self).0 == old(self).0 & !(1u32 << key),
            !key_bit(final(self).0, key),
            forall|other: PianoKey|
                other < 32 && other != key ==> key_bit(final(self).0, other) == key_bit(
                    old(self).0,
                    other,
                ),
            pan_index(final(self).0) == pan_index(old(self).0),
    {
        proof {
            lemma_clear_bit(self.0, key);
        }
        self.0 = self.0 & !(1u32 << key);
    }

    /// The pan value of this event, if it carries one.
    #[must_use]
    pub fn pan(self) -> (pan: Option<i16>)
        ensures
            pan == pan_of(self.0),
    {
        let word: u32 = self.0;
        let index: u32 = word >> 24;
        assert(index == word / 0x100_0000) by (bit_vector)
            requires
                index == word >> 24,
        ;
        if index == 0 {
            None
        } else {
            let slot: u32 = index % 8;
            Some(pan_entry(slot as usize))
        }
    }

    /// Construct an event from an array of piano key down states. The event
    /// carries no pan.
    #[must_use]
    pub fn from_keydown_array(arr: [bool; 24]) -> (event: Self)
        ensures
            event.0 == pack_keys(arr@, 24),
            forall|key: PianoKey| key < N_KEYS ==> key_bit(event.0, key) == arr@[key as int],
            pan_of(event.0).is_none(),
    {
        let mut bits: u32 = 0;
        let mut key: u8 = 0;
        while key < 24
            invariant
                key <= 24,
                bits == pack_keys(arr@, key as int),
            decreases 24 - key,
        {
            if arr[key as usize] {
                bits = bits | (1u32 << key);
            }
            key = key + 1;
        }
        proof {
            lemma_pack_keys(arr@, 24);
        }
        Event(bits)
    }
}

/// Setting one bit makes that bit read as set and changes neither another bit
/// nor, where the bit is a key, the pan index.
pub proof fn lemma_set_bit(bits: u32, key: PianoKey)
    requires
        key < N_KEYS,
    ensures
        key_bit(bits | (1u32 << key), key),
        forall|other: PianoKey|
            other < 32 && other != key ==> key_bit(bits | (1u32 << key), other) == key_bit(
                bits,
                other,
            ),
        pan_index(bits | (1u32 << key)) == pan_index(bits),
{
    assert(key < 24 ==> (bits | (1u32 << key)) & (1u32 << key) != 0) by (bit_vector);
    assert forall|other: PianoKey| other < 32 && other != key implies key_bit(
        bits | (1u32 << key),
        other,
    ) == key_bit(bits, other) by {
        assert(key < 24 && other < 32 && other != key ==> ((bits | (1u32 << key)) & (1u32 << other)
            != 0) == (bits & (1u32 << other) != 0)) by (bit_vector);
    }
    assert(key < 24 ==> (bits | (1u32 << key)) / 0x100_0000 == bits / 0x100_0000) by (bit_vector);
}

/// Clearing one bit makes that bit read as clear and changes neither another
/// bit nor, where the bit is a key, the pan index.
pub proof fn lemma_clear_bit(bits: u32, key: PianoKey)
    requires
        key < N_KEYS,
    ensures
        !key_bit(bits & !(1u32 << key), key),
        forall|other: PianoKey|
            other < 32 && other != key ==> key_bit(bits & !(1u32 << key), other) == key_bit(
                bits,
                other,
            ),
        pan_index(bits & !(1u32 << key)) == pan_index(bits),
{
    assert(key < 24 ==> (bits & !(1u32 << key)) & (1u32 << key) == 0) by (bit_vector);
    assert forall|other: PianoKey| other < 32 && other != key implies key_bit(
        bits & !(1u32 << key),
        other,
    ) == key_bit(bits, other) by {
        assert(key < 24 && other < 32 && other != key ==> ((bits & !(1u32 << key)) & (1u32
            << other) != 0) == (bits & (1u32 << other) != 0)) by (bit_vector);
    }
    assert(key < 24 ==> (bits & !(1u32 << key)) / 0x100_0000 == bits / 0x100_0000) by (bit_vector);
}

/// A word packed from the first `n` key states has those states as its low
/// `n` bits and nothing above them.
pub proof fn lemma_pack_keys(keys: Seq<bool>, n: int)
    requires
        0 <= n <= 24,
        n <= keys.len(),
    ensures
        forall|key: PianoKey|
            (key as int) < n ==> #[trigger] key_bit(pack_keys(keys, n), key) == keys[key as int],
        forall|key: PianoKey|
            n <= (key as int) < 32 ==> !#[trigger] key_bit(pack_keys(keys, n), key),
        pack_keys(keys, n) < 0x100_0000,
        pan_of(pack_keys(keys, n)).is_none(),
    decreases n,
{
    if n <= 0 {
        assert forall|key: PianoKey| (key as int) < 32 implies !key_bit(0u32, key) by {
            assert(0u32 & (1u32 << key) == 0) by (bit_vector);
        }
    } else {
        lemma_pack_keys(keys, n - 1);
        let rest: u32 = pack_keys(keys, n - 1);
        let top: u8 = (n - 1) as u8;
        let word: u32 = pack_keys(keys, n);
        assert(rest < 0x100_0000 && top < 24 ==> (rest | (1u32 << top)) < 0x100_0000)
            by (bit_vector);
        lemma_set_bit(rest, top);
        assert forall|key: PianoKey| (key as int) < 32 implies key_bit(word, key) == (if (key as int)
            < n {
            keys[key as int]
        } else {
            false
        }) by {
            if key == top {
                assert(!key_bit(rest, key));
            } else if keys[n - 1] {
                assert(key_bit(rest | (1u32 << top), key) == key_bit(rest, key));
            } else {
                assert(word == rest);
            }
        }
    }
}

/// Pressing a key on the empty event makes it read as down; releasing it
/// again makes it read as up.
pub proof fn lemma_press_release(key: PianoKey)
    requires
        key < N_KEYS,
    ensures
        key_bit(0u32 | (1u32 << key), key),
        !key_bit((0u32 | (1u32 << key)) & !(1u32 << key), key),
{
    lemma_set_bit(0u32, key);
    lemma_clear_bit(0u32 | (1u32 << key), key);
}

/// An event word whose high byte is a pan index from 1 to 7 carries the table
/// entry at that index, whatever its key bits are. A zero high byte carries
/// no pan.
pub proof fn lemma_pan_table(index: u32, keys: u32)
    requires
        index < 8,
        keys < 0x100_0000,
    ensures
        index == 0 ==> pan_of((index << 24) | keys).is_none(),
        index != 0 ==> pan_of((index << 24) | keys) == Some(pan_table(index as int)),
{
    assert(index < 8 && keys < 0x100_0000 ==> ((index << 24) | keys) / 0x100_0000 == index)
        by (bit_vector);
}

/// Returns a range of all piano keys.
#[must_use]
pub fn piano_keys() -> (keys: std::ops::Range<PianoKey>)
    ensures
        keys.start == 0,
        keys.end == N_KEYS,
{
    0..N_KEYS
}

} // verus!
