use vstd::prelude::*;

verus! {

/// Number of logical keys of the machine (0x0 to 0xF).
pub const KEY_COUNT: usize = 16;

/// The pressed / released state of the sixteen logical keys.
pub struct Keyboard {
    keys: [bool; 16],
}

impl View for Keyboard {
    type V = Seq<bool>;

    /// Entry `k` tells whether logical key `k` is pressed.
    closed spec fn view(&self) -> Seq<bool> {
        self.keys@
    }
}

/// Whether logical key `key` is pressed in the key state `keys`; keys outside
/// 0..16 are never pressed.
pub open spec fn key_pressed(keys: Seq<bool>, key: int) -> bool {
    0 <= key < keys.len() && keys[key]
}

/// Whether some logical key is pressed.
pub open spec fn any_key_pressed(keys: Seq<bool>) -> bool {
    exists|k: int| 0 <= k < keys.len() && #[trigger] keys[k]
}

/// The key reported by a wait for a key press: the lowest pressed key, if any.
pub open spec fn first_pressed(keys: Seq<bool>) -> Option<u8> {
    if any_key_pressed(keys) {
        Some(
            (choose|k: int|
                0 <= k < keys.len() && #[trigger] keys[k] && forall|j: int|
                    0 <= j < k ==> !keys[j]) as u8,
        )
    } else {
        None
    }
}

impl Keyboard {
    /// There is one entry per logical key.
    pub proof fn lemma_len(&self)
        ensures
            self@.len() == KEY_COUNT,
    {
    }

    /// A keyboard with every key released.
    pub fn new() -> (r: Keyboard)
        ensures
            r@.len() == KEY_COUNT,
            forall|k: int| 0 <= k < KEY_COUNT ==> !r@[k],
    {
        Keyboard { keys: [false; 16] }
    }

    /// Records whether logical key `key` is pressed; a key outside 0..16 is
    /// ignored.
    pub fn set_key(&mut self, key: u8, pressed: bool)
        ensures
            key < KEY_COUNT ==> final(self)@ == old(self)@.update(key as int, pressed),
            key >= KEY_COUNT ==> final(self)@ == old(self)@,
    {
        if (key as usize) < KEY_COUNT {
            self.keys[key as usize] = pressed;
        }
    }

    /// Whether logical key `key` is pressed.
    pub fn is_key_pressed(&self, key: u8) -> (r: bool)
        ensures
            r == key_pressed(self@, key as int),
    {
        if (key as usize) < KEY_COUNT {
            self.keys[key as usize]
        } else {
            false
        }
    }

    /// The lowest pressed key, or `None` when no key is pressed.
    pub fn wait_for_key_press(&self) -> (r: Option<u8>)
        ensures
            r == first_pressed(self@),
            r is Some <==> any_key_pressed(self@),
            r matches Some(k) ==> key_pressed(self@, k as int),
    {
        let mut k: usize = 0;
        while k < KEY_COUNT
            invariant
                self@.len() == KEY_COUNT,
                forall|j: int| 0 <= j < k ==> !self@[j],
            decreases KEY_COUNT - k,
        {
            if self.keys[k] {
                proof {
                    let c = choose|c: int|
                        0 <= c < self@.len() && #[trigger] self@[c] && forall|j: int|
                            0 <= j < c ==> !self@[j];
                    assert(self@[k as int]);
                    if c < k {
                    } else if c > k {
                        assert(!self@[k as int]);
                    }
                }
                return Some(k as u8);
            }
            k += 1;
        }
        None
    }
}

} // verus!
