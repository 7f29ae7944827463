//! The 16-key input pad.

use vstd::prelude::*;

verus! {

/// Number of keys on the pad.
pub const KEY_COUNT: usize = 16;

/// Key `k` is held and no key below it is.
pub open spec fn is_lowest_pressed(keys: Seq<bool>, k: int) -> bool {
    &&& 0 <= k < keys.len()
    &&& keys[k]
    &&& forall|j: int| 0 <= j < k ==> !keys[j]
}

/// The lowest-numbered key that is held, if any.
pub open spec fn lowest_pressed(keys: Seq<bool>) -> Option<u8> {
    if exists|k: int| is_lowest_pressed(keys, k) {
        Some((choose|k: int| is_lowest_pressed(keys, k)) as u8)
    } else {
        None
    }
}

/// Two keys that are both the lowest held one are the same key.
pub proof fn lemma_lowest_unique(keys: Seq<bool>, a: int, b: int)
    requires
        is_lowest_pressed(keys, a),
        is_lowest_pressed(keys, b),
    ensures
        a == b,
{
    if a < b {
        assert(!keys[a]);
    } else if b < a {
        assert(!keys[b]);
    }
}

/// The keyboard keys that stand for pad keys 0 to 15, four rows of four:
/// `1 2 3 4`, `q w e r`, `a s d f`, `z x c v`.
pub open spec fn key_layout() -> Seq<char> {
    seq!['1', '2', '3', '4', 'q', 'w', 'e', 'r', 'a', 's', 'd', 'f', 'z', 'x', 'c', 'v']
}

/// `c` with an ASCII capital letter turned into its small letter.
pub open spec fn fold_ascii(c: char) -> char {
    if 'A' <= c <= 'Z' {
        ((c as u32) + 32) as char
    } else {
        c
    }
}

/// The pad key that keyboard key `c` stands for, letters in either case.
pub fn key_index(c: char) -> (r: Option<u8>)
    ensures
        r matches Some(k) ==> k < KEY_COUNT && key_layout()[k as int] == fold_ascii(c),
        r is None ==> forall|k: int| 0 <= k < KEY_COUNT ==> key_layout()[k] != fold_ascii(c),
{
    let lower = if 'A' <= c && c <= 'Z' {
        ((c as u32) + 32) as u8 as char
    } else {
        c
    };
    let layout = ['1', '2', '3', '4', 'q', 'w', 'e', 'r', 'a', 's', 'd', 'f', 'z', 'x', 'c', 'v'];
    assert(layout@ =~= key_layout());
    let mut k: usize = 0;
    while k < KEY_COUNT
        invariant
            k <= KEY_COUNT,
            layout@ == key_layout(),
            lower == fold_ascii(c),
            forall|j: int| 0 <= j < k ==> key_layout()[j] != lower,
        decreases KEY_COUNT - k,
    {
        if layout[k] == lower {
            return Some(k as u8);
        }
        k += 1;
    }
    None
}

/// The state of each key: held or not.
pub struct Keypad {
    keys: [bool; KEY_COUNT],
}

impl View for Keypad {
    type V = Seq<bool>;

    closed spec fn view(&self) -> Seq<bool> {
        self.keys@
    }
}

/// No key held.
pub open spec fn released() -> Seq<bool> {
    Seq::new(KEY_COUNT as nat, |i: int| false)
}

impl Keypad {
    /// A pad has one state per key.
    pub broadcast proof fn lemma_len(k: &Keypad)
        ensures
            #[trigger] k@.len() == KEY_COUNT,
    {
    }

    /// A pad with no key held.
    pub fn new() -> (k: Keypad)
        ensures
            k@ == released(),
    {
        let k = Keypad { keys: [false; KEY_COUNT] };
        assert(k@ =~= released());
        k
    }

    pub fn is_pressed(&self, key: u8) -> (r: bool)
        requires
            key < KEY_COUNT,
        ensures
            r == self@[key as int],
    {
        self.keys[key as usize]
    }

    /// Records that key `index` went down or up.
    pub fn set(&mut self, index: u8, down: bool)
        requires
            index < KEY_COUNT,
        ensures
            final(self)@ == old(self)@.update(index as int, down),
    {
        self.keys[index as usize] = down;
    }

    /// Releases every key.
    pub fn reset(&mut self)
        ensures
            final(self)@ == released(),
    {
        *self = Keypad::new();
    }

    /// The lowest-numbered key that is held, if any.
    pub fn get_pressed_key(&self) -> (r: Option<u8>)
        ensures
            r == lowest_pressed(self@),
    {
        let mut i: usize = 0;
        while i < KEY_COUNT
            invariant
                i <= KEY_COUNT,
                forall|j: int| 0 <= j < i ==> !self@[j],
            decreases KEY_COUNT - i,
        {
            if self.keys[i] {
                proof {
                    assert(is_lowest_pressed(self@, i as int));
                    let k = choose|k: int| is_lowest_pressed(self@, k);
                    lemma_lowest_unique(self@, i as int, k);
                }
                return Some(i as u8);
            }
            i += 1;
        }
        assert(!exists|k: int| is_lowest_pressed(self@, k));
        None
    }

    /// The lowest-numbered key that is held, if any; the same query as
    /// `get_pressed_key`.
    pub fn get_pressed(&self) -> (r: Option<u8>)
        ensures
            r == lowest_pressed(self@),
    {
        self.get_pressed_key()
    }
}

} // verus!
