//! The sixteen-key hexadecimal keypad, as a snapshot of which keys are
//! down.
//!
//! The machine only ever reads it; whoever polls the real keys writes it.
use vstd::prelude::*;

verus! {

/// Number of keys; their codes are `0..16`.
pub const KEY_COUNT: usize = 16;

/// Whether the key `code` is down in the snapshot `keys`.
///
/// A code that names no key is never down.
pub open spec fn key_down(keys: Seq<bool>, code: u8) -> bool {
    code < KEY_COUNT && keys[code as int]
}

/// The lowest code from `from` upwards whose key is down, if there is one.
pub open spec fn lowest_key_down_from(keys: Seq<bool>, from: u8) -> Option<u8>
    decreases KEY_COUNT - from,
{
    if from >= KEY_COUNT {
        None
    } else if keys[from as int] {
        Some(from)
    } else {
        lowest_key_down_from(keys, (from + 1) as u8)
    }
}

/// The lowest code whose key is down, if any key is down.
pub open spec fn lowest_key_down(keys: Seq<bool>) -> Option<u8> {
    lowest_key_down_from(keys, 0)
}

/// `lowest_key_down_from` finds a key that is down, skips none that is, and
/// finds nothing only where no key is down.
pub proof fn lemma_lowest_key_down_from(keys: Seq<bool>, from: u8)
    ensures
        match lowest_key_down_from(keys, from) {
            Some(code) => from <= code && key_down(keys, code) && forall|c: u8|
                from <= c < code ==> !key_down(keys, c),
            None => forall|c: u8| from <= c ==> !key_down(keys, c),
        },
    decreases KEY_COUNT - from,
{
    if from < KEY_COUNT && !keys[from as int] {
        lemma_lowest_key_down_from(keys, (from + 1) as u8);
    }
}

/// A snapshot of the keypad.
#[derive(Clone, Copy, Debug, PartialEq, Eq)]
pub struct Keyboard {
    keys: [bool; KEY_COUNT],
}

impl View for Keyboard {
    type V = Seq<bool>;

    /// One flag per key, indexed by key code; `true` means down.
    open spec fn view(&self) -> Seq<bool> {
        Seq::new(KEY_COUNT as nat, |code: int| self.key_at(code))
    }
}

impl Keyboard {
    /// Whether the key `code` is down.
    pub closed spec fn key_at(&self, code: int) -> bool {
        self.keys@[code]
    }

    /// The keypad with every key up.
    pub closed spec fn all_up() -> Keyboard {
        Keyboard { keys: [false; KEY_COUNT] }
    }

    /// A keypad is what its view says: two with equal views are equal.
    pub proof fn lemma_view_decides(&self, other: &Keyboard)
        requires
            self@ == other@,
        ensures
            *self == *other,
    {
        assert forall|c: int| 0 <= c < KEY_COUNT implies self.keys[c] == other.keys[c] by {
            assert(self@[c] == self.key_at(c));
            assert(other@[c] == other.key_at(c));
        }
        assert(self.keys =~= other.keys);
    }

    /// Builds a keypad with every key up.
    pub fn new() -> (k: Self)
        ensures
            k == Keyboard::all_up(),
            k@ == Seq::new(KEY_COUNT as nat, |c: int| false),
    {
        let k = Keyboard { keys: [false; KEY_COUNT] };
        assert(k@ =~= Seq::new(KEY_COUNT as nat, |c: int| false));
        k
    }

    /// Records that the key `code` went down or up.
    ///
    /// A code that names no key is ignored.
    pub fn set_key(&mut self, code: u8, down: bool)
        ensures
            final(self)@ == if code < KEY_COUNT {
                old(self)@.update(code as int, down)
            } else {
                old(self)@
            },
    {
        if (code as usize) < KEY_COUNT {
            self.keys[code as usize] = down;
        }
    }

    /// Whether the key `code` is down.
    pub fn is_key_down(&self, code: u8) -> (down: bool)
        ensures
            down == key_down(self@, code),
    {
        (code as usize) < KEY_COUNT && self.keys[code as usize]
    }

    /// The lowest code whose key is down, or `None` where every key is up.
    pub fn first_key_down(&self) -> (found: Option<u8>)
        ensures
            found == lowest_key_down(self@),
    {
        let mut code: u8 = 0;
        while (code as usize) < KEY_COUNT
            invariant
                code <= KEY_COUNT,
                lowest_key_down(self@) == lowest_key_down_from(self@, code),
            decreases KEY_COUNT - code,
        {
            if self.keys[code as usize] {
                return Some(code);
            }
            code += 1;
        }
        None
    }
}

} // verus!
