//! The input latch: sixteen boolean key flags, driven by press/release
//! calls from the embedding driver and read by the key-query instructions.
//!
//! The physical keys are arranged logically in a 4x4 grid:
//!
//! ```text
//! 1 2 3 C
//! 4 5 6 D
//! 7 8 9 E
//! A 0 B F
//! ```

use vstd::prelude::*;

verus! {

/// Number of keys in the latch.
pub const KEY_COUNT: usize = 16;

/// The lowest-numbered pressed key at or above index `i`, if any.
pub open spec fn spec_first_pressed_from(keys: Seq<bool>, i: int) -> Option<u8>
    decreases 16 - i,
{
    if i < 0 || i >= 16 {
        None
    } else if keys[i] {
        Some(i as u8)
    } else {
        spec_first_pressed_from(keys, i + 1)
    }
}

/// The lowest-numbered pressed key, if any key is pressed.
pub open spec fn spec_first_pressed(keys: Seq<bool>) -> Option<u8> {
    spec_first_pressed_from(keys, 0)
}

/// With no key pressed at or above `i`, the scan from `i` finds nothing.
pub proof fn lemma_first_pressed_none(keys: Seq<bool>, i: int)
    requires
        0 <= i <= 16,
        forall|k: int| i <= k < 16 ==> !keys[k],
    ensures
        spec_first_pressed_from(keys, i) == None::<u8>,
    decreases 16 - i,
{
    if i < 16 {
        lemma_first_pressed_none(keys, i + 1);
    }
}

/// With `k` the lowest pressed key at or above `i`, the scan from `i`
/// finds exactly `k`.
pub proof fn lemma_first_pressed_at(keys: Seq<bool>, i: int, k: int)
    requires
        0 <= i <= k < 16,
        keys[k],
        forall|j: int| i <= j < k ==> !keys[j],
    ensures
        spec_first_pressed_from(keys, i) == Some(k as u8),
    decreases k - i,
{
    if i < k {
        lemma_first_pressed_at(keys, i + 1, k);
    }
}

/// The sixteen-key latch.  Its view is the sequence of key states,
/// indexed by key number; `true` means pressed.
pub struct Keyboard {
    keys: Vec<bool>,
}

impl View for Keyboard {
    type V = Seq<bool>;

    closed spec fn view(&self) -> Seq<bool> {
        self.keys@
    }
}

impl Keyboard {
    /// A keyboard always holds exactly one flag per key.
    pub open spec fn wf(&self) -> bool {
        self@.len() == 16
    }

    /// A fresh latch with no key pressed.
    pub fn new() -> (k: Keyboard)
        ensures
            k.wf(),
            forall|j: int| 0 <= j < 16 ==> !k@[j],
    {
        let mut keys: Vec<bool> = Vec::new();
        let mut i: usize = 0;
        while i < KEY_COUNT
            invariant
                i <= 16,
                keys@.len() == i,
                forall|j: int| 0 <= j < i ==> !keys@[j],
            decreases 16 - i,
        {
            keys.push(false);
            i = i + 1;
        }
        Keyboard { keys }
    }

    /// Whether key `n` is currently latched as pressed.
    pub fn is_pressed(&self, n: usize) -> (r: bool)
        requires
            self.wf(),
            n < 16,
        ensures
            r == self@[n as int],
    {
        self.keys[n]
    }

    /// The lowest-numbered pressed key, scanning keys 0 through 15, or
    /// `None` when no key is pressed.
    pub fn get_pressed(&self) -> (r: Option<u8>)
        requires
            self.wf(),
        ensures
            r == spec_first_pressed(self@),
            match r {
                Some(k) => k < 16 && self@[k as int] && forall|j: int| 0 <= j < k ==> !self@[j],
                None => forall|j: int| 0 <= j < 16 ==> !self@[j],
            },
    {
        let mut i: usize = 0;
        while i < KEY_COUNT
            invariant
                self.wf(),
                i <= 16,
                spec_first_pressed(self@) == spec_first_pressed_from(self@, i as int),
                forall|j: int| 0 <= j < i ==> !self@[j],
            decreases 16 - i,
        {
            if self.is_pressed(i) {
                return Some(i as u8);
            }
            i = i + 1;
        }
        None
    }

    /// Latches key `n` as pressed.
    pub fn press(&mut self, n: usize)
        requires
            old(self).wf(),
            n < 16,
        ensures
            final(self).wf(),
            final(self)@ == old(self)@.update(n as int, true),
    {
        self.keys[n] = true
    }

    /// Latches key `n` as released.
    pub fn release(&mut self, n: usize)
        requires
            old(self).wf(),
            n < 16,
        ensures
            final(self).wf(),
            final(self)@ == old(self)@.update(n as int, false),
    {
        self.keys[n] = false
    }
}

} // verus!
