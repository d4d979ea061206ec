//! The sixteen-key input device: one pressed/released flag per logical key.

use vstd::prelude::*;

verus! {

/// Pressed/released state for the sixteen logical keys 0x0..=0xF.
///
/// The driver mutates this state from input events; the interpreter reads
/// it for the skip-if-pressed instructions and wait-for-key resolution.
pub struct Keypad {
    keys: Vec<bool>,
}

impl View for Keypad {
    type V = Seq<bool>;

    closed spec fn view(&self) -> Seq<bool> {
        self.keys@
    }
}

impl Keypad {
    /// A keypad always holds exactly sixteen key flags.
    pub open spec fn wf(&self) -> bool {
        self@.len() == 16
    }

    /// Creates a keypad with every key released.
    pub fn new() -> (r: Keypad)
        ensures
            r.wf(),
            forall|k: int| 0 <= k < 16 ==> !r@[k],
    {
        let mut keys: Vec<bool> = Vec::new();
        let mut n: usize = 0;
        while n < 16
            invariant
                keys@.len() == n,
                n <= 16,
                forall|k: int| 0 <= k < n ==> !keys@[k],
            decreases 16 - n,
        {
            keys.push(false);
            n = n + 1;
        }
        Keypad { keys }
    }

    /// Reads the pressed state of one key.
    pub fn get_key_state(&self, index: usize) -> (r: bool)
        requires
            self.wf(),
            index < 16,
        ensures
            r == self@[index as int],
    {
        self.keys[index]
    }

    /// Sets the pressed state of one key; no other key changes.
    pub fn set_key_state(&mut self, index: usize, state: bool)
        requires
            old(self).wf(),
            index < 16,
        ensures
            final(self).wf(),
            final(self)@ == old(self)@.update(index as int, state),
    {
        self.keys.set(index, state);
    }
}

} // verus!
