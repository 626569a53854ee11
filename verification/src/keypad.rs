use vstd::prelude::*;

verus! {

/// Number of keys on the CHIP-8 hexadecimal keypad.
pub const KEY_COUNT: usize = 16;

/// The state of the sixteen CHIP-8 keys, `true` meaning held down.
pub struct Keypad {
    keys: [bool; 16],
}

impl View for Keypad {
    type V = Seq<bool>;

    closed spec fn view(&self) -> Seq<bool> {
        self.keys@
    }
}

impl Keypad {
    /// A keypad with every key released.
    pub fn new() -> (k: Self)
        ensures
            k@.len() == KEY_COUNT,
            forall|i: int| 0 <= i < KEY_COUNT ==> !#[trigger] k@[i],
    {
        Self { keys: [false; 16] }
    }

    /// Length of the model: always sixteen keys.
    pub proof fn lemma_len(&self)
        ensures
            self@.len() == KEY_COUNT,
    {
    }

    /// Whether key `idx` is held down.
    pub fn is_pressed(&self, idx: usize) -> (b: bool)
        requires
            idx < KEY_COUNT,
        ensures
            b == self@[idx as int],
    {
        self.keys[idx]
    }

    /// Marks key `idx` as held down.
    pub fn press(&mut self, idx: usize)
        requires
            idx < KEY_COUNT,
        ensures
            final(self)@ == old(self)@.update(idx as int, true),
    {
        self.keys[idx] = true;
    }

    /// Marks key `idx` as released.
    pub fn release(&mut self, idx: usize)
        requires
            idx < KEY_COUNT,
        ensures
            final(self)@ == old(self)@.update(idx as int, false),
    {
        self.keys[idx] = false;
    }

    /// Sets every key at once: key `i` is held down exactly when
    /// `pressed[i]` holds.
    pub fn set_keys(&mut self, pressed: &[bool; 16])
        ensures
            final(self)@ == pressed@,
    {
        let mut i: usize = 0;
        while i < KEY_COUNT
            invariant
                i <= KEY_COUNT,
                self@.len() == KEY_COUNT,
                forall|k: int| 0 <= k < i ==> #[trigger] self@[k] == pressed@[k],
            decreases KEY_COUNT - i,
        {
            if pressed[i] {
                self.press(i);
            } else {
                self.release(i);
            }
            i += 1;
        }
        assert(self@ =~= pressed@);
    }
}

} // verus!
