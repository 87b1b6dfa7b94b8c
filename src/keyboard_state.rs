//! Which keys are held down, by key code.
use vstd::prelude::*;

verus! {

/// Whether a key went down or came up.
#[derive(Clone, Copy, PartialEq, Eq, Structural)]
pub enum KeyState {
    Pressed,
    Released,
}

/// The set of keys currently held down.
pub struct KeyboardState {
    pressed: Vec<u32>,
}

impl View for KeyboardState {
    type V = Set<u32>;

    closed spec fn view(&self) -> Set<u32> {
        self.pressed@.to_set()
    }
}

impl KeyboardState {
    /// No key code is listed twice.
    pub closed spec fn wf(&self) -> bool {
        self.pressed@.no_duplicates()
    }

    /// No key is held down.
    pub fn new() -> (r: Self)
        ensures
            r.wf(),
            r@ == Set::<u32>::empty(),
    {
        let r = Self { pressed: Vec::new() };
        assert(r@ =~= Set::<u32>::empty());
        r
    }

    /// Position of `key` in the list, if it is there.
    fn position(&self, key: u32) -> (r: Option<usize>)
        ensures
            r matches Some(i) ==> i < self.pressed@.len() && self.pressed@[i as int] == key,
            r is None ==> !self.pressed@.contains(key),
    {
        let mut i: usize = 0;
        while i < self.pressed.len()
            invariant
                i <= self.pressed@.len(),
                forall|j: int| 0 <= j < i ==> self.pressed@[j] != key,
            decreases self.pressed@.len() - i,
        {
            if self.pressed[i] == key {
                return Some(i);
            }
            i = i + 1;
        }
        None
    }

    /// The key is held down.
    pub fn is_pressed(&self, key: u32) -> (r: bool)
        ensures
            r == self@.contains(key),
    {
        self.position(key).is_some()
    }

    /// Records that `code` went down or came up.
    pub fn process_event(&mut self, key_state: KeyState, code: u32)
        requires
            old(self).wf(),
        ensures
            final(self).wf(),
            key_state == KeyState::Pressed ==> final(self)@ == old(self)@.insert(code),
            key_state == KeyState::Released ==> final(self)@ == old(self)@.remove(code),
    {
        let ghost before = self.pressed@;
        match key_state {
            KeyState::Pressed => {
                match self.position(code) {
                    Some(_) => {
                        assert(self@ =~= old(self)@.insert(code));
                    },
                    None => {
                        self.pressed.push(code);
                        let ghost after = self.pressed@;
                        assert(after == before.push(code));
                        assert forall|a: u32| after.contains(a) <==> before.contains(a) || a == code by {
                            if after.contains(a) {
                                let j = choose|j: int| 0 <= j < after.len() && after[j] == a;
                                if j < before.len() {
                                    assert(before[j] == a);
                                }
                            }
                            if before.contains(a) {
                                let j = choose|j: int| 0 <= j < before.len() && before[j] == a;
                                assert(after[j] == a);
                            }
                            if a == code {
                                assert(after[before.len() as int] == a);
                            }
                        }
                        assert(self@ =~= old(self)@.insert(code));
                    },
                }
            },
            KeyState::Released => {
                match self.position(code) {
                    Some(i) => {
                        self.pressed.remove(i);
                        let ghost after = self.pressed@;
                        assert(after == before.remove(i as int));
                        assert forall|a: u32| after.contains(a) <==> before.contains(a) && a != code by {
                            if after.contains(a) {
                                let j = choose|j: int| 0 <= j < after.len() && after[j] == a;
                                if j < i {
                                    assert(before[j] == a);
                                } else {
                                    assert(before[j + 1] == a);
                                }
                            }
                            if before.contains(a) && a != code {
                                let j = choose|j: int| 0 <= j < before.len() && before[j] == a;
                                if j < i {
                                    assert(after[j] == a);
                                } else {
                                    assert(after[j - 1] == a);
                                }
                            }
                        }
                        assert(self@ =~= old(self)@.remove(code));
                    },
                    None => {
                        assert(self@ =~= old(self)@.remove(code));
                    },
                }
            },
        }
    }
}

} // verus!
