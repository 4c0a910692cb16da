use vstd::prelude::*;

verus! {

/// A key as the global hook reports it. The keys of the trigger chord have
/// variants of their own; every other key carries an opaque code.
#[derive(Clone, Copy, Debug, PartialEq, Eq, Structural)]
pub enum Key {
    ControlLeft,
    Alt,
    KeyN,
    Other(u32),
}

/// A raw event of the global key hook.
#[derive(Clone, Copy, Debug, PartialEq, Eq, Structural)]
pub enum KeyEvent {
    Press(Key),
    Release(Key),
}

/// Whether a set of held keys covers the trigger chord, Control+Alt+N.
pub open spec fn covers_chord(held: Set<Key>) -> bool {
    held.contains(Key::ControlLeft) && held.contains(Key::Alt) && held.contains(Key::KeyN)
}

/// Tracks which keys are held down and decides when the trigger chord fires.
/// It is owned by the thread that receives the hook's events.
pub struct ChordListener {
    pressed: Vec<Key>,
}

impl ChordListener {
    /// The keys held down, in the order they went down.
    pub closed spec fn held_seq(&self) -> Seq<Key> {
        self.pressed@
    }

    /// The set of keys held down.
    pub open spec fn held(&self) -> Set<Key> {
        self.held_seq().to_set()
    }

    /// No key is recorded twice.
    pub open spec fn wf(&self) -> bool {
        self.held_seq().no_duplicates()
    }

    /// A listener with no key held.
    pub fn new() -> (r: ChordListener)
        ensures
            r.wf(),
            r.held() == Set::<Key>::empty(),
    {
        let r = ChordListener { pressed: Vec::new() };
        assert(r.held() =~= Set::<Key>::empty());
        r
    }

    /// Whether key `k` is held down.
    pub fn is_held(&self, k: Key) -> (r: bool)
        ensures
            r == self.held().contains(k),
    {
        match self.position(k) {
            Some(_) => true,
            None => false,
        }
    }

    fn position(&self, k: Key) -> (r: Option<usize>)
        ensures
            r matches Some(i) ==> i < self.pressed@.len() && self.pressed@[i as int] == k,
            r is None ==> !self.pressed@.contains(k),
    {
        let mut i: usize = 0;
        while i < self.pressed.len()
            invariant
                i <= self.pressed@.len(),
                forall|j: int| 0 <= j < i ==> self.pressed@[j] != k,
            decreases self.pressed@.len() - i,
        {
            if self.pressed[i] == k {
                return Some(i);
            }
            i = i + 1;
        }
        None
    }

    /// Records that `k` went down. Returns whether the chord fires: only on a
    /// press of a key that was not already held (auto-repeat of a held key
    /// never fires), when the held keys then cover the chord.
    pub fn press(&mut self, k: Key) -> (fire: bool)
        requires
            old(self).wf(),
        ensures
            final(self).wf(),
            final(self).held() == old(self).held().insert(k),
            fire == (!old(self).held().contains(k) && covers_chord(final(self).held())),
    {
        match self.position(k) {
            Some(_) => {
                assert(self.held().insert(k) =~= self.held());
                false
            },
            None => {
                self.pressed.push(k);
                proof {
                    let s = old(self).held_seq();
                    assert(self.held_seq() == s.push(k));
                    assert forall|a: int, b: int|
                        0 <= a < b < self.held_seq().len() implies self.held_seq()[a]
                        != self.held_seq()[b] by {
                        if b == s.len() {
                            assert(s[a] == self.held_seq()[a]);
                        }
                    }
                    assert forall|x: Key| self.held_seq().contains(x) <==> (s.contains(x) || x
                        == k) by {
                        if s.contains(x) {
                            let j = choose|j: int| 0 <= j < s.len() && s[j] == x;
                            assert(self.held_seq()[j] == x);
                        }
                        if x == k {
                            assert(self.held_seq()[s.len() as int] == x);
                        }
                        if self.held_seq().contains(x) {
                            let j = choose|j: int| 0 <= j < self.held_seq().len() && self.held_seq()[j] == x;
                            if j < s.len() {
                                assert(s[j] == x);
                            }
                        }
                    }
                    assert(self.held() =~= old(self).held().insert(k));
                }
                let c = self.is_held(Key::ControlLeft);
                let a = self.is_held(Key::Alt);
                let n = self.is_held(Key::KeyN);
                c && a && n
            },
        }
    }

    /// Records that `k` went up.
    pub fn release(&mut self, k: Key)
        requires
            old(self).wf(),
        ensures
            final(self).wf(),
            final(self).held() == old(self).held().remove(k),
    {
        match self.position(k) {
            Some(i) => {
                let ghost s = self.held_seq();
                self.pressed.remove(i);
                proof {
                    let t = self.held_seq();
                    assert(t == s.remove(i as int));
                    assert forall|a: int, b: int|
                        0 <= a < b < t.len() implies t[a] != t[b] by {
                        let a2 = if a < i { a } else { a + 1 };
                        let b2 = if b < i { b } else { b + 1 };
                        assert(t[a] == s[a2]);
                        assert(t[b] == s[b2]);
                    }
                    assert forall|x: Key| self.held().contains(x) <==> old(self).held().remove(
                        k,
                    ).contains(x) by {
                        if x != k && s.contains(x) {
                            let j = choose|j: int| 0 <= j < s.len() && s[j] == x;
                            assert(j != i);
                            let j2 = if j < i { j } else { j - 1 };
                            assert(t[j2] == x);
                        }
                        if t.contains(x) {
                            let j = choose|j: int| 0 <= j < t.len() && t[j] == x;
                            let j2 = if j < i { j } else { j + 1 };
                            assert(s[j2] == x);
                            assert(j2 != i);
                        }
                    }
                    assert(self.held() =~= old(self).held().remove(k));
                }
            },
            None => {
                assert(self.held().remove(k) =~= self.held());
            },
        }
    }

    /// Handles one raw event of the hook; returns whether the chord fires.
    pub fn handle(&mut self, ev: KeyEvent) -> (fire: bool)
        requires
            old(self).wf(),
        ensures
            final(self).wf(),
            match ev {
                KeyEvent::Press(k) => {
                    &&& final(self).held() == old(self).held().insert(k)
                    &&& fire == (!old(self).held().contains(k) && covers_chord(final(self).held()))
                },
                KeyEvent::Release(k) => {
                    &&& final(self).held() == old(self).held().remove(k)
                    &&& !fire
                },
            },
    {
        match ev {
            KeyEvent::Press(k) => self.press(k),
            KeyEvent::Release(k) => {
                self.release(k);
                false
            },
        }
    }
}

} // verus!
