use vstd::prelude::*;

verus! {

/// The keys that steer the player. Any other key is of no interest to the controller.
#[derive(Clone, Copy, Debug, PartialEq, Eq, Structural, Hash)]
pub enum Key {
    W,
    A,
    S,
    D,
    Space,
    LShift,
}

/// The set of keys held down at the moment, without duplicates.
pub struct KeySet {
    keys: Vec<Key>,
}

impl View for KeySet {
    type V = Set<Key>;

    closed spec fn view(&self) -> Set<Key> {
        Set::new(|k: Key| self.keys@.contains(k))
    }
}

/// The set of held keys after a key goes down (`pressed`) or up.
pub open spec fn key_step(keys: Set<Key>, key: Key, pressed: bool) -> Set<Key> {
    if pressed {
        keys.insert(key)
    } else {
        keys.remove(key)
    }
}

impl KeySet {
    /// Each key is stored at most once.
    pub closed spec fn wf(&self) -> bool {
        self.keys@.no_duplicates()
    }

    pub fn new() -> (r: KeySet)
        ensures
            r.wf(),
            r@ == Set::<Key>::empty(),
    {
        let r = KeySet { keys: Vec::new() };
        assert(r@ =~= Set::<Key>::empty());
        r
    }

    fn index_of(&self, key: Key) -> (r: Option<usize>)
        ensures
            match r {
                Some(i) => i < self.keys@.len() && self.keys@[i as int] == key,
                None => !self.keys@.contains(key),
            },
    {
        let mut i: usize = 0;
        while i < self.keys.len()
            invariant
                i <= self.keys@.len(),
                forall|j: int| 0 <= j < i ==> self.keys@[j] != key,
            decreases self.keys@.len() - i,
        {
            if self.keys[i] == key {
                return Some(i);
            }
            i = i + 1;
        }
        None
    }

    /// Whether `key` is held.
    pub fn contains(&self, key: Key) -> (r: bool)
        ensures
            r == self@.contains(key),
    {
        match self.index_of(key) {
            Some(i) => {
                assert(self.keys@.contains(key));
                true
            },
            None => false,
        }
    }

    /// Records that `key` went down; holding it already changes nothing.
    pub fn insert(&mut self, key: Key)
        requires
            old(self).wf(),
        ensures
            final(self).wf(),
            final(self)@ == old(self)@.insert(key),
    {
        if self.index_of(key).is_none() {
            let ghost before = self.keys@;
            self.keys.push(key);
            assert(self.keys@ == before.push(key));
            assert forall|k: Key| #[trigger] self.keys@.contains(k) <==> (before.contains(k) || k == key) by {
                if self.keys@.contains(k) {
                    let j = choose|j: int| 0 <= j < self.keys@.len() && self.keys@[j] == k;
                    if j < before.len() {
                        assert(before[j] == k);
                    }
                }
                if before.contains(k) {
                    let j = choose|j: int| 0 <= j < before.len() && before[j] == k;
                    assert(self.keys@[j] == k);
                }
                if k == key {
                    assert(self.keys@[before.len() as int] == k);
                }
            }
        }
        assert(self@ =~= old(self)@.insert(key));
    }

    /// Records that `key` went up; a key that was not held changes nothing.
    pub fn remove(&mut self, key: Key)
        requires
            old(self).wf(),
        ensures
            final(self).wf(),
            final(self)@ == old(self)@.remove(key),
    {
        match self.index_of(key) {
            Some(i) => {
                let ghost before = self.keys@;
                self.keys.remove(i);
                assert(self.keys@ == before.remove(i as int));
                assert forall|k: Key| #[trigger] self.keys@.contains(k) <==> (before.contains(k) && k != key) by {
                    if self.keys@.contains(k) {
                        let j = choose|j: int| 0 <= j < self.keys@.len() && self.keys@[j] == k;
                        if j < i {
                            assert(before[j] == k);
                        } else {
                            assert(before[j + 1] == k);
                        }
                    }
                    if before.contains(k) && k != key {
                        let j = choose|j: int| 0 <= j < before.len() && before[j] == k;
                        if j < i {
                            assert(self.keys@[j] == k);
                        } else {
                            assert(self.keys@[j - 1] == k);
                        }
                    }
                }
            },
            None => {},
        }
        assert(self@ =~= old(self)@.remove(key));
    }

    /// Applies a key going down (`pressed`) or up.
    pub fn record(&mut self, key: Key, pressed: bool)
        requires
            old(self).wf(),
        ensures
            final(self).wf(),
            final(self)@ == key_step(old(self)@, key, pressed),
    {
        if pressed {
            self.insert(key);
        } else {
            self.remove(key);
        }
    }
}

/// A key pressed and then released is no longer held, and releasing a key
/// that is not held leaves the set as it was.
pub proof fn lemma_press_then_release(keys: Set<Key>, key: Key)
    ensures
        !key_step(key_step(keys, key, true), key, false).contains(key),
        !keys.contains(key) ==> key_step(keys, key, false) == keys,
{
    if !keys.contains(key) {
        assert(keys.remove(key) =~= keys);
    }
}

} // verus!
