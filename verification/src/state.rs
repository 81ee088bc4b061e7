//! The shared state registry: a type-keyed store built before the server
//! starts serving and read-only afterwards. A key stands for a distinct
//! state type; its value is a handle to the opaque boxed value that the
//! boundary layer keeps. At most one value per key: setting a key again
//! replaces the earlier value in place.

use vstd::prelude::*;
use crate::assoc::{assoc_find, assoc_has, assoc_set, lemma_assoc_set_append,
    lemma_assoc_set_prefix};

verus! {

/// The type-keyed registry of shared state handles.
pub struct State {
    entries: Vec<(u64, u64)>,
}

impl View for State {
    type V = Seq<(u64, u64)>;

    closed spec fn view(&self) -> Seq<(u64, u64)> {
        self.entries@
    }
}

impl State {
    /// Constructs an empty registry.
    pub fn new() -> (r: State)
        ensures
            r@ == Seq::<(u64, u64)>::empty(),
    {
        State { entries: Vec::new() }
    }

    /// The number of stored values.
    pub fn len(&self) -> (n: usize)
        ensures
            n == self@.len(),
    {
        self.entries.len()
    }

    /// The key and value at a position, in insertion order.
    pub fn entry(&self, i: usize) -> (r: (u64, u64))
        requires
            i < self@.len(),
        ensures
            r == self@[i as int],
    {
        (self.entries[i].0, self.entries[i].1)
    }

    /// Sets the value of a type key, replacing any earlier value for it.
    pub fn set(&mut self, key: u64, value: u64)
        ensures
            final(self)@ == assoc_set(old(self)@, key, value),
    {
        let mut i: usize = 0;
        let n = self.entries.len();
        while i < n
            invariant
                i <= n,
                n == self.entries@.len(),
                *self == *old(self),
                forall|j: int| 0 <= j < i ==> self@[j].0 != key,
            decreases n - i,
        {
            if self.entries[i].0 == key {
                let ghost pre = self@;
                let _ = self.entries.remove(i);
                self.entries.insert(i, (key, value));
                proof {
                    assert(self@ =~= pre.update(i as int, (key, value)));
                    lemma_assoc_set_prefix(pre, key, value, i as int);
                }
                return ;
            }
            i = i + 1;
        }
        self.entries.push((key, value));
        proof {
            assert(self@ =~= old(self)@.push((key, value)));
            lemma_assoc_set_append(old(self)@, key, value);
        }
    }

    /// Looks a type key up: the handle, if a value was stored for the key.
    pub fn try_get(&self, key: u64) -> (r: Option<u64>)
        ensures
            r == assoc_find(self@, key),
    {
        let n = self.entries.len();
        let mut i: usize = 0;
        proof {
            assert(self@.skip(0) =~= self@);
        }
        while i < n
            invariant
                i <= n,
                n == self.entries@.len(),
                assoc_find(self@, key) == assoc_find(self@.skip(i as int), key),
            decreases n - i,
        {
            proof {
                assert(self@.skip(i as int).drop_first() =~= self@.skip(i + 1));
                assert(self@.skip(i as int)[0] == self@[i as int]);
            }
            if self.entries[i].0 == key {
                return Some(self.entries[i].1);
            }
            i = i + 1;
        }
        proof {
            assert(self@.skip(n as int) =~= Seq::<(u64, u64)>::empty());
        }
        None
    }

    /// Looks a type key up; a value must have been stored for it.
    pub fn get(&self, key: u64) -> (r: u64)
        requires
            assoc_has(self@, key),
        ensures
            assoc_find(self@, key) == Some(r),
    {
        proof {
            crate::assoc::lemma_assoc_find_has(self@, key);
        }
        match self.try_get(key) {
            Some(v) => v,
            None => {
                proof {
                    assert(false);
                }
                unreached()
            },
        }
    }
}


impl Default for State {
    /// An empty registry, as `new` builds one.
    fn default() -> (r: State)
        ensures
            r@ == Seq::<(u64, u64)>::empty(),
    {
        State::new()
    }
}

} // verus!
