//! The capture set: the ordered mapping from parameter name to matched
//! substring that the recognizer builds for one request.

use vstd::prelude::*;
use crate::assoc::{assoc_find, assoc_has, assoc_set, lemma_assoc_set_append, lemma_assoc_set_prefix};
use crate::text::string_eq_str;

verus! {

/// An ordered mapping from parameter name to the substring it captured.
/// Keys are unique; setting an existing key replaces its value in place.
#[derive(Debug)]
pub struct Capture {
    entries: Vec<(String, String)>,
}

impl View for Capture {
    type V = Seq<(Seq<char>, Seq<char>)>;

    closed spec fn view(&self) -> Seq<(Seq<char>, Seq<char>)> {
        self.entries.deep_view()
    }
}

impl Capture {
    /// Constructs an empty capture set.
    pub fn new() -> (r: Capture)
        ensures
            r@ == Seq::<(Seq<char>, Seq<char>)>::empty(),
    {
        let r = Capture { entries: Vec::new() };
        proof {
            assert(r@ =~= Seq::<(Seq<char>, Seq<char>)>::empty());
        }
        r
    }

    /// The number of captured parameters.
    pub fn len(&self) -> (n: usize)
        ensures
            n == self@.len(),
    {
        self.entries.len()
    }

    /// Sets the value of the key, replacing any earlier value for it.
    pub fn set(&mut self, key: &str, value: &str)
        ensures
            final(self)@ == assoc_set(old(self)@, key@, value@),
    {
        let mut i: usize = 0;
        let n = self.entries.len();
        while i < n
            invariant
                i <= n,
                n == self.entries@.len(),
                *self == *old(self),
                forall|j: int| 0 <= j < i ==> self@[j].0 != key@,
            decreases n - i,
        {
            if string_eq_str(&self.entries[i].0, key) {
                let ghost pre = self@;
                let owned_key = key.to_owned();
                let owned_value = value.to_owned();
                let _ = self.entries.remove(i);
                self.entries.insert(i, (owned_key, owned_value));
                proof {
                    assert(self@ =~= pre.update(i as int, (key@, value@)));
                    lemma_assoc_set_prefix(pre, key@, value@, i as int);
                }
                return ;
            }
            i = i + 1;
        }
        self.entries.push((key.to_owned(), value.to_owned()));
        proof {
            assert(self@ =~= old(self)@.push((key@, value@)));
            lemma_assoc_set_append(old(self)@, key@, value@);
        }
    }

    /// Looks the key up: the captured substring, if the key was captured.
    pub fn try_get(&self, key: &str) -> (r: Option<&String>)
        ensures
            match r {
                Some(v) => assoc_find(self@, key@) == Some(v@),
                None => assoc_find(self@, key@) is None,
            },
    {
        let n = self.entries.len();
        let mut i: usize = 0;
        proof {
            assert(self@.skip(0) =~= self@);
        }
        while i < n
            invariant
                i <= n,
                n == self.entries@.len(),
                assoc_find(self@, key@) == assoc_find(self@.skip(i as int), key@),
            decreases n - i,
        {
            proof {
                assert(self@.skip(i as int).drop_first() =~= self@.skip(i + 1));
                assert(self@.skip(i as int)[0] == self@[i as int]);
            }
            if string_eq_str(&self.entries[i].0, key) {
                return Some(&self.entries[i].1);
            }
            i = i + 1;
        }
        proof {
            assert(self@.skip(n as int) =~= Seq::<(Seq<char>, Seq<char>)>::empty());
        }
        None
    }

    /// Looks the key up; the key must have been captured.
    pub fn get(&self, key: &str) -> (r: &String)
        requires
            assoc_has(self@, key@),
        ensures
            assoc_find(self@, key@) == Some(r@),
    {
        proof {
            crate::assoc::lemma_assoc_find_has(self@, key@);
        }
        match self.try_get(key) {
            Some(v) => v,
            None => {
                proof {
                    assert(false);
                }
                unreached()
            },
        }
    }
}


impl Default for Capture {
    /// An empty capture set, as `new` builds one.
    fn default() -> (r: Capture)
        ensures
            r@ == Seq::<(Seq<char>, Seq<char>)>::empty(),
    {
        Capture::new()
    }
}

} // verus!
