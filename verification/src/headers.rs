//! An ordered header map: header names to values, insertion order kept,
//! one value per name, setting an existing name replacing its value in
//! place.

use vstd::prelude::*;
use crate::assoc::{assoc_find, assoc_set, assoc_set_all, lemma_assoc_set_append,
    lemma_assoc_set_prefix};
use crate::text::string_eq_str;

verus! {

/// An insertion-ordered mapping from header name to header value.
pub struct Headers {
    entries: Vec<(String, String)>,
}

impl View for Headers {
    type V = Seq<(Seq<char>, Seq<char>)>;

    closed spec fn view(&self) -> Seq<(Seq<char>, Seq<char>)> {
        self.entries.deep_view()
    }
}

impl Headers {
    /// Constructs an empty header map.
    pub fn new() -> (r: Headers)
        ensures
            r@ == Seq::<(Seq<char>, Seq<char>)>::empty(),
    {
        let r = Headers { entries: Vec::new() };
        proof {
            assert(r@ =~= Seq::<(Seq<char>, Seq<char>)>::empty());
        }
        r
    }

    /// The number of headers.
    pub fn len(&self) -> (n: usize)
        ensures
            n == self@.len(),
    {
        self.entries.len()
    }

    /// The name and value at a position, in insertion order.
    pub fn entry(&self, i: usize) -> (r: (&String, &String))
        requires
            i < self@.len(),
        ensures
            r.0@ == self@[i as int].0,
            r.1@ == self@[i as int].1,
    {
        (&self.entries[i].0, &self.entries[i].1)
    }

    /// Sets the value of a header, replacing any earlier value for the name.
    pub fn insert(&mut self, name: &str, value: &str)
        ensures
            final(self)@ == assoc_set(old(self)@, name@, value@),
    {
        let mut i: usize = 0;
        let n = self.entries.len();
        while i < n
            invariant
                i <= n,
                n == self.entries@.len(),
                *self == *old(self),
                forall|j: int| 0 <= j < i ==> self@[j].0 != name@,
            decreases n - i,
        {
            if string_eq_str(&self.entries[i].0, name) {
                let ghost pre = self@;
                let owned_name = name.to_owned();
                let owned_value = value.to_owned();
                let _ = self.entries.remove(i);
                self.entries.insert(i, (owned_name, owned_value));
                proof {
                    assert(self@ =~= pre.update(i as int, (name@, value@)));
                    lemma_assoc_set_prefix(pre, name@, value@, i as int);
                }
                return ;
            }
            i = i + 1;
        }
        self.entries.push((name.to_owned(), value.to_owned()));
        proof {
            assert(self@ =~= old(self)@.push((name@, value@)));
            lemma_assoc_set_append(old(self)@, name@, value@);
        }
    }

    /// Looks a header up by name.
    pub fn get(&self, name: &str) -> (r: Option<&String>)
        ensures
            match r {
                Some(v) => assoc_find(self@, name@) == Some(v@),
                None => assoc_find(self@, name@) is None,
            },
    {
        let n = self.entries.len();
        let mut i: usize = 0;
        proof {
            assert(self@.skip(0) =~= self@);
        }
        while i < n
            invariant
                i <= n,
                n == self.entries@.len(),
                assoc_find(self@, name@) == assoc_find(self@.skip(i as int), name@),
            decreases n - i,
        {
            proof {
                assert(self@.skip(i as int).drop_first() =~= self@.skip(i + 1));
                assert(self@.skip(i as int)[0] == self@[i as int]);
            }
            if string_eq_str(&self.entries[i].0, name) {
                return Some(&self.entries[i].1);
            }
            i = i + 1;
        }
        proof {
            assert(self@.skip(n as int) =~= Seq::<(Seq<char>, Seq<char>)>::empty());
        }
        None
    }

    /// Sets every header of the other map into this one, in the other's
    /// order.
    pub fn extend(&mut self, other: &Headers)
        ensures
            final(self)@ == assoc_set_all(old(self)@, other@),
    {
        let n = other.entries.len();
        let mut i: usize = 0;
        proof {
            assert(other@.skip(0) =~= other@);
        }
        while i < n
            invariant
                i <= n,
                n == other@.len(),
                assoc_set_all(old(self)@, other@) == assoc_set_all(self@, other@.skip(i as int)),
            decreases n - i,
        {
            proof {
                assert(other@.skip(i as int).drop_first() =~= other@.skip(i + 1));
                assert(other@.skip(i as int)[0] == other@[i as int]);
            }
            let (name, value) = other.entry(i);
            let name_copy = name.clone();
            let value_copy = value.clone();
            self.insert(name_copy.as_str(), value_copy.as_str());
            i = i + 1;
        }
        proof {
            assert(other@.skip(n as int) =~= Seq::<(Seq<char>, Seq<char>)>::empty());
        }
    }
}

} // verus!
