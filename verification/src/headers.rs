//! The request's header multimap: ordered, case-insensitive names,
//! insertion order preserved for repeats of the same name. The map is
//! read-only after the context is built; this type only needs appends
//! and ordered lookup.
use vstd::prelude::*;

use crate::strutil::{seq_eq_ci, str_eq_ci};

verus! {

/// An ordered list of `(name, value)` header entries.
pub struct HeaderList {
    entries: Vec<(String, String)>,
}

impl View for HeaderList {
    type V = Seq<(Seq<char>, Seq<char>)>;

    closed spec fn view(&self) -> Seq<(Seq<char>, Seq<char>)> {
        Seq::new(self.entries@.len(), |i: int| (self.entries@[i].0@, self.entries@[i].1@))
    }
}

/// The values of every entry whose name equals `key` up to ASCII case,
/// in entry order.
pub open spec fn values_for(entries: Seq<(Seq<char>, Seq<char>)>, key: Seq<char>) -> Seq<Seq<char>>
    decreases entries.len(),
{
    if entries.len() == 0 {
        Seq::empty()
    } else {
        let rest = values_for(entries.skip(1), key);
        if seq_eq_ci(entries[0].0, key) {
            seq![entries[0].1] + rest
        } else {
            rest
        }
    }
}

/// The first value for `key`, if the map has one.
pub open spec fn first_value_spec(entries: Seq<(Seq<char>, Seq<char>)>, key: Seq<char>) -> Option<
    Seq<char>,
> {
    if values_for(entries, key).len() > 0 {
        Some(values_for(entries, key)[0])
    } else {
        None
    }
}

impl HeaderList {
    pub fn new() -> (r: HeaderList)
        ensures
            r@ == Seq::<(Seq<char>, Seq<char>)>::empty(),
    {
        let r = HeaderList { entries: Vec::new() };
        proof {
            assert(r@ =~= Seq::<(Seq<char>, Seq<char>)>::empty());
        }
        r
    }

    /// Append one entry; repeats of a name keep their insertion order.
    pub fn add(&mut self, name: String, value: String)
        ensures
            final(self)@ == old(self)@.push((name@, value@)),
    {
        let ghost before = self@;
        self.entries.push((name, value));
        proof {
            assert(self@ =~= before.push((self.entries@.last().0@, self.entries@.last().1@)));
        }
    }

    pub fn len(&self) -> (r: usize)
        ensures
            r == self@.len(),
    {
        self.entries.len()
    }

    pub fn name_at(&self, i: usize) -> (r: &String)
        requires
            i < self@.len(),
        ensures
            r@ == self@[i as int].0,
    {
        &self.entries[i].0
    }

    pub fn value_at(&self, i: usize) -> (r: &String)
        requires
            i < self@.len(),
        ensures
            r@ == self@[i as int].1,
    {
        &self.entries[i].1
    }

    fn values_from(&self, i: usize, key: &str) -> (r: Vec<String>)
        requires
            i <= self@.len(),
        ensures
            r@.len() == values_for(self@.skip(i as int), key@).len(),
            forall|j: int|
                0 <= j < r@.len() ==> r@[j]@ == values_for(self@.skip(i as int), key@)[j],
        decreases self@.len() - i,
    {
        if i == self.entries.len() {
            let r: Vec<String> = Vec::new();
            proof {
                assert(self@.skip(i as int) =~= Seq::<(Seq<char>, Seq<char>)>::empty());
            }
            r
        } else {
            let mut rest = self.values_from(i + 1, key);
            proof {
                assert(self@.skip(i as int).skip(1) =~= self@.skip(i as int + 1));
                assert(self@.skip(i as int)[0] == self@[i as int]);
            }
            if str_eq_ci(self.entries[i].0.as_str(), key) {
                let v = self.entries[i].1.clone();
                rest.insert(0, v);
            }
            rest
        }
    }

    /// All values stored under `key` (ASCII case-insensitive), in order.
    pub fn get_all(&self, key: &str) -> (r: Vec<String>)
        ensures
            r@.len() == values_for(self@, key@).len(),
            forall|j: int| 0 <= j < r@.len() ==> r@[j]@ == values_for(self@, key@)[j],
    {
        let r = self.values_from(0, key);
        proof {
            assert(self@.skip(0) =~= self@);
        }
        r
    }

    /// The first value stored under `key`, if any.
    pub fn first_value(&self, key: &str) -> (r: Option<String>)
        ensures
            match r {
                Some(v) => first_value_spec(self@, key@) == Some(v@),
                None => first_value_spec(self@, key@) is None,
            },
    {
        let mut all = self.get_all(key);
        if all.len() > 0 {
            Some(all.remove(0))
        } else {
            None
        }
    }
}

} // verus!
