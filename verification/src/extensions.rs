//! The per-request property bag for arbitrary user-attached data: a
//! mapping from a caller-chosen numeric tag to an opaque byte value.
//! The built-in derived values (query map, cookie list, connection
//! info) have dedicated slots on the context and do not live here.
use vstd::prelude::*;

verus! {

/// The mapping a tagged-entry list denotes when the last write wins.
pub open spec fn ext_map(pairs: Seq<(u64, Seq<u8>)>) -> Map<u64, Seq<u8>>
    decreases pairs.len(),
{
    if pairs.len() == 0 {
        Map::empty()
    } else {
        ext_map(pairs.drop_last()).insert(pairs.last().0, pairs.last().1)
    }
}

/// The views of a list of tagged byte values.
pub open spec fn ext_views(s: Seq<(u64, Vec<u8>)>) -> Seq<(u64, Seq<u8>)> {
    Seq::new(s.len(), |i: int| (s[i].0, s[i].1@))
}

fn copy_bytes(v: &Vec<u8>) -> (r: Vec<u8>)
    ensures
        r@ == v@,
{
    let mut r: Vec<u8> = Vec::new();
    let mut i: usize = 0;
    while i < v.len()
        invariant
            0 <= i <= v@.len(),
            r@ == v@.take(i as int),
        decreases v@.len() - i,
    {
        r.push(v[i]);
        proof {
            assert(v@.take(i + 1) =~= v@.take(i as int).push(v@[i as int]));
        }
        i += 1;
    }
    proof {
        assert(v@.take(v@.len() as int) =~= v@);
    }
    r
}

/// The property bag: tag-to-bytes entries, later writes shadowing
/// earlier ones.
pub struct Extensions {
    entries: Vec<(u64, Vec<u8>)>,
}

impl View for Extensions {
    type V = Map<u64, Seq<u8>>;

    closed spec fn view(&self) -> Map<u64, Seq<u8>> {
        ext_map(ext_views(self.entries@))
    }
}

impl Extensions {
    pub fn new() -> (r: Extensions)
        ensures
            r@ == Map::<u64, Seq<u8>>::empty(),
    {
        let r = Extensions { entries: Vec::new() };
        proof {
            assert(ext_views(r.entries@) =~= Seq::<(u64, Seq<u8>)>::empty());
        }
        r
    }

    /// Store a value under `tag`, shadowing any earlier value.
    pub fn insert(&mut self, tag: u64, value: Vec<u8>)
        ensures
            final(self)@ == old(self)@.insert(tag, value@),
    {
        let ghost before = ext_views(self.entries@);
        self.entries.push((tag, value));
        proof {
            assert(ext_views(self.entries@).drop_last() =~= before);
            assert(ext_views(self.entries@).last() == (
                self.entries@.last().0,
                self.entries@.last().1@,
            ));
        }
    }

    fn get_back<'a>(&'a self, i: usize, tag: u64) -> (r: Option<&'a Vec<u8>>)
        requires
            i <= self.entries@.len(),
        ensures
            match r {
                Some(v) => ext_map(ext_views(self.entries@).take(i as int)).contains_key(tag)
                    && ext_map(ext_views(self.entries@).take(i as int))[tag] == v@,
                None => !ext_map(ext_views(self.entries@).take(i as int)).contains_key(tag),
            },
        decreases i,
    {
        if i == 0 {
            proof {
                assert(ext_views(self.entries@).take(0) =~= Seq::<(u64, Seq<u8>)>::empty());
            }
            None
        } else {
            proof {
                assert(ext_views(self.entries@).take(i as int).drop_last() =~= ext_views(
                    self.entries@,
                ).take(i as int - 1));
                assert(ext_views(self.entries@).take(i as int).last() == (
                    self.entries@[i as int - 1].0,
                    self.entries@[i as int - 1].1@,
                ));
            }
            if self.entries[i - 1].0 == tag {
                Some(&self.entries[i - 1].1)
            } else {
                self.get_back(i - 1, tag)
            }
        }
    }

    /// Read the value stored under `tag`, if any.
    pub fn get<'a>(&'a self, tag: u64) -> (r: Option<&'a Vec<u8>>)
        ensures
            match r {
                Some(v) => self@.contains_key(tag) && self@[tag] == v@,
                None => !self@.contains_key(tag),
            },
    {
        let n = self.entries.len();
        proof {
            assert(ext_views(self.entries@).take(n as int) =~= ext_views(self.entries@));
        }
        self.get_back(n, tag)
    }

    /// Whether a value is stored under `tag`.
    pub fn contains(&self, tag: u64) -> (r: bool)
        ensures
            r == self@.contains_key(tag),
    {
        match self.get(tag) {
            Some(_) => true,
            None => false,
        }
    }
}

impl Clone for Extensions {
    /// A copy denoting the same mapping.
    fn clone(&self) -> (r: Self)
        ensures
            r@ == self@,
    {
        let mut entries: Vec<(u64, Vec<u8>)> = Vec::new();
        let mut i: usize = 0;
        while i < self.entries.len()
            invariant
                0 <= i <= self.entries@.len(),
                entries@.len() == i,
                forall|j: int|
                    0 <= j < i ==> entries@[j].0 == self.entries@[j].0 && entries@[j].1@
                        == self.entries@[j].1@,
            decreases self.entries@.len() - i,
        {
            let tag = self.entries[i].0;
            let value = copy_bytes(&self.entries[i].1);
            entries.push((tag, value));
            i += 1;
        }
        let r = Extensions { entries };
        proof {
            assert(ext_views(r.entries@) =~= ext_views(self.entries@));
        }
        r
    }
}

} // verus!
