//! The query map derived from the raw query string: the string is
//! decoded as `application/x-www-form-urlencoded` pairs by the
//! `form_urlencoded` crate, and duplicate keys resolve to the last
//! occurrence.
use vstd::prelude::*;

use crate::strutil::str_eq;

verus! {

/// What `form_urlencoded::parse` yields on a query string: the decoded
/// `(name, value)` pairs in order. The result is a function of the
/// characters alone.
pub uninterp spec fn form_pairs_of(s: Seq<char>) -> Seq<(Seq<char>, Seq<char>)>;

/// Relies on `form_urlencoded::parse`: decodes a query string into
/// percent-decoded `(name, value)` pairs, in order of occurrence.
#[verifier::external_body]
fn parse_form_pairs(s: &str) -> (r: Vec<(String, String)>)
    ensures
        r@.len() == form_pairs_of(s@).len(),
        forall|i: int| 0 <= i < r@.len() ==> (r@[i].0@, r@[i].1@) == form_pairs_of(s@)[i],
{
    form_urlencoded::parse(s.as_bytes()).into_owned().collect()
}

/// The mapping a pair list denotes when the last occurrence of a key wins.
pub open spec fn pairs_map(pairs: Seq<(Seq<char>, Seq<char>)>) -> Map<Seq<char>, Seq<char>>
    decreases pairs.len(),
{
    if pairs.len() == 0 {
        Map::empty()
    } else {
        pairs_map(pairs.drop_last()).insert(pairs.last().0, pairs.last().1)
    }
}

/// The views of a list of owned string pairs.
pub open spec fn pair_views(s: Seq<(String, String)>) -> Seq<(Seq<char>, Seq<char>)> {
    Seq::new(s.len(), |i: int| (s[i].0@, s[i].1@))
}

/// A decoded query string: a mapping from decoded key to decoded value,
/// duplicate keys resolved to the last occurrence.
pub struct QueryMap {
    entries: Vec<(String, String)>,
}

impl View for QueryMap {
    type V = Map<Seq<char>, Seq<char>>;

    closed spec fn view(&self) -> Map<Seq<char>, Seq<char>> {
        pairs_map(pair_views(self.entries@))
    }
}

impl QueryMap {
    /// Wrap an ordered pair list; later pairs shadow earlier ones.
    pub fn from_pairs(pairs: Vec<(String, String)>) -> (r: QueryMap)
        ensures
            r@ == pairs_map(pair_views(pairs@)),
    {
        QueryMap { entries: pairs }
    }

    fn get_back<'a>(&'a self, i: usize, key: &str) -> (r: Option<&'a String>)
        requires
            i <= self.entries@.len(),
        ensures
            match r {
                Some(v) => pairs_map(pair_views(self.entries@).take(i as int)).contains_key(key@)
                    && pairs_map(pair_views(self.entries@).take(i as int))[key@] == v@,
                None => !pairs_map(pair_views(self.entries@).take(i as int)).contains_key(key@),
            },
        decreases i,
    {
        if i == 0 {
            proof {
                assert(pair_views(self.entries@).take(0) =~= Seq::<(Seq<char>, Seq<char>)>::empty());
            }
            None
        } else {
            proof {
                assert(pair_views(self.entries@).take(i as int).drop_last() =~= pair_views(
                    self.entries@,
                ).take(i as int - 1));
                assert(pair_views(self.entries@).take(i as int).last() == (
                    self.entries@[i as int - 1].0@,
                    self.entries@[i as int - 1].1@,
                ));
            }
            if str_eq(self.entries[i - 1].0.as_str(), key) {
                Some(&self.entries[i - 1].1)
            } else {
                self.get_back(i - 1, key)
            }
        }
    }

    /// Look up a decoded key; the value of its last occurrence, if any.
    pub fn get<'a>(&'a self, key: &str) -> (r: Option<&'a String>)
        ensures
            match r {
                Some(v) => self@.contains_key(key@) && self@[key@] == v@,
                None => !self@.contains_key(key@),
            },
    {
        let n = self.entries.len();
        proof {
            assert(pair_views(self.entries@).take(n as int) =~= pair_views(self.entries@));
        }
        self.get_back(n, key)
    }

    /// Whether the map has no entries at all.
    pub fn is_empty(&self) -> (r: bool)
        ensures
            r == (self@.dom() =~= Set::<Seq<char>>::empty()),
    {
        let r = self.entries.len() == 0;
        proof {
            if self.entries@.len() == 0 {
                assert(pair_views(self.entries@).len() == 0);
                assert(self@.dom() =~= Set::<Seq<char>>::empty());
            } else {
                assert(pair_views(self.entries@).len() == self.entries@.len());
                assert(self@.contains_key(pair_views(self.entries@).last().0));
            }
        }
        r
    }
}

impl Clone for QueryMap {
    /// A copy denoting the same mapping.
    fn clone(&self) -> (r: Self)
        ensures
            r@ == self@,
    {
        let mut entries: Vec<(String, String)> = Vec::new();
        let mut i: usize = 0;
        while i < self.entries.len()
            invariant
                0 <= i <= self.entries@.len(),
                entries@.len() == i,
                forall|j: int|
                    0 <= j < i ==> entries@[j].0@ == self.entries@[j].0@ && entries@[j].1@
                        == self.entries@[j].1@,
            decreases self.entries@.len() - i,
        {
            let k = self.entries[i].0.clone();
            let v = self.entries[i].1.clone();
            entries.push((k, v));
            i += 1;
        }
        let r = QueryMap { entries };
        proof {
            assert(pair_views(r.entries@) =~= pair_views(self.entries@));
        }
        r
    }
}

/// Decode a raw query string into its query map.
pub fn parse_query(s: &str) -> (r: QueryMap)
    ensures
        r@ == pairs_map(form_pairs_of(s@)),
{
    let pairs = parse_form_pairs(s);
    let ghost pv = pair_views(pairs@);
    let r = QueryMap::from_pairs(pairs);
    proof {
        assert(pv =~= form_pairs_of(s@));
    }
    r
}

} // verus!
