//! Decoding of `Cookie` headers into owned name/value entries.
//!
//! Each header value is split on `;`; segments are trimmed, empty
//! segments are dropped, and every remaining segment must decode as a
//! percent-encoded `name=value` pair. One malformed segment fails the
//! whole parse, identifying that segment. Decoding a single segment is
//! done by the `cookie` crate.
use vstd::prelude::*;
use vstd::string::StrSliceExecFns;

use crate::error::CookieParseError;
use crate::strutil::{find_char, find_char_in, lemma_find_char, trim, trim_exec};

verus! {

/// One parsed cookie: owned name and value, independent of the header
/// bytes they were decoded from.
#[derive(Debug)]
pub struct CookieEntry {
    name: String,
    value: String,
}

impl View for CookieEntry {
    type V = (Seq<char>, Seq<char>);

    closed spec fn view(&self) -> (Seq<char>, Seq<char>) {
        (self.name@, self.value@)
    }
}

impl CookieEntry {
    /// The cookie's name.
    pub fn name(&self) -> (r: &str)
        ensures
            r@ == self@.0,
    {
        self.name.as_str()
    }

    /// The cookie's value.
    pub fn value(&self) -> (r: &str)
        ensures
            r@ == self@.1,
    {
        self.value.as_str()
    }
}

impl Clone for CookieEntry {
    /// A copy denoting the same name and value.
    fn clone(&self) -> (r: Self)
        ensures
            r@ == self@,
    {
        CookieEntry { name: self.name.clone(), value: self.value.clone() }
    }
}

/// What `cookie::Cookie::parse_encoded` yields on one trimmed segment:
/// the percent-decoded name/value pair, or nothing when the segment is
/// not a valid cookie pair. The result is a function of the characters
/// alone.
pub uninterp spec fn cookie_pair_of(s: Seq<char>) -> Option<(Seq<char>, Seq<char>)>;

/// Relies on `cookie::Cookie::parse_encoded`: decodes one `name=value`
/// segment, percent-decoding both fields, which `name()` and `value()`
/// then return; a segment it cannot parse is an error.
#[verifier::external_body]
fn parse_cookie_segment(s: &str) -> (r: Option<(String, String)>)
    ensures
        match r {
            Some(p) => cookie_pair_of(s@) == Some((p.0@, p.1@)),
            None => cookie_pair_of(s@) is None,
        },
{
    match cookie::Cookie::parse_encoded(s) {
        Ok(c) => Some((c.name().to_string(), c.value().to_string())),
        Err(_) => None,
    }
}

/// The entries contributed by one trimmed segment: none for an empty
/// segment, one for a valid pair, an error naming the segment otherwise.
pub open spec fn seg_result(t: Seq<char>) -> Result<Seq<(Seq<char>, Seq<char>)>, Seq<char>> {
    if t.len() == 0 {
        Ok(Seq::empty())
    } else {
        match cookie_pair_of(t) {
            Some(p) => Ok(seq![p]),
            None => Err(t),
        }
    }
}

/// One header value split on `;`, segments kept verbatim (untrimmed).
pub open spec fn split_semis(s: Seq<char>) -> Seq<Seq<char>>
    decreases s.len(),
{
    match find_char(s, ';') {
        None => seq![s],
        Some(j) => if 0 <= j < s.len() {
            seq![s.take(j)] + split_semis(s.skip(j + 1))
        } else {
            seq![s]
        },
    }
}

/// Left-to-right parse of a list of raw segments; the first malformed
/// segment wins.
pub open spec fn parse_segments(segs: Seq<Seq<char>>) -> Result<
    Seq<(Seq<char>, Seq<char>)>,
    Seq<char>,
>
    decreases segs.len(),
{
    if segs.len() == 0 {
        Ok(Seq::empty())
    } else {
        match seg_result(trim(segs[0])) {
            Err(e) => Err(e),
            Ok(part) => match parse_segments(segs.skip(1)) {
                Err(e) => Err(e),
                Ok(rest) => Ok(part + rest),
            },
        }
    }
}

/// The cookie pairs of one `Cookie` header value, in left-to-right order.
pub open spec fn parse_header_value(s: Seq<char>) -> Result<
    Seq<(Seq<char>, Seq<char>)>,
    Seq<char>,
> {
    parse_segments(split_semis(s))
}

/// The cookie pairs of all `Cookie` header values, in header order.
pub open spec fn parse_cookie_headers(vals: Seq<Seq<char>>) -> Result<
    Seq<(Seq<char>, Seq<char>)>,
    Seq<char>,
>
    decreases vals.len(),
{
    if vals.len() == 0 {
        Ok(Seq::empty())
    } else {
        match parse_header_value(vals[0]) {
            Err(e) => Err(e),
            Ok(part) => match parse_cookie_headers(vals.skip(1)) {
                Err(e) => Err(e),
                Ok(rest) => Ok(part + rest),
            },
        }
    }
}

/// The views of a list of parsed entries.
pub open spec fn entry_views(v: Seq<CookieEntry>) -> Seq<(Seq<char>, Seq<char>)> {
    Seq::new(v.len(), |i: int| v[i]@)
}

fn parse_header_value_exec(s: &str) -> (r: Result<Vec<CookieEntry>, CookieParseError>)
    ensures
        match r {
            Ok(v) => parse_header_value(s@) == Ok::<_, Seq<char>>(entry_views(v@)),
            Err(e) => parse_header_value(s@) == Err::<Seq<(Seq<char>, Seq<char>)>, _>(e.segment@),
        },
    decreases s@.len(),
{
    let n = s.unicode_len();
    match find_char_in(s, ';') {
        None => {
            let t = trim_exec(s);
            proof {
                let segs = split_semis(s@);
                assert(segs == seq![s@]);
                assert(segs[0] == s@);
                assert(segs.skip(1) =~= Seq::<Seq<char>>::empty());
                assert(parse_segments(segs.skip(1)) == Ok::<_, Seq<char>>(Seq::<
                    (Seq<char>, Seq<char>),
                >::empty()));
            }
            if t.unicode_len() == 0 {
                let v: Vec<CookieEntry> = Vec::new();
                proof {
                    assert(seg_result(trim(s@)) == Ok::<_, Seq<char>>(Seq::<
                        (Seq<char>, Seq<char>),
                    >::empty()));
                    assert(Seq::<(Seq<char>, Seq<char>)>::empty() + Seq::<
                        (Seq<char>, Seq<char>),
                    >::empty() =~= entry_views(v@));
                }
                Ok(v)
            } else {
                match parse_cookie_segment(t) {
                    Some(p) => {
                        let mut v: Vec<CookieEntry> = Vec::new();
                        v.push(CookieEntry { name: p.0, value: p.1 });
                        proof {
                            assert(seg_result(trim(s@)) == Ok::<_, Seq<char>>(seq![v@[0]@]));
                            assert(seq![v@[0]@] + Seq::<(Seq<char>, Seq<char>)>::empty()
                                =~= entry_views(v@));
                        }
                        Ok(v)
                    },
                    None => Err(CookieParseError { segment: t.to_owned() }),
                }
            }
        },
        Some(j) => {
            proof {
                lemma_find_char(s@, ';');
            }
            let head = s.substring_char(0, j);
            let rest = s.substring_char(j + 1, n);
            proof {
                assert(head@ == s@.take(j as int));
                assert(rest@ == s@.skip(j + 1));
                assert(split_semis(s@) == seq![s@.take(j as int)] + split_semis(s@.skip(j + 1)));
                assert((seq![s@.take(j as int)] + split_semis(s@.skip(j + 1)))[0] == s@.take(
                    j as int,
                ));
                assert((seq![s@.take(j as int)] + split_semis(s@.skip(j + 1))).skip(1)
                    =~= split_semis(s@.skip(j + 1)));
            }
            let t = trim_exec(head);
            let ghost part_r = seg_result(trim(s@.take(j as int)));
            let mut front: Vec<CookieEntry> = Vec::new();
            if t.unicode_len() != 0 {
                match parse_cookie_segment(t) {
                    Some(p) => {
                        front.push(CookieEntry { name: p.0, value: p.1 });
                        proof {
                            assert(part_r == Ok::<_, Seq<char>>(seq![front@[0]@]));
                            assert(seq![front@[0]@] =~= entry_views(front@));
                        }
                    },
                    None => {
                        return Err(CookieParseError { segment: t.to_owned() });
                    },
                }
            } else {
                proof {
                    assert(part_r == Ok::<_, Seq<char>>(Seq::<(Seq<char>, Seq<char>)>::empty()));
                    assert(Seq::<(Seq<char>, Seq<char>)>::empty() =~= entry_views(front@));
                }
            }
            assert(part_r == Ok::<_, Seq<char>>(entry_views(front@)));
            match parse_header_value_exec(rest) {
                Err(e) => Err(e),
                Ok(mut tail) => {
                    let ghost front0 = front@;
                    let ghost tail0 = tail@;
                    front.append(&mut tail);
                    proof {
                        assert(entry_views(front@) =~= entry_views(front0) + entry_views(tail0));
                        assert(parse_header_value(s@) == parse_segments(split_semis(s@)));
                        assert(parse_segments(split_semis(s@)) == Ok::<_, Seq<char>>(entry_views(
                            front0,
                        ) + entry_views(tail0)));
                    }
                    Ok(front)
                },
            }
        },
    }
}

fn parse_values_from(vals: &Vec<String>, i: usize) -> (r: Result<Vec<CookieEntry>, CookieParseError>)
    requires
        i <= vals@.len(),
    ensures
        match r {
            Ok(v) => parse_cookie_headers(str_views(vals@).skip(i as int)) == Ok::<_, Seq<char>>(
                entry_views(v@),
            ),
            Err(e) => parse_cookie_headers(str_views(vals@).skip(i as int)) == Err::<
                Seq<(Seq<char>, Seq<char>)>,
                _,
            >(e.segment@),
        },
    decreases vals@.len() - i,
{
    if i == vals.len() {
        let v: Vec<CookieEntry> = Vec::new();
        proof {
            assert(str_views(vals@).skip(i as int) =~= Seq::<Seq<char>>::empty());
            assert(entry_views(v@) =~= Seq::<(Seq<char>, Seq<char>)>::empty());
        }
        Ok(v)
    } else {
        proof {
            assert(str_views(vals@).skip(i as int)[0] == vals@[i as int]@);
            assert(str_views(vals@).skip(i as int).skip(1) =~= str_views(vals@).skip(i as int + 1));
        }
        match parse_header_value_exec(vals[i].as_str()) {
            Err(e) => Err(e),
            Ok(mut front) => {
                match parse_values_from(vals, i + 1) {
                    Err(e) => Err(e),
                    Ok(mut tail) => {
                        let ghost front0 = front@;
                        let ghost tail0 = tail@;
                        front.append(&mut tail);
                        proof {
                            assert(entry_views(front@) =~= entry_views(front0) + entry_views(
                                tail0,
                            ));
                        }
                        Ok(front)
                    },
                }
            },
        }
    }
}

/// The views of a list of strings.
pub open spec fn str_views(vs: Seq<String>) -> Seq<Seq<char>> {
    Seq::new(vs.len(), |i: int| vs[i]@)
}

/// Parse every `Cookie` header value, in header order; zero values give
/// an empty list, and any malformed segment fails the whole parse.
pub fn parse_cookie_header_values(vals: &Vec<String>) -> (r: Result<
    Vec<CookieEntry>,
    CookieParseError,
>)
    ensures
        match r {
            Ok(v) => parse_cookie_headers(str_views(vals@)) == Ok::<_, Seq<char>>(entry_views(v@)),
            Err(e) => parse_cookie_headers(str_views(vals@)) == Err::<
                Seq<(Seq<char>, Seq<char>)>,
                _,
            >(e.segment@),
        },
{
    let r = parse_values_from(vals, 0);
    proof {
        assert(str_views(vals@).skip(0) =~= str_views(vals@));
    }
    r
}

/// Zero `Cookie` headers parse to the empty cookie list, never to an
/// error.
pub proof fn lemma_no_cookie_headers(vals: Seq<Seq<char>>)
    requires
        vals.len() == 0,
    ensures
        parse_cookie_headers(vals) == Ok::<_, Seq<char>>(Seq::<(Seq<char>, Seq<char>)>::empty()),
{
}

/// The first parsed cookie whose name equals `name` exactly.
pub open spec fn find_cookie(cs: Seq<(Seq<char>, Seq<char>)>, name: Seq<char>) -> Option<
    (Seq<char>, Seq<char>),
>
    decreases cs.len(),
{
    if cs.len() == 0 {
        None
    } else if cs[0].0 == name {
        Some(cs[0])
    } else {
        find_cookie(cs.skip(1), name)
    }
}

fn find_entry_from(cs: &Vec<CookieEntry>, i: usize, name: &str) -> (r: Option<usize>)
    requires
        i <= cs@.len(),
    ensures
        match r {
            Some(k) => i <= k < cs@.len() && find_cookie(entry_views(cs@).skip(i as int), name@)
                == Some(cs@[k as int]@),
            None => find_cookie(entry_views(cs@).skip(i as int), name@) is None,
        },
    decreases cs@.len() - i,
{
    if i == cs.len() {
        proof {
            assert(entry_views(cs@).skip(i as int) =~= Seq::<(Seq<char>, Seq<char>)>::empty());
        }
        None
    } else {
        proof {
            assert(entry_views(cs@).skip(i as int)[0] == cs@[i as int]@);
            assert(entry_views(cs@).skip(i as int).skip(1) =~= entry_views(cs@).skip(i as int + 1));
        }
        if crate::strutil::str_eq(cs[i].name.as_str(), name) {
            Some(i)
        } else {
            find_entry_from(cs, i + 1, name)
        }
    }
}

/// Linear scan for the first entry whose name matches exactly
/// (case-sensitive); duplicates after the first are not consulted.
pub fn find_entry<'a>(cs: &'a Vec<CookieEntry>, name: &str) -> (r: Option<&'a CookieEntry>)
    ensures
        match r {
            Some(c) => find_cookie(entry_views(cs@), name@) == Some(c@),
            None => find_cookie(entry_views(cs@), name@) is None,
        },
{
    let k = find_entry_from(cs, 0, name);
    proof {
        assert(entry_views(cs@).skip(0) =~= entry_views(cs@));
    }
    match k {
        Some(k) => Some(&cs[k]),
        None => None,
    }
}

/// Copy a parsed cookie list; entries are plain owned strings.
pub fn clone_entries(cs: &Vec<CookieEntry>) -> (r: Vec<CookieEntry>)
    ensures
        entry_views(r@) == entry_views(cs@),
{
    let mut r: Vec<CookieEntry> = Vec::new();
    let mut i: usize = 0;
    while i < cs.len()
        invariant
            0 <= i <= cs@.len(),
            r@.len() == i,
            forall|j: int| 0 <= j < i ==> r@[j]@ == cs@[j]@,
        decreases cs@.len() - i,
    {
        let name = cs[i].name.clone();
        let value = cs[i].value.clone();
        r.push(CookieEntry { name, value });
        i += 1;
    }
    proof {
        assert(entry_views(r@) =~= entry_views(cs@));
    }
    r
}

} // verus!
