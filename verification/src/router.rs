//! Named path templates and URL-path resolution.
//!
//! A template such as `/user/{name}.{ext}` is parsed into literal and
//! variable elements. Resolving a named route substitutes supplied
//! segment values for the variables in order and, for non-external
//! routes, prepends the router's mount prefix.
use vstd::prelude::*;
use vstd::string::{StringExecFns, StrSliceExecFns};

use crate::error::UrlGenerationError;
use crate::cookies::str_views;
use crate::strutil::{find_char, find_char_in, lemma_find_char, str_eq};

verus! {

/// One element of a parsed path template.
pub enum PatternElement {
    /// Literal text, emitted as it stands.
    Lit(String),
    /// A `{identifier}` placeholder, replaced by a supplied value.
    Var(String),
}

/// The mathematical value of a template element.
pub enum ElemV {
    Lit(Seq<char>),
    Var(Seq<char>),
}

impl View for PatternElement {
    type V = ElemV;

    open spec fn view(&self) -> ElemV {
        match self {
            PatternElement::Lit(t) => ElemV::Lit(t@),
            PatternElement::Var(n) => ElemV::Var(n@),
        }
    }
}

/// The views of a list of template elements.
pub open spec fn elem_views(s: Seq<PatternElement>) -> Seq<ElemV> {
    Seq::new(s.len(), |i: int| s[i]@)
}

/// Parse a template into literal and variable elements. Text up to the
/// next `{` is literal; `{name}` is a variable; a `{` that is never
/// closed makes the rest of the template literal.
pub open spec fn parse_template(s: Seq<char>) -> Seq<ElemV>
    decreases s.len(),
{
    if s.len() == 0 {
        Seq::empty()
    } else if s[0] == '{' {
        match find_char(s, '}') {
            Some(k) => if 0 < k < s.len() {
                seq![ElemV::Var(s.subrange(1, k))] + parse_template(s.skip(k + 1))
            } else {
                seq![ElemV::Lit(s)]
            },
            None => seq![ElemV::Lit(s)],
        }
    } else {
        match find_char(s, '{') {
            None => seq![ElemV::Lit(s)],
            Some(j) => if 0 < j < s.len() {
                seq![ElemV::Lit(s.take(j))] + parse_template(s.skip(j))
            } else {
                seq![ElemV::Lit(s)]
            },
        }
    }
}

fn parse_template_exec(s: &str) -> (r: Vec<PatternElement>)
    ensures
        elem_views(r@) == parse_template(s@),
    decreases s@.len(),
{
    let n = s.unicode_len();
    if n == 0 {
        let r: Vec<PatternElement> = Vec::new();
        proof {
            assert(elem_views(r@) =~= parse_template(s@));
        }
        r
    } else if s.get_char(0) == '{' {
        match find_char_in(s, '}') {
            Some(k) => {
                proof {
                    lemma_find_char(s@, '}');
                }
                let name = s.substring_char(1, k);
                let tail = s.substring_char(k + 1, n);
                proof {
                    assert(name@ == s@.subrange(1, k as int));
                    assert(tail@ == s@.skip(k + 1));
                }
                let mut v: Vec<PatternElement> = Vec::new();
                v.push(PatternElement::Var(name.to_owned()));
                let ghost front = v@;
                let mut rest = parse_template_exec(tail);
                let ghost rest0 = rest@;
                v.append(&mut rest);
                proof {
                    assert(elem_views(v@) =~= seq![ElemV::Var(s@.subrange(1, k as int))]
                        + elem_views(rest0));
                }
                v
            },
            None => {
                let mut v: Vec<PatternElement> = Vec::new();
                v.push(PatternElement::Lit(s.to_owned()));
                proof {
                    assert(elem_views(v@) =~= seq![ElemV::Lit(s@)]);
                }
                v
            },
        }
    } else {
        match find_char_in(s, '{') {
            None => {
                let mut v: Vec<PatternElement> = Vec::new();
                v.push(PatternElement::Lit(s.to_owned()));
                proof {
                    assert(elem_views(v@) =~= seq![ElemV::Lit(s@)]);
                }
                v
            },
            Some(j) => {
                proof {
                    lemma_find_char(s@, '{');
                }
                let lit = s.substring_char(0, j);
                let tail = s.substring_char(j, n);
                proof {
                    assert(lit@ == s@.take(j as int));
                    assert(tail@ == s@.skip(j as int));
                }
                let mut v: Vec<PatternElement> = Vec::new();
                v.push(PatternElement::Lit(lit.to_owned()));
                let mut rest = parse_template_exec(tail);
                let ghost rest0 = rest@;
                v.append(&mut rest);
                proof {
                    assert(elem_views(v@) =~= seq![ElemV::Lit(s@.take(j as int))] + elem_views(
                        rest0,
                    ));
                }
                v
            },
        }
    }
}

/// How many variables a template has.
pub open spec fn var_count(elems: Seq<ElemV>) -> nat
    decreases elems.len(),
{
    if elems.len() == 0 {
        0
    } else {
        match elems[0] {
            ElemV::Var(_) => 1 + var_count(elems.skip(1)),
            ElemV::Lit(_) => var_count(elems.skip(1)),
        }
    }
}

/// Substitute segment values for the variables, left to right. `None`
/// means fewer values were supplied than the template requires; extra
/// values are ignored.
pub open spec fn resolve_elems(elems: Seq<ElemV>, vals: Seq<Seq<char>>) -> Option<Seq<char>>
    decreases elems.len(),
{
    if elems.len() == 0 {
        Some(Seq::empty())
    } else {
        match elems[0] {
            ElemV::Lit(t) => match resolve_elems(elems.skip(1), vals) {
                None => None,
                Some(rest) => Some(t + rest),
            },
            ElemV::Var(_) => if vals.len() == 0 {
                None
            } else {
                match resolve_elems(elems.skip(1), vals.skip(1)) {
                    None => None,
                    Some(rest) => Some(vals[0] + rest),
                }
            },
        }
    }
}

fn resolve_from(elems: &Vec<PatternElement>, i: usize, vals: &Vec<String>, j: usize) -> (r: Option<
    String,
>)
    requires
        i <= elems@.len(),
        j <= vals@.len(),
    ensures
        match r {
            Some(s) => resolve_elems(elem_views(elems@).skip(i as int), str_views(vals@).skip(
                j as int,
            )) == Some(s@),
            None => resolve_elems(elem_views(elems@).skip(i as int), str_views(vals@).skip(j as int))
                is None,
        },
    decreases elems@.len() - i,
{
    if i == elems.len() {
        proof {
            assert(elem_views(elems@).skip(i as int) =~= Seq::<ElemV>::empty());
        }
        Some(String::new())
    } else {
        proof {
            assert(elem_views(elems@).skip(i as int)[0] == elems@[i as int]@);
            assert(elem_views(elems@).skip(i as int).skip(1) =~= elem_views(elems@).skip(
                i as int + 1,
            ));
        }
        match &elems[i] {
            PatternElement::Lit(t) => {
                match resolve_from(elems, i + 1, vals, j) {
                    None => None,
                    Some(rest) => {
                        let mut out = t.clone();
                        out.append(rest.as_str());
                        Some(out)
                    },
                }
            },
            PatternElement::Var(_) => {
                if j == vals.len() {
                    proof {
                        assert(str_views(vals@).skip(j as int) =~= Seq::<Seq<char>>::empty());
                    }
                    None
                } else {
                    proof {
                        assert(str_views(vals@).skip(j as int)[0] == vals@[j as int]@);
                        assert(str_views(vals@).skip(j as int).skip(1) =~= str_views(vals@).skip(
                            j as int + 1,
                        ));
                    }
                    match resolve_from(elems, i + 1, vals, j + 1) {
                        None => None,
                        Some(rest) => {
                            let mut out = vals[j].clone();
                            out.append(rest.as_str());
                            Some(out)
                        },
                    }
                }
            },
        }
    }
}

/// A template without variables resolves the same whatever segment
/// values are supplied: substitution never consults them.
pub proof fn lemma_resolve_no_vars(elems: Seq<ElemV>, vals: Seq<Seq<char>>)
    requires
        var_count(elems) == 0,
    ensures
        resolve_elems(elems, vals) == resolve_elems(elems, Seq::<Seq<char>>::empty()),
    decreases elems.len(),
{
    if elems.len() > 0 {
        match elems[0] {
            ElemV::Lit(_) => {
                lemma_resolve_no_vars(elems.skip(1), vals);
            },
            ElemV::Var(_) => {
                assert(var_count(elems) >= 1);
            },
        }
    }
}

/// The mathematical value of a named route.
pub struct ResourceV {
    pub name: Seq<char>,
    pub pattern: Seq<char>,
    pub external: bool,
}

/// A named route: a path template under a name, either mounted on this
/// application or externally registered (already absolute).
pub struct Resource {
    name: String,
    pattern: String,
    elements: Vec<PatternElement>,
    external: bool,
}

impl View for Resource {
    type V = ResourceV;

    closed spec fn view(&self) -> ResourceV {
        ResourceV { name: self.name@, pattern: self.pattern@, external: self.external }
    }
}

impl Resource {
    /// The stored elements are the parse of the stored pattern.
    pub closed spec fn inv(&self) -> bool {
        elem_views(self.elements@) == parse_template(self.pattern@)
    }

    /// A route mounted on this application.
    pub fn new(name: &str, pattern: &str) -> (r: Resource)
        ensures
            r@ == (ResourceV { name: name@, pattern: pattern@, external: false }),
            r.inv(),
    {
        let elements = parse_template_exec(pattern);
        Resource { name: name.to_owned(), pattern: pattern.to_owned(), elements, external: false }
    }

    /// An externally registered route; its resolved value is returned
    /// without prefix or scheme/host substitution.
    pub fn external(name: &str, pattern: &str) -> (r: Resource)
        ensures
            r@ == (ResourceV { name: name@, pattern: pattern@, external: true }),
            r.inv(),
    {
        let elements = parse_template_exec(pattern);
        Resource { name: name.to_owned(), pattern: pattern.to_owned(), elements, external: true }
    }

    /// The route's name.
    pub fn name(&self) -> (r: &str)
        ensures
            r@ == self@.name,
    {
        self.name.as_str()
    }

    /// The route's template text.
    pub fn pattern(&self) -> (r: &str)
        ensures
            r@ == self@.pattern,
    {
        self.pattern.as_str()
    }
}

/// The views of a list of routes.
pub open spec fn resource_views(s: Seq<Resource>) -> Seq<ResourceV> {
    Seq::new(s.len(), |i: int| s[i]@)
}

/// The first route carrying `name`, if any.
pub open spec fn find_resource(rs: Seq<ResourceV>, name: Seq<char>) -> Option<ResourceV>
    decreases rs.len(),
{
    if rs.len() == 0 {
        None
    } else if rs[0].name == name {
        Some(rs[0])
    } else {
        find_resource(rs.skip(1), name)
    }
}

/// `prefix` with its trailing `/` separators removed.
pub open spec fn trim_slashes(s: Seq<char>) -> Seq<char>
    decreases s.len(),
{
    if s.len() > 0 && s[s.len() - 1] == '/' {
        trim_slashes(s.take(s.len() - 1))
    } else {
        s
    }
}

fn trim_slashes_exec(s: &str) -> (r: &str)
    ensures
        r@ == trim_slashes(s@),
    decreases s@.len(),
{
    let n = s.unicode_len();
    if n > 0 && s.get_char(n - 1) == '/' {
        let rest = s.substring_char(0, n - 1);
        assert(rest@ == s@.take(s@.len() - 1));
        trim_slashes_exec(rest)
    } else {
        s
    }
}

/// A resolved path joined onto the mount prefix; a missing leading `/`
/// is supplied.
pub open spec fn combine(prefix: Seq<char>, path: Seq<char>) -> Seq<char> {
    if path.len() > 0 && path[0] == '/' {
        prefix + path
    } else {
        prefix + "/"@ + path
    }
}

fn combine_exec(prefix: &str, path: &String) -> (r: String)
    ensures
        r@ == combine(prefix@, path@),
{
    let mut out = prefix.to_owned();
    let has_slash = path.as_str().unicode_len() > 0 && path.as_str().get_char(0) == '/';
    if !has_slash {
        out.append("/");
    }
    out.append(path.as_str());
    out
}

/// The mathematical value of a routing table.
pub struct RouterV {
    pub prefix: Seq<char>,
    pub resources: Seq<ResourceV>,
}

/// A routing table: named routes mounted under a common prefix.
pub struct Router {
    prefix: String,
    resources: Vec<Resource>,
}

impl View for Router {
    type V = RouterV;

    closed spec fn view(&self) -> RouterV {
        RouterV { prefix: self.prefix@, resources: resource_views(self.resources@) }
    }
}

/// What resolving `name` against `vals` in table `rt` yields: the joined
/// path for a mounted route, the bare resolved value for an external
/// one, or the error the lookup or substitution ran into.
pub open spec fn spec_resource_path(rt: RouterV, name: Seq<char>, vals: Seq<Seq<char>>) -> Result<
    Seq<char>,
    UrlGenerationError,
> {
    match find_resource(rt.resources, name) {
        None => Err(UrlGenerationError::ResourceNotFound),
        Some(res) => match resolve_elems(parse_template(res.pattern), vals) {
            None => Err(UrlGenerationError::NotEnoughElements),
            Some(path) => if res.external {
                Ok(path)
            } else {
                Ok(combine(rt.prefix, path))
            },
        },
    }
}

impl Router {
    /// Every stored route satisfies its own invariant.
    pub closed spec fn inv(&self) -> bool {
        forall|i: int| 0 <= i < self.resources@.len() ==> self.resources@[i].inv()
    }

    /// Build a table from a mount prefix and routes; trailing slashes of
    /// the prefix are dropped, so `/` mounts at the root.
    pub fn new(prefix: &str, resources: Vec<Resource>) -> (r: Router)
        requires
            forall|i: int| 0 <= i < resources@.len() ==> resources@[i].inv(),
        ensures
            r@.prefix == trim_slashes(prefix@),
            r@.resources == resource_views(resources@),
            r.inv(),
    {
        let p = trim_slashes_exec(prefix);
        Router { prefix: p.to_owned(), resources }
    }

    fn find_from(&self, i: usize, name: &str) -> (r: Option<usize>)
        requires
            i <= self.resources@.len(),
        ensures
            match r {
                Some(k) => i <= k < self.resources@.len() && find_resource(
                    resource_views(self.resources@).skip(i as int),
                    name@,
                ) == Some(self.resources@[k as int]@),
                None => find_resource(resource_views(self.resources@).skip(i as int), name@)
                    is None,
            },
        decreases self.resources@.len() - i,
    {
        if i == self.resources.len() {
            proof {
                assert(resource_views(self.resources@).skip(i as int) =~= Seq::<ResourceV>::empty());
            }
            None
        } else {
            proof {
                assert(resource_views(self.resources@).skip(i as int)[0]
                    == self.resources@[i as int]@);
                assert(resource_views(self.resources@).skip(i as int).skip(1) =~= resource_views(
                    self.resources@,
                ).skip(i as int + 1));
            }
            if str_eq(self.resources[i].name.as_str(), name) {
                Some(i)
            } else {
                self.find_from(i + 1, name)
            }
        }
    }

    /// Resolve the named route against the supplied segment values.
    pub fn resource_path(&self, name: &str, vals: &Vec<String>) -> (r: Result<
        String,
        UrlGenerationError,
    >)
        requires
            self.inv(),
        ensures
            match r {
                Ok(path) => spec_resource_path(self@, name@, str_views(vals@)) == Ok::<
                    _,
                    UrlGenerationError,
                >(path@),
                Err(e) => spec_resource_path(self@, name@, str_views(vals@)) == Err::<
                    Seq<char>,
                    _,
                >(e),
            },
    {
        proof {
            assert(resource_views(self.resources@).skip(0) =~= resource_views(self.resources@));
        }
        match self.find_from(0, name) {
            None => Err(UrlGenerationError::ResourceNotFound),
            Some(k) => {
                let res = &self.resources[k];
                proof {
                    assert(elem_views(res.elements@).skip(0) =~= elem_views(res.elements@));
                    assert(str_views(vals@).skip(0) =~= str_views(vals@));
                }
                match resolve_from(&res.elements, 0, vals, 0) {
                    None => Err(UrlGenerationError::NotEnoughElements),
                    Some(path) => {
                        if res.external {
                            Ok(path)
                        } else {
                            Ok(combine_exec(self.prefix.as_str(), &path))
                        }
                    },
                }
            },
        }
    }
}

/// Path parameters matched out of the request path by the routing
/// collaborator: ordered `(identifier, value)` pairs.
pub struct Params {
    items: Vec<(String, String)>,
}

impl View for Params {
    type V = Seq<(Seq<char>, Seq<char>)>;

    closed spec fn view(&self) -> Seq<(Seq<char>, Seq<char>)> {
        Seq::new(self.items@.len(), |i: int| (self.items@[i].0@, self.items@[i].1@))
    }
}

/// The first parameter named `key`, if any (exact match).
pub open spec fn find_param(ps: Seq<(Seq<char>, Seq<char>)>, key: Seq<char>) -> Option<Seq<char>>
    decreases ps.len(),
{
    if ps.len() == 0 {
        None
    } else if ps[0].0 == key {
        Some(ps[0].1)
    } else {
        find_param(ps.skip(1), key)
    }
}

impl Params {
    pub fn new() -> (r: Params)
        ensures
            r@ == Seq::<(Seq<char>, Seq<char>)>::empty(),
    {
        let r = Params { items: Vec::new() };
        proof {
            assert(r@ =~= Seq::<(Seq<char>, Seq<char>)>::empty());
        }
        r
    }

    /// Record one matched parameter.
    pub fn add(&mut self, key: String, value: String)
        ensures
            final(self)@ == old(self)@.push((key@, value@)),
    {
        let ghost before = self@;
        self.items.push((key, value));
        proof {
            assert(self@ =~= before.push((self.items@.last().0@, self.items@.last().1@)));
        }
    }

    pub fn is_empty(&self) -> (r: bool)
        ensures
            r == (self@.len() == 0),
    {
        self.items.len() == 0
    }

    pub fn len(&self) -> (r: usize)
        ensures
            r == self@.len(),
    {
        self.items.len()
    }

    pub fn key_at(&self, i: usize) -> (r: &String)
        requires
            i < self@.len(),
        ensures
            r@ == self@[i as int].0,
    {
        &self.items[i].0
    }

    pub fn value_at(&self, i: usize) -> (r: &String)
        requires
            i < self@.len(),
        ensures
            r@ == self@[i as int].1,
    {
        &self.items[i].1
    }

    fn get_from<'a>(&'a self, i: usize, key: &str) -> (r: Option<&'a String>)
        requires
            i <= self@.len(),
        ensures
            match r {
                Some(v) => find_param(self@.skip(i as int), key@) == Some(v@),
                None => find_param(self@.skip(i as int), key@) is None,
            },
        decreases self@.len() - i,
    {
        if i == self.items.len() {
            proof {
                assert(self@.skip(i as int) =~= Seq::<(Seq<char>, Seq<char>)>::empty());
            }
            None
        } else {
            proof {
                assert(self@.skip(i as int)[0] == self@[i as int]);
                assert(self@.skip(i as int).skip(1) =~= self@.skip(i as int + 1));
            }
            if str_eq(self.items[i].0.as_str(), key) {
                Some(&self.items[i].1)
            } else {
                self.get_from(i + 1, key)
            }
        }
    }

    /// The value matched for `key`, if the path had that parameter.
    pub fn get<'a>(&'a self, key: &str) -> (r: Option<&'a String>)
        ensures
            match r {
                Some(v) => find_param(self@, key@) == Some(v@),
                None => find_param(self@, key@) is None,
            },
    {
        proof {
            assert(self@.skip(0) =~= self@);
        }
        self.get_from(0, key)
    }
}

} // verus!
