use vstd::prelude::*;
use vstd::string::{StringExecFns, StrSliceExecFns};
use crate::text::{chars_of, chars_equal};

verus! {

/// An HTTP request method.
#[derive(Clone, Copy, PartialEq, Eq, Structural, Debug)]
pub enum Method {
    Get,
    Head,
    Post,
    Put,
    Patch,
    Delete,
    Options,
    Other,
}

/// The pieces of `p` between its `/` characters, in order (`"/a/b"` gives
/// `""`, `"a"`, `"b"`).
pub open spec fn split_slash(p: Seq<char>) -> Seq<Seq<char>>
    decreases p.len(),
{
    if p.len() == 0 {
        seq![Seq::empty()]
    } else {
        let init = split_slash(p.drop_last());
        if p.last() == '/' {
            init.push(Seq::empty())
        } else {
            init.update(init.len() - 1, init.last().push(p.last()))
        }
    }
}

/// The characters of each string.
pub open spec fn views(v: Seq<String>) -> Seq<Seq<char>> {
    v.map_values(|s: String| s@)
}

/// A pattern segment that binds a parameter: it starts with `:`.
pub open spec fn is_param(seg: Seq<char>) -> bool {
    seg.len() > 0 && seg[0] == ':'
}

/// A parameter segment matches any non-empty path segment; any other
/// segment matches itself only.
pub open spec fn segment_matches(pat: Seq<char>, seg: Seq<char>) -> bool {
    if is_param(pat) {
        seg.len() > 0
    } else {
        pat == seg
    }
}

/// Pattern and path have as many segments, and each pair matches.
pub open spec fn pattern_matches(pat: Seq<Seq<char>>, path: Seq<Seq<char>>) -> bool {
    &&& pat.len() == path.len()
    &&& forall|i: int| 0 <= i < pat.len() ==> segment_matches(#[trigger] pat[i], path[i])
}

/// The parameters that `pat` binds on `path`: each parameter's name (without
/// the `:`) with the path segment at its position, in pattern order.
pub open spec fn bindings(pat: Seq<Seq<char>>, path: Seq<Seq<char>>) -> Seq<(Seq<char>, Seq<char>)>
    decreases pat.len(),
{
    if pat.len() == 0 {
        seq![]
    } else {
        let prev = bindings(pat.drop_last(), path);
        if is_param(pat.last()) {
            prev.push((pat.last().drop_first(), path[pat.len() - 1]))
        } else {
            prev
        }
    }
}

/// The value bound to the first entry called `name`, if any.
pub open spec fn lookup(ps: Seq<(Seq<char>, Seq<char>)>, name: Seq<char>) -> Option<Seq<char>>
    decreases ps.len(),
{
    if ps.len() == 0 {
        None
    } else if ps[0].0 == name {
        Some(ps[0].1)
    } else {
        lookup(ps.drop_first(), name)
    }
}

proof fn lemma_split_push(p: Seq<char>, c: char)
    ensures
        split_slash(p.push(c)) == (if c == '/' {
            split_slash(p).push(Seq::empty())
        } else {
            let init = split_slash(p);
            init.update(init.len() - 1, init.last().push(c))
        }),
{
    assert(p.push(c).drop_last() =~= p);
}

proof fn lemma_split_nonempty(p: Seq<char>)
    ensures
        split_slash(p).len() >= 1,
    decreases p.len(),
{
    if p.len() > 0 {
        lemma_split_nonempty(p.drop_last());
    }
}

/// Splits `path` at each `/`.
pub fn split_path(path: &str) -> (r: Vec<String>)
    ensures
        views(r@) == split_slash(path@),
{
    let cs = chars_of(path);
    let n = cs.len();
    let mut segs: Vec<String> = Vec::new();
    let mut start: usize = 0;
    let mut i: usize = 0;
    proof {
        assert(path@.take(0) =~= Seq::<char>::empty());
        assert(views(segs@).push(path@.subrange(0, 0)) =~= split_slash(path@.take(0)));
    }
    while i < n
        invariant
            cs@ == path@,
            n == cs@.len(),
            start <= i <= n,
            views(segs@).push(path@.subrange(start as int, i as int)) == split_slash(path@.take(i as int)),
        decreases n - i,
    {
        proof {
            lemma_split_push(path@.take(i as int), cs@[i as int]);
            assert(path@.take(i as int).push(cs@[i as int]) =~= path@.take(i + 1));
        }
        if cs[i] == '/' {
            let seg = String::from_str(path.substring_char(start, i));
            let ghost before = segs@;
            segs.push(seg);
            i = i + 1;
            start = i;
            assert(views(segs@) =~= views(before).push(seg@));
            assert(path@.subrange(start as int, i as int) =~= Seq::<char>::empty());
        } else {
            proof {
                assert(path@.subrange(start as int, i + 1) =~= path@.subrange(start as int, i as int).push(cs@[i as int]));
            }
            i = i + 1;
        }
    }
    let seg = String::from_str(path.substring_char(start, n));
    let ghost before = segs@;
    segs.push(seg);
    assert(path@.take(n as int) =~= path@);
    assert(views(segs@) =~= views(before).push(seg@));
    segs
}


/// The parameters bound by a matched route, as (name, value) pairs.
pub struct Params {
    pub entries: Vec<(String, String)>,
}

/// The entries of a parameter list as pairs of character sequences.
pub open spec fn entry_views(es: Seq<(String, String)>) -> Seq<(Seq<char>, Seq<char>)> {
    es.map_values(|e: (String, String)| (e.0@, e.1@))
}

/// The characters of an optional string.
pub open spec fn opt_view(o: Option<String>) -> Option<Seq<char>> {
    match o {
        Some(s) => Some(s@),
        None => None,
    }
}

impl View for Params {
    type V = Seq<(Seq<char>, Seq<char>)>;

    open spec fn view(&self) -> Seq<(Seq<char>, Seq<char>)> {
        entry_views(self.entries@)
    }
}

impl Params {
    /// A parameter list without entries.
    pub fn new() -> (r: Params)
        ensures
            r@ == Seq::<(Seq<char>, Seq<char>)>::empty(),
    {
        let r = Params { entries: Vec::new() };
        assert(r@ =~= Seq::<(Seq<char>, Seq<char>)>::empty());
        r
    }

    /// The value of the parameter called `name`, if it is bound.
    pub fn get(&self, name: &str) -> (r: Option<String>)
        ensures
            opt_view(r) == lookup(self@, name@),
    {
        let mut i: usize = 0;
        assert(self@.skip(0) =~= self@);
        while i < self.entries.len()
            invariant
                i <= self@.len(),
                self@.len() == self.entries@.len(),
                lookup(self@, name@) == lookup(self@.skip(i as int), name@),
            decreases self.entries@.len() - i,
        {
            assert(self@.skip(i as int).drop_first() =~= self@.skip(i + 1));
            if crate::text::same_text(self.entries[i].0.as_str(), name) {
                return Some(self.entries[i].1.clone());
            }
            i = i + 1;
        }
        None
    }
}

proof fn lemma_bindings_take(pat: Seq<Seq<char>>, path: Seq<Seq<char>>, i: int)
    requires
        0 <= i < pat.len(),
    ensures
        bindings(pat.take(i + 1), path) == (if is_param(pat[i]) {
            bindings(pat.take(i), path).push((pat[i].drop_first(), path[i]))
        } else {
            bindings(pat.take(i), path)
        }),
{
    assert(pat.take(i + 1).drop_last() =~= pat.take(i));
}

/// Whether `seg` is a parameter segment, and if so its name.
fn param_name(seg: &String) -> (r: Option<String>)
    ensures
        r is Some == is_param(seg@),
        r matches Some(n) ==> n@ == seg@.drop_first(),
{
    let cs = chars_of(seg.as_str());
    if cs.len() > 0 && cs[0] == ':' {
        let n = String::from_str(seg.as_str().substring_char(1, cs.len()));
        assert(seg@.subrange(1, seg@.len() as int) =~= seg@.drop_first());
        Some(n)
    } else {
        None
    }
}

/// Matches path segments against pattern segments; on a match, the bound
/// parameters.
pub fn match_pattern(pat: &Vec<String>, path: &Vec<String>) -> (r: Option<Params>)
    ensures
        r is Some == pattern_matches(views(pat@), views(path@)),
        r matches Some(p) ==> p@ == bindings(views(pat@), views(path@)),
{
    if pat.len() != path.len() {
        return None;
    }
    let mut params = Params::new();
    let mut i: usize = 0;
    assert(views(pat@).take(0) =~= Seq::<Seq<char>>::empty());
    while i < pat.len()
        invariant
            pat@.len() == path@.len(),
            i <= pat@.len(),
            forall|j: int| 0 <= j < i ==> segment_matches(#[trigger] views(pat@)[j], views(path@)[j]),
            params@ == bindings(views(pat@).take(i as int), views(path@)),
        decreases pat@.len() - i,
    {
        proof {
            lemma_bindings_take(views(pat@), views(path@), i as int);
        }
        match param_name(&pat[i]) {
            Some(name) => {
                if path[i].as_str().is_empty() {
                    return None;
                }
                let value = path[i].clone();
                let ghost before = params.entries@;
                params.entries.push((name, value));
                assert(params@ =~= entry_views(before).push((name@, value@)));
            },
            None => {
                if !(pat[i] == path[i]) {
                    assert(!segment_matches(views(pat@)[i as int], views(path@)[i as int]));
                    return None;
                }
            },
        }
        i = i + 1;
    }
    assert(views(pat@).take(pat@.len() as int) =~= views(pat@));
    Some(params)
}

/// A route: a method, a pattern split into segments, and what handles it.
pub struct Route<H> {
    pub method: Method,
    pub pattern: Vec<String>,
    pub handler: H,
}

/// Whether `r` answers a request with method `m` on `path`.
pub open spec fn route_matches<H>(r: Route<H>, m: Method, path: Seq<char>) -> bool {
    answers(r.method, views(r.pattern@), m, path)
}

/// Whether a route with `method` and pattern segments `pat` answers a
/// request with method `m` on `path`.
pub open spec fn answers(method: Method, pat: Seq<Seq<char>>, m: Method, path: Seq<char>) -> bool {
    method == m && pattern_matches(pat, split_slash(path))
}

/// Whether `s` holds no `/`.
pub open spec fn slash_free(s: Seq<char>) -> bool {
    forall|i: int| 0 <= i < s.len() ==> s[i] != '/'
}

/// A string without `/` is a single segment.
pub proof fn lemma_split_slash_free(s: Seq<char>)
    requires
        slash_free(s),
    ensures
        split_slash(s) == seq![s],
    decreases s.len(),
{
    if s.len() == 0 {
        assert(s =~= Seq::<char>::empty());
    } else {
        assert(slash_free(s.drop_last()));
        lemma_split_slash_free(s.drop_last());
        assert(s.drop_last().push(s.last()) =~= s);
        lemma_split_push(s.drop_last(), s.last());
        assert(s.last() != '/');
        assert(seq![s.drop_last()].update(0, s.drop_last().push(s.last())) =~= seq![s]);
    }
}

/// Appending `/` and a segment without `/` adds that segment.
pub proof fn lemma_split_append_segment(a: Seq<char>, s: Seq<char>)
    requires
        slash_free(s),
    ensures
        split_slash(a + seq!['/'] + s) == split_slash(a).push(s),
    decreases s.len(),
{
    if s.len() == 0 {
        assert(s =~= Seq::<char>::empty());
        lemma_split_push(a, '/');
        assert(a + seq!['/'] + s =~= a.push('/'));
    } else {
        let t = s.drop_last();
        assert(slash_free(t));
        assert(t.push(s.last()) =~= s);
        assert(s.last() != '/');
        lemma_split_append_segment(a, t);
        lemma_split_push(a + seq!['/'] + t, s.last());
        assert((a + seq!['/'] + t).push(s.last()) =~= a + seq!['/'] + s);
        assert(split_slash(a).push(t).update(split_slash(a).len() as int, t.push(s.last())) =~= split_slash(a).push(s));
    }
}

/// The route that answers a request, and the parameters it bound.
pub struct Matched<H> {
    pub route: usize,
    pub handler: H,
    pub params: Params,
}

/// A table of routes, tried in the order they were registered.
pub struct Router<H> {
    pub routes: Vec<Route<H>>,
}

impl<H: Copy> Router<H> {
    /// A router without routes.
    pub fn new() -> (r: Router<H>)
        ensures
            r.routes@.len() == 0,
    {
        Router { routes: Vec::new() }
    }

    /// Adds a route after those already registered.
    pub fn register(&mut self, method: Method, pattern: &str, handler: H)
        ensures
            final(self).routes@.len() == old(self).routes@.len() + 1,
            forall|i: int| 0 <= i < old(self).routes@.len() ==> final(self).routes@[i] == old(self).routes@[i],
            final(self).routes@.last().method == method,
            views(final(self).routes@.last().pattern@) == split_slash(pattern@),
            final(self).routes@.last().handler == handler,
    {
        let segs = split_path(pattern);
        self.routes.push(Route { method, pattern: segs, handler });
    }

    /// Adds a `GET` route.
    pub fn get(&mut self, pattern: &str, handler: H)
        ensures
            final(self).routes@ == old(self).routes@.push(final(self).routes@.last()),
            final(self).routes@.last().method == Method::Get,
            views(final(self).routes@.last().pattern@) == split_slash(pattern@),
            final(self).routes@.last().handler == handler,
    {
        self.register(Method::Get, pattern, handler);
        assert(self.routes@ =~= old(self).routes@.push(self.routes@.last()));
    }

    /// Adds a `POST` route.
    pub fn post(&mut self, pattern: &str, handler: H)
        ensures
            final(self).routes@ == old(self).routes@.push(final(self).routes@.last()),
            final(self).routes@.last().method == Method::Post,
            views(final(self).routes@.last().pattern@) == split_slash(pattern@),
            final(self).routes@.last().handler == handler,
    {
        self.register(Method::Post, pattern, handler);
        assert(self.routes@ =~= old(self).routes@.push(self.routes@.last()));
    }

    /// Adds a `PUT` route.
    pub fn put(&mut self, pattern: &str, handler: H)
        ensures
            final(self).routes@ == old(self).routes@.push(final(self).routes@.last()),
            final(self).routes@.last().method == Method::Put,
            views(final(self).routes@.last().pattern@) == split_slash(pattern@),
            final(self).routes@.last().handler == handler,
    {
        self.register(Method::Put, pattern, handler);
        assert(self.routes@ =~= old(self).routes@.push(self.routes@.last()));
    }

    /// Adds a `DELETE` route.
    pub fn delete(&mut self, pattern: &str, handler: H)
        ensures
            final(self).routes@ == old(self).routes@.push(final(self).routes@.last()),
            final(self).routes@.last().method == Method::Delete,
            views(final(self).routes@.last().pattern@) == split_slash(pattern@),
            final(self).routes@.last().handler == handler,
    {
        self.register(Method::Delete, pattern, handler);
        assert(self.routes@ =~= old(self).routes@.push(self.routes@.last()));
    }

    /// The first registered route that answers `method` on `path`, with the
    /// parameters it binds; `None` where no route does.
    pub fn find(&self, method: Method, path: &str) -> (r: Option<Matched<H>>)
        ensures
            r is None <==> forall|i: int|
                0 <= i < self.routes@.len() ==> !route_matches(#[trigger] self.routes@[i], method, path@),
            r matches Some(m) ==> {
                &&& m.route < self.routes@.len()
                &&& route_matches(self.routes@[m.route as int], method, path@)
                &&& forall|j: int| 0 <= j < m.route ==> !route_matches(#[trigger] self.routes@[j], method, path@)
                &&& m.handler == self.routes@[m.route as int].handler
                &&& m.params@ == bindings(views(self.routes@[m.route as int].pattern@), split_slash(path@))
            },
    {
        let segs = split_path(path);
        let mut i: usize = 0;
        while i < self.routes.len()
            invariant
                i <= self.routes@.len(),
                views(segs@) == split_slash(path@),
                forall|j: int| 0 <= j < i ==> !route_matches(#[trigger] self.routes@[j], method, path@),
            decreases self.routes@.len() - i,
        {
            let route = &self.routes[i];
            if route.method == method {
                match match_pattern(&route.pattern, &segs) {
                    Some(params) => {
                        return Some(Matched { route: i, handler: route.handler, params });
                    },
                    None => {},
                }
            }
            i = i + 1;
        }
        None
    }
}

} // verus!
