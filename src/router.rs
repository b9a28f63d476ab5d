use vstd::prelude::*;
use crate::head::{chars_of, find_in, find_in_exec, pairs_view, piece, prefixed};
use vstd::string::StrSliceExecFns;

verus! {

/// One segment of a route pattern: text that must match as it stands, or a
/// named placeholder (written `:name`) that captures one non-empty segment.
pub enum Segment {
    Literal(String),
    Param(String),
}

pub enum SegmentModel {
    Literal(Seq<char>),
    Param(Seq<char>),
}

impl Segment {
    pub open spec fn model(&self) -> SegmentModel {
        match self {
            Segment::Literal(s) => SegmentModel::Literal(s@),
            Segment::Param(s) => SegmentModel::Param(s@),
        }
    }
}

pub open spec fn segments_model(v: Seq<Segment>) -> Seq<SegmentModel> {
    v.map_values(|s: Segment| s.model())
}

pub open spec fn strings_view(v: Seq<String>) -> Seq<Seq<char>> {
    v.map_values(|s: String| s@)
}

/// The pieces of `s` from `k` on, cut at each `/`.
pub open spec fn pieces_from(s: Seq<char>, k: int) -> Seq<Seq<char>>
    decreases s.len() - k,
{
    if k < 0 || k > s.len() {
        Seq::empty()
    } else {
        let j = find_in(s, '/', k, s.len() as int);
        if j < k || j >= s.len() {
            seq![s.subrange(k, s.len() as int)]
        } else {
            seq![s.subrange(k, j)] + pieces_from(s, j + 1)
        }
    }
}

/// The segments of a path: it starts with `/`, and each `/` begins a segment.
pub open spec fn path_segments(s: Seq<char>) -> Option<Seq<Seq<char>>> {
    if s.len() == 0 || s[0] != '/' {
        None
    } else {
        Some(pieces_from(s, 1))
    }
}

/// A segment of a pattern as written: `:name` is a placeholder, the rest literal.
pub open spec fn segment_of(p: Seq<char>) -> SegmentModel {
    if p.len() > 0 && p[0] == ':' {
        SegmentModel::Param(p.subrange(1, p.len() as int))
    } else {
        SegmentModel::Literal(p)
    }
}

/// Matches segments from position `i` on and gives the captured pairs in order.
pub open spec fn match_from(pat: Seq<SegmentModel>, segs: Seq<Seq<char>>, i: int) -> Option<
    Seq<(Seq<char>, Seq<char>)>,
>
    decreases pat.len() - i,
{
    if i < 0 || i >= pat.len() {
        Some(Seq::empty())
    } else {
        match pat[i] {
            SegmentModel::Literal(l) => if l == segs[i] {
                match_from(pat, segs, i + 1)
            } else {
                None
            },
            SegmentModel::Param(name) => if segs[i].len() > 0 {
                match match_from(pat, segs, i + 1) {
                    Some(rest) => Some(seq![(name, segs[i])] + rest),
                    None => None,
                }
            } else {
                None
            },
        }
    }
}

/// A pattern matches segments of the same number, literal by literal; the
/// result holds the placeholders' names with what they captured.
pub open spec fn match_spec(pat: Seq<SegmentModel>, segs: Seq<Seq<char>>) -> Option<
    Seq<(Seq<char>, Seq<char>)>,
> {
    if pat.len() != segs.len() {
        None
    } else {
        match_from(pat, segs, 0)
    }
}

/// Cuts `text[start..]` at each `/`.
fn split_pieces(text: &str, cs: &Vec<char>, start: usize) -> (r: Vec<String>)
    requires
        cs@ == text@,
        start <= cs@.len(),
    ensures
        strings_view(r@) == pieces_from(cs@, start as int),
{
    let n = cs.len();
    let mut acc: Vec<String> = Vec::new();
    let mut k: usize = start;
    loop
        invariant
            n == cs@.len(),
            cs@ == text@,
            start <= k <= n,
            pieces_from(cs@, start as int) == strings_view(acc@) + pieces_from(cs@, k as int),
        decreases n - k,
    {
        let j = find_in_exec(cs, '/', k, n);
        let p = piece(text, k, j);
        let ghost old_acc = strings_view(acc@);
        acc.push(p);
        assert(strings_view(acc@) =~= old_acc + seq![p@]);
        if j == n {
            assert(pieces_from(cs@, k as int) == seq![p@]);
            assert(strings_view(acc@) =~= old_acc + pieces_from(cs@, k as int));
            return acc;
        }
        assert(old_acc + pieces_from(cs@, k as int) =~= strings_view(acc@) + pieces_from(
            cs@,
            j + 1,
        ));
        k = j + 1;
    }
}

/// The segments of a path, or `None` where it does not start with `/`.
pub fn split_path(path: &str) -> (r: Option<Vec<String>>)
    ensures
        match r {
            Some(v) => path_segments(path@) == Some(strings_view(v@)),
            None => path_segments(path@) is None,
        },
{
    let cs = chars_of(path);
    if cs.len() == 0 || cs[0] != '/' {
        return None;
    }
    Some(split_pieces(path, &cs, 1))
}

/// The segments of a pattern written as a path, such as `/users/:id`.
pub open spec fn pattern_spec(s: Seq<char>) -> Option<Seq<SegmentModel>> {
    match path_segments(s) {
        Some(segs) => Some(segs.map_values(|p: Seq<char>| segment_of(p))),
        None => None,
    }
}

fn segment_from(text: &String) -> (r: Segment)
    ensures
        r.model() == segment_of(text@),
{
    let cs = chars_of(text.as_str());
    if cs.len() > 0 && cs[0] == ':' {
        Segment::Param(piece(text.as_str(), 1, cs.len()))
    } else {
        Segment::Literal(text.clone())
    }
}

/// Reads a route pattern; `None` where it does not start with `/`.
pub fn parse_pattern(pattern: &str) -> (r: Option<Vec<Segment>>)
    ensures
        match r {
            Some(v) => pattern_spec(pattern@) == Some(segments_model(v@)),
            None => pattern_spec(pattern@) is None,
        },
{
    let pieces = match split_path(pattern) {
        Some(p) => p,
        None => return None,
    };
    let ghost pv = strings_view(pieces@);
    let mut out: Vec<Segment> = Vec::new();
    let mut i: usize = 0;
    while i < pieces.len()
        invariant
            i <= pieces@.len(),
            pv == strings_view(pieces@),
            segments_model(out@) =~= pv.subrange(0, i as int).map_values(
                |p: Seq<char>| segment_of(p),
            ),
        decreases pieces@.len() - i,
    {
        let seg = segment_from(&pieces[i]);
        let ghost old_out = segments_model(out@);
        out.push(seg);
        proof {
            assert(pv[i as int] == pieces@[i as int]@);
            assert(segments_model(out@) =~= old_out + seq![segment_of(pv[i as int])]);
            assert(pv.subrange(0, i + 1).map_values(|p: Seq<char>| segment_of(p))
                =~= pv.subrange(0, i as int).map_values(|p: Seq<char>| segment_of(p)) + seq![segment_of(pv[i as int])]);
        }
        i = i + 1;
    }
    assert(pv.subrange(0, pv.len() as int) =~= pv);
    Some(out)
}

/// Matches path segments against a pattern: `Some` with the captured
/// `(name, value)` pairs in the pattern's order, or `None`.
pub fn match_segments(pattern: &Vec<Segment>, segs: &Vec<String>) -> (r: Option<
    Vec<(String, String)>,
>)
    ensures
        match r {
            Some(v) => match_spec(segments_model(pattern@), strings_view(segs@)) == Some(
                pairs_view(v@),
            ),
            None => match_spec(segments_model(pattern@), strings_view(segs@)) is None,
        },
{
    let ghost pat = segments_model(pattern@);
    let ghost sv = strings_view(segs@);
    if pattern.len() != segs.len() {
        return None;
    }
    let mut acc: Vec<(String, String)> = Vec::new();
    let mut i: usize = 0;
    while i < pattern.len()
        invariant
            pattern@.len() == segs@.len(),
            i <= pattern@.len(),
            pat == segments_model(pattern@),
            sv == strings_view(segs@),
            match_from(pat, sv, 0) == prefixed(pairs_view(acc@), match_from(pat, sv, i as int)),
        decreases pattern@.len() - i,
    {
        let ghost old_acc = pairs_view(acc@);
        match &pattern[i] {
            Segment::Literal(l) => {
                if *l != segs[i] {
                    return None;
                }
            },
            Segment::Param(name) => {
                if segs[i].as_str().unicode_len() == 0 {
                    return None;
                }
                acc.push((name.clone(), segs[i].clone()));
                proof {
                    let rest = match_from(pat, sv, i + 1);
                    assert(pairs_view(acc@) =~= old_acc + seq![(name@, sv[i as int])]);
                    if rest is Some {
                        assert(old_acc + (seq![(name@, sv[i as int])] + rest->0) =~= pairs_view(acc@)
                            + rest->0);
                    }
                }
            },
        }
        i = i + 1;
    }
    assert(pairs_view(acc@) + Seq::<(Seq<char>, Seq<char>)>::empty() =~= pairs_view(acc@));
    Some(acc)
}


/// The placeholder names of a pattern from position `i` on, in order.
pub open spec fn placeholder_names(pat: Seq<SegmentModel>, i: int) -> Seq<Seq<char>>
    decreases pat.len() - i,
{
    if i < 0 || i >= pat.len() {
        Seq::empty()
    } else {
        match pat[i] {
            SegmentModel::Literal(_) => placeholder_names(pat, i + 1),
            SegmentModel::Param(name) => seq![name] + placeholder_names(pat, i + 1),
        }
    }
}

/// The segments standing where the pattern has placeholders, from `i` on.
pub open spec fn placeholder_values(pat: Seq<SegmentModel>, segs: Seq<Seq<char>>, i: int) -> Seq<
    Seq<char>,
>
    decreases pat.len() - i,
{
    if i < 0 || i >= pat.len() {
        Seq::empty()
    } else {
        match pat[i] {
            SegmentModel::Literal(_) => placeholder_values(pat, segs, i + 1),
            SegmentModel::Param(_) => seq![segs[i]] + placeholder_values(pat, segs, i + 1),
        }
    }
}

proof fn lemma_match_from_captures(pat: Seq<SegmentModel>, segs: Seq<Seq<char>>, i: int)
    requires
        0 <= i <= pat.len(),
        match_from(pat, segs, i) is Some,
    ensures
        ({
            let c = match_from(pat, segs, i)->0;
            &&& c.len() == placeholder_names(pat, i).len()
            &&& c.map_values(|p: (Seq<char>, Seq<char>)| p.0) == placeholder_names(pat, i)
            &&& c.map_values(|p: (Seq<char>, Seq<char>)| p.1) == placeholder_values(pat, segs, i)
            &&& forall|j: int| #![auto] i <= j < pat.len() && pat[j] is Literal ==> segs[j] == pat[j]->Literal_0
            &&& forall|j: int| #![auto] i <= j < pat.len() && pat[j] is Param ==> segs[j].len() > 0
        }),
    decreases pat.len() - i,
{
    if i < pat.len() {
        lemma_match_from_captures(pat, segs, i + 1);
        let c = match_from(pat, segs, i)->0;
        let rest = match_from(pat, segs, i + 1)->0;
        match pat[i] {
            SegmentModel::Literal(_) => {},
            SegmentModel::Param(name) => {
                assert(c == seq![(name, segs[i])] + rest);
                assert(c.map_values(|p: (Seq<char>, Seq<char>)| p.0) =~= seq![name]
                    + rest.map_values(|p: (Seq<char>, Seq<char>)| p.0));
                assert(c.map_values(|p: (Seq<char>, Seq<char>)| p.1) =~= seq![segs[i]]
                    + rest.map_values(|p: (Seq<char>, Seq<char>)| p.1));
            },
        }
    } else {
        assert(match_from(pat, segs, i)->0 =~= Seq::<(Seq<char>, Seq<char>)>::empty());
    }
}

/// Where a pattern matches, the captured pairs name exactly the pattern's
/// placeholders, in order, each paired with the segment that stands in its
/// place; every literal segment is matched as written.
pub proof fn lemma_captures_follow_placeholders(pat: Seq<SegmentModel>, segs: Seq<Seq<char>>)
    requires
        match_spec(pat, segs) is Some,
    ensures
        ({
            let c = match_spec(pat, segs)->0;
            &&& segs.len() == pat.len()
            &&& c.map_values(|p: (Seq<char>, Seq<char>)| p.0) == placeholder_names(pat, 0)
            &&& c.map_values(|p: (Seq<char>, Seq<char>)| p.1) == placeholder_values(pat, segs, 0)
            &&& forall|j: int| #![auto] 0 <= j < pat.len() && pat[j] is Literal ==> segs[j] == pat[j]->Literal_0
        }),
{
    lemma_match_from_captures(pat, segs, 0);
}

/// A route: the method it answers and the pattern of its path.
pub struct Route {
    pub method: String,
    pub pattern: Vec<Segment>,
}

pub struct RouteModel {
    pub method: Seq<char>,
    pub pattern: Seq<SegmentModel>,
}

/// Where a request goes: to the route of that index, or to the not-found service.
#[derive(Debug, PartialEq, Eq, Structural)]
pub enum Target {
    Route(usize),
    NotFound,
}

/// The outcome of routing a request: its target and the parameters captured.
pub struct Resolved {
    pub target: Target,
    pub params: Vec<(String, String)>,
}

/// The first route, from `i` on, that answers the method and whose pattern
/// matches the segments: its index and what it captured.
pub open spec fn find_from(
    routes: Seq<RouteModel>,
    method: Seq<char>,
    segs: Seq<Seq<char>>,
    i: int,
) -> Option<(int, Seq<(Seq<char>, Seq<char>)>)>
    decreases routes.len() - i,
{
    if i < 0 || i >= routes.len() {
        None
    } else if routes[i].method == method && match_spec(routes[i].pattern, segs) is Some {
        Some((i, match_spec(routes[i].pattern, segs)->0))
    } else {
        find_from(routes, method, segs, i + 1)
    }
}

/// The route that a request for `method` and `path` goes to, if any.
pub open spec fn find_spec(routes: Seq<RouteModel>, method: Seq<char>, path: Seq<char>) -> Option<
    (int, Seq<(Seq<char>, Seq<char>)>),
> {
    match path_segments(path) {
        Some(segs) => find_from(routes, method, segs, 0),
        None => None,
    }
}

/// Routes in the order they were added; the first that matches wins.
pub struct Router {
    routes: Vec<Route>,
}

impl Router {
    pub closed spec fn model(&self) -> Seq<RouteModel> {
        self.routes@.map_values(
            |r: Route| RouteModel { method: r.method@, pattern: segments_model(r.pattern@) },
        )
    }

    pub fn new() -> (r: Self)
        ensures
            r.model() == Seq::<RouteModel>::empty(),
    {
        let r = Router { routes: Vec::new() };
        assert(r.model() =~= Seq::<RouteModel>::empty());
        r
    }

    /// The number of routes.
    pub fn len(&self) -> (r: usize)
        ensures
            r == self.model().len(),
    {
        self.routes.len()
    }

    /// Adds a route for `method` and a pattern such as `/users/:id`, and gives
    /// its index; `None`, with nothing added, where the pattern does not start
    /// with `/`.
    pub fn add(&mut self, method: &str, pattern: &str) -> (r: Option<usize>)
        ensures
            match pattern_spec(pattern@) {
                Some(p) => r == Some(old(self).model().len() as usize) && final(self).model()
                    == old(self).model().push(RouteModel { method: method@, pattern: p }),
                None => r is None && final(self).model() == old(self).model(),
            },
    {
        match parse_pattern(pattern) {
            None => None,
            Some(p) => {
                let idx = self.routes.len();
                let ghost before = self.model();
                self.routes.push(Route { method: method.to_owned(), pattern: p });
                assert(self.model() =~= before.push(
                    RouteModel { method: method@, pattern: pattern_spec(pattern@)->0 },
                ));
                Some(idx)
            },
        }
    }

    /// The first route that answers `method` and matches `path`, with the
    /// pairs that its placeholders captured.
    pub fn find(&self, method: &str, path: &str) -> (r: Option<(usize, Vec<(String, String)>)>)
        ensures
            match r {
                Some(t) => find_spec(self.model(), method@, path@) == Some(
                    (t.0 as int, pairs_view(t.1@)),
                ),
                None => find_spec(self.model(), method@, path@) is None,
            },
    {
        let segs = match split_path(path) {
            Some(s) => s,
            None => return None,
        };
        let m = method.to_owned();
        let ghost sv = strings_view(segs@);
        assert(find_spec(self.model(), method@, path@) == find_from(self.model(), method@, sv, 0));
        let mut i: usize = 0;
        while i < self.routes.len()
            invariant
                i <= self.routes@.len(),
                sv == strings_view(segs@),
                m@ == method@,
                find_spec(self.model(), method@, path@) == find_from(self.model(), method@, sv, 0),
                find_from(self.model(), method@, sv, 0) == find_from(self.model(), method@, sv, i as int),
            decreases self.routes@.len() - i,
        {
            let route = &self.routes[i];
            assert(self.model()[i as int] == RouteModel { method: route.method@, pattern: segments_model(route.pattern@) });
            if route.method == m {
                match match_segments(&route.pattern, &segs) {
                    Some(caps) => {
                        assert(route.method@ == method@);
                        assert(self.model()[i as int].method == method@);
                        assert(find_from(self.model(), method@, sv, i as int) == Some(
                            (i as int, pairs_view(caps@)),
                        ));
                        return Some((i, caps));
                    },
                    None => {},
                }
            }
            i = i + 1;
        }
        None
    }

    /// Where a request goes. A request that no route matches goes to the
    /// not-found service with no parameters; a matched one carries exactly
    /// what its route's placeholders captured.
    pub fn resolve(&self, method: &str, path: &str) -> (r: Resolved)
        ensures
            match find_spec(self.model(), method@, path@) {
                Some(t) => r.target == Target::Route(t.0 as usize) && pairs_view(r.params@) == t.1,
                None => r.target == Target::NotFound && r.params@.len() == 0,
            },
    {
        match self.find(method, path) {
            Some((i, params)) => Resolved { target: Target::Route(i), params },
            None => Resolved { target: Target::NotFound, params: Vec::new() },
        }
    }
}

} // verus!
