//! The router: one routing trie per HTTP method. Paths are sanitized into
//! their non-empty components, a leading colon marks a parameter segment,
//! and lookups go through the trie with exact-over-parameter precedence.

use crate::path_tree::{
    exact_pattern, lemma_exact_route_found, same_pattern, seg_is_param, seg_text, spec_find,
    spec_pattern_lookup, spec_pattern_of, spec_tree_is_empty, PathMatch, PathTree, Segment,
};
use crate::textfmt::push_char;
use vstd::prelude::*;
use vstd::string::StrSliceExecFns;
use vstd::string::StringExecFns;

verus! {

/// A request method.
#[derive(Clone, Copy, Debug, PartialEq, Eq, Structural, Hash)]
pub enum HttpMethod {
    GET,
    POST,
    PUT,
    DELETE,
    PATCH,
    HEAD,
    OPTIONS,
}

/// How many methods there are; the router keeps one trie per method.
pub const METHOD_COUNT: usize = 7;

impl HttpMethod {
    /// Each method's slot in the router's trie table.
    pub open spec fn spec_index(self) -> int {
        match self {
            HttpMethod::GET => 0,
            HttpMethod::POST => 1,
            HttpMethod::PUT => 2,
            HttpMethod::DELETE => 3,
            HttpMethod::PATCH => 4,
            HttpMethod::HEAD => 5,
            HttpMethod::OPTIONS => 6,
        }
    }

    pub fn index(&self) -> (i: usize)
        ensures
            i == self.spec_index(),
            i < METHOD_COUNT,
    {
        match self {
            HttpMethod::GET => 0,
            HttpMethod::POST => 1,
            HttpMethod::PUT => 2,
            HttpMethod::DELETE => 3,
            HttpMethod::PATCH => 4,
            HttpMethod::HEAD => 5,
            HttpMethod::OPTIONS => 6,
        }
    }

    /// The method's name.
    pub open spec fn spec_name(self) -> Seq<char> {
        match self {
            HttpMethod::GET => "GET"@,
            HttpMethod::POST => "POST"@,
            HttpMethod::PUT => "PUT"@,
            HttpMethod::DELETE => "DELETE"@,
            HttpMethod::PATCH => "PATCH"@,
            HttpMethod::HEAD => "HEAD"@,
            HttpMethod::OPTIONS => "OPTIONS"@,
        }
    }

    pub fn name(&self) -> (r: String)
        ensures
            r@ == self.spec_name(),
    {
        match self {
            HttpMethod::GET => String::from_str("GET"),
            HttpMethod::POST => String::from_str("POST"),
            HttpMethod::PUT => String::from_str("PUT"),
            HttpMethod::DELETE => String::from_str("DELETE"),
            HttpMethod::PATCH => String::from_str("PATCH"),
            HttpMethod::HEAD => String::from_str("HEAD"),
            HttpMethod::OPTIONS => String::from_str("OPTIONS"),
        }
    }
}

/// Why a route could not be registered.
#[derive(Debug, Clone, PartialEq, Eq)]
pub enum RouterError {
    /// The same method and path pattern were registered twice; carries the
    /// rendered route.
    DuplicateRoute(String),
}

impl RouterError {
    /// The rendered form: the route followed by `: duplicate route`.
    pub open spec fn spec_display(self) -> Seq<char> {
        match self {
            RouterError::DuplicateRoute(r) => r@ + ": duplicate route"@,
        }
    }

    pub fn display_text(&self) -> (r: String)
        ensures
            r@ == self.spec_display(),
    {
        match self {
            RouterError::DuplicateRoute(m) => {
                let mut s = m.clone();
                s.append(": duplicate route");
                s
            },
        }
    }
}

/// A route offered for registration: its path pattern, its method, and the
/// handler value to register.
pub struct Routable<H> {
    pub path: String,
    pub method: HttpMethod,
    pub handler: H,
}

/// A route as the router stores it while registering.
pub struct Route<H> {
    pub path: String,
    pub method: HttpMethod,
    pub handler: H,
}

/// The non-empty components of a path: split on slashes, empty components
/// (from leading, trailing or doubled slashes) dropped.
pub open spec fn spec_split_acc(s: Seq<char>, cur: Seq<char>) -> Seq<Seq<char>>
    decreases s.len(),
{
    if s.len() == 0 {
        if cur.len() > 0 {
            seq![cur]
        } else {
            Seq::empty()
        }
    } else if s[0] == '/' {
        (if cur.len() > 0 {
            seq![cur]
        } else {
            Seq::empty()
        }) + spec_split_acc(s.drop_first(), Seq::empty())
    } else {
        spec_split_acc(s.drop_first(), cur.push(s[0]))
    }
}

pub open spec fn spec_sanitize(path: Seq<char>) -> Seq<Seq<char>> {
    spec_split_acc(path, Seq::empty())
}

/// How one sanitized component reads as a pattern segment: a leading colon
/// marks a parameter named by the rest; anything else matches exactly.
pub open spec fn spec_component_pattern(t: Seq<char>) -> (bool, Seq<char>) {
    if t.len() > 0 && t[0] == ':' {
        (true, t.drop_first())
    } else {
        (false, t)
    }
}

/// The whole path as a pattern.
pub open spec fn spec_path_pattern(path: Seq<char>) -> Seq<(bool, Seq<char>)> {
    spec_sanitize(path).map_values(|t: Seq<char>| spec_component_pattern(t))
}

/// The registry: one trie per method, with handlers of type `H` at the
/// registered patterns.
pub struct Router<H> {
    trees: Vec<PathTree<H>>,
}

impl<H> Router<H> {
    /// One trie per method.
    pub closed spec fn wf(self) -> bool {
        self.trees@.len() == METHOD_COUNT
    }

    /// The trie serving one method.
    pub closed spec fn spec_tree(self, method: HttpMethod) -> PathTree<H> {
        self.trees@[method.spec_index()]
    }

    /// The handler registered for exactly this pattern under this method.
    pub open spec fn spec_route_at(self, method: HttpMethod, path: Seq<char>) -> Option<H> {
        spec_pattern_lookup(self.spec_tree(method), spec_path_pattern(path))
    }

    pub fn new() -> (r: Self)
        ensures
            r.wf(),
            forall|m: HttpMethod| spec_tree_is_empty(#[trigger] r.spec_tree(m)),
    {
        let mut trees: Vec<PathTree<H>> = Vec::new();
        let mut i: usize = 0;
        while i < METHOD_COUNT
            invariant
                i <= METHOD_COUNT,
                trees@.len() == i,
                forall|k: int| 0 <= k < i ==> spec_tree_is_empty(#[trigger] trees@[k]),
            decreases METHOD_COUNT - i,
        {
            trees.push(PathTree::empty());
            i = i + 1;
        }
        Router { trees }
    }

    /// Splits a path into its non-empty components.
    pub fn sanitize_path(path: &str) -> (r: Vec<String>)
        ensures
            r@.map_values(|s: String| s@) == spec_sanitize(path@),
    {
        let n: usize = path.unicode_len();
        let mut out: Vec<String> = Vec::new();
        let mut cur = String::new();
        let mut i: usize = 0;
        proof {
            assert(path@.skip(0) =~= path@);
            assert(out@.map_values(|s: String| s@) =~= Seq::<Seq<char>>::empty());
            assert(out@.map_values(|s: String| s@) + spec_split_acc(path@.skip(0), cur@)
                =~= spec_sanitize(path@));
        }
        while i < n
            invariant
                i <= n,
                n == path@.len(),
                spec_sanitize(path@) == out@.map_values(|s: String| s@) + spec_split_acc(
                    path@.skip(i as int),
                    cur@,
                ),
            decreases n - i,
        {
            let c: char = path.get_char(i);
            proof {
                assert(path@.skip(i as int)[0] == path@[i as int]);
                assert(path@.skip(i as int).drop_first() =~= path@.skip(i + 1 as int));
            }
            if c == '/' {
                if !cur.as_str().is_empty() {
                    let ghost gout: Seq<Seq<char>> = out@.map_values(|s: String| s@);
                    let ghost gcur: Seq<char> = cur@;
                    out.push(cur);
                    cur = String::new();
                    proof {
                        assert(out@.map_values(|s: String| s@) =~= gout.push(gcur));
                        assert(gout + (seq![gcur] + spec_split_acc(
                            path@.skip(i + 1 as int),
                            Seq::empty(),
                        )) =~= gout.push(gcur) + spec_split_acc(
                            path@.skip(i + 1 as int),
                            Seq::empty(),
                        ));
                    }
                } else {
                    proof {
                        assert(cur@ =~= Seq::<char>::empty());
                        let rest = spec_split_acc(path@.skip(i + 1 as int), Seq::<char>::empty());
                        assert(spec_split_acc(path@.skip(i as int), cur@) == Seq::<
                            Seq<char>,
                        >::empty() + rest);
                        assert(Seq::<Seq<char>>::empty() + rest =~= rest);
                    }
                }
            } else {
                push_char(&mut cur, c);
            }
            i = i + 1;
        }
        proof {
            assert(path@.skip(n as int) =~= Seq::<char>::empty());
        }
        if !cur.as_str().is_empty() {
            let ghost gout: Seq<Seq<char>> = out@.map_values(|s: String| s@);
            let ghost gcur: Seq<char> = cur@;
            out.push(cur);
            proof {
                assert(out@.map_values(|s: String| s@) =~= gout.push(gcur));
                assert(gout.push(gcur) =~= gout + seq![gcur]);
            }
        } else {
            proof {
                assert(out@.map_values(|s: String| s@) + spec_split_acc(
                    Seq::<char>::empty(),
                    cur@,
                ) =~= out@.map_values(|s: String| s@));
            }
        }
        out
    }

    /// Parses a path into pattern segments: a component starting with a
    /// colon becomes a parameter named by the rest, anything else an exact
    /// segment.
    pub fn parse_to_segment(path: &str) -> (r: Vec<Segment>)
        ensures
            spec_pattern_of(r@) == spec_path_pattern(path@),
    {
        let parts = Self::sanitize_path(path);
        let n: usize = parts.len();
        let ghost pviews: Seq<Seq<char>> = parts@.map_values(|s: String| s@);
        let mut out: Vec<Segment> = Vec::new();
        let mut i: usize = 0;
        while i < n
            invariant
                i <= n,
                n == parts@.len(),
                pviews == parts@.map_values(|s: String| s@),
                out@.len() == i,
                forall|k: int|
                    0 <= k < i ==> (seg_is_param(#[trigger] out@[k]), seg_text(out@[k]))
                        == spec_component_pattern(pviews[k]),
            decreases n - i,
        {
            let part: &String = &parts[i];
            let ps: &str = part.as_str();
            let is_param: bool = ps.unicode_len() > 0 && ps.get_char(0) == ':';
            if is_param {
                let rest: String = ps.substring_char(1, ps.unicode_len()).to_owned();
                proof {
                    assert(rest@ =~= pviews[i as int].drop_first());
                }
                out.push(Segment::Param(rest));
            } else {
                out.push(Segment::Exact(part.clone()));
            }
            i = i + 1;
        }
        proof {
            assert(spec_pattern_of(out@) =~= spec_path_pattern(path@));
        }
        out
    }

    /// The rendered route, `[METHOD] - "path"`.
    pub open spec fn spec_fmt_route(method: HttpMethod, path: Seq<char>) -> Seq<char> {
        seq!['['] + method.spec_name() + seq![']', ' ', '-', ' ', '"'] + path + seq!['"']
    }

    pub fn fmt_route(method: &HttpMethod, path: &str) -> (r: String)
        ensures
            r@ == Self::spec_fmt_route(*method, path@),
    {
        let mut s = String::new();
        push_char(&mut s, '[');
        let name = method.name();
        s.append(name.as_str());
        push_char(&mut s, ']');
        push_char(&mut s, ' ');
        push_char(&mut s, '-');
        push_char(&mut s, ' ');
        push_char(&mut s, '"');
        s.append(path);
        push_char(&mut s, '"');
        proof {
            assert(s@ =~= Self::spec_fmt_route(*method, path@));
        }
        s
    }

    /// Registers a route; a pattern already registered for the method is a
    /// duplicate and is reported as an error (the route stays registered,
    /// now with the new handler).
    pub fn add_route(&mut self, route: Route<H>) -> (r: Result<(), RouterError>)
        requires
            old(self).wf(),
        ensures
            final(self).wf(),
            final(self).spec_route_at(route.method, route.path@) == Option::Some(route.handler),
            r is Err <==> old(self).spec_route_at(route.method, route.path@) is Some,
            forall|m: HttpMethod|
                m != route.method ==> #[trigger] final(self).spec_tree(m) == old(self).spec_tree(
                    m,
                ),
            forall|q: Seq<(bool, Seq<char>)>|
                !same_pattern(spec_path_pattern(route.path@), q) ==> #[trigger] spec_pattern_lookup(
                    final(self).spec_tree(route.method),
                    q,
                ) == spec_pattern_lookup(old(self).spec_tree(route.method), q),
    {
        let segs = Self::parse_to_segment(route.path.as_str());
        let idx: usize = route.method.index();
        let ghost before: Seq<PathTree<H>> = self.trees@;
        let mut tree: PathTree<H> = self.trees.remove(idx);
        let prev = tree.insert_at(&segs, 0, route.handler);
        self.trees.insert(idx, tree);
        proof {
            assert(spec_pattern_of(segs@).skip(0) =~= spec_pattern_of(segs@));
            assert(forall|k: int| 0 <= k < before.len() && k != idx ==> self.trees@[k] == before[k]);
            assert(forall|m: HttpMethod|
                m != route.method ==> #[trigger] self.spec_tree(m) == old(self).spec_tree(m));
        }
        match prev {
            Some(_) => {
                let rendered = Self::fmt_route(&route.method, route.path.as_str());
                Err(RouterError::DuplicateRoute(rendered))
            },
            None => Ok(()),
        }
    }

    /// Registers a routable. Registering the same method and pattern twice
    /// is a caller error, ruled out here rather than detected at run time.
    pub fn register(&mut self, routable: Routable<H>)
        requires
            old(self).wf(),
            old(self).spec_route_at(routable.method, routable.path@) is None,
        ensures
            final(self).wf(),
            final(self).spec_route_at(routable.method, routable.path@) == Option::Some(
                routable.handler,
            ),
            forall|m: HttpMethod|
                m != routable.method ==> #[trigger] final(self).spec_tree(m) == old(
                    self,
                ).spec_tree(m),
            forall|q: Seq<(bool, Seq<char>)>|
                !same_pattern(spec_path_pattern(routable.path@), q)
                    ==> #[trigger] spec_pattern_lookup(final(self).spec_tree(routable.method), q)
                    == spec_pattern_lookup(old(self).spec_tree(routable.method), q),
    {
        let route = Route {
            path: routable.path,
            method: routable.method,
            handler: routable.handler,
        };
        // The precondition rules the duplicate out, so the outcome of the
        // registration carries no information.
        let outcome = self.add_route(route);
        match outcome {
            Ok(_) => {},
            Err(_) => {},
        }
    }

    /// Looks a concrete path up for a method: the sanitized components are
    /// matched against the method's trie, exact edges before parameter
    /// edges, and the captured parameters come back with the handler.
    pub fn get_route<'a>(&'a self, path: &str, method: &HttpMethod) -> (r: Option<
        PathMatch<'a, H>,
    >)
        requires
            self.wf(),
        ensures
            match r {
                None => spec_find(
                    self.spec_tree(*method),
                    spec_sanitize(path@),
                    0,
                ) is None,
                Some(m) => spec_find(self.spec_tree(*method), spec_sanitize(path@), 0)
                    matches Option::Some(sm) && *m.value == sm.0 && m.params@.map_values(
                    |p: (String, String)| (p.0@, p.1@),
                ) == sm.1,
            },
    {
        let parts = Self::sanitize_path(path);
        let idx: usize = method.index();
        let tree: &PathTree<H> = &self.trees[idx];
        let found = tree.find_at(&parts, 0);
        match found {
            Some(m) => Some(PathMatch { value: m.0, params: m.1 }),
            None => None,
        }
    }
}

/// A static route — one whose pattern has no parameter segments — that is
/// registered under a method is found by a lookup of its own path, with
/// nothing captured; since exact edges are tried before parameter edges,
/// no parameter route can shadow it.
pub proof fn lemma_static_route_found<H>(r: Router<H>, method: HttpMethod, path: Seq<char>, h: H)
    requires
        r.spec_route_at(method, path) == Option::Some(h),
        forall|k: int|
            0 <= k < spec_path_pattern(path).len() ==> !(#[trigger] spec_path_pattern(path)[k]).0,
    ensures
        spec_find(r.spec_tree(method), spec_sanitize(path), 0) == Option::Some(
            (h, Seq::<(Seq<char>, Seq<char>)>::empty()),
        ),
{
    assert(spec_path_pattern(path) =~= exact_pattern(spec_sanitize(path))) by {
        assert forall|k: int|
            0 <= k < spec_sanitize(path).len() implies spec_path_pattern(path)[k] == exact_pattern(
            spec_sanitize(path),
        )[k] by {
            assert(!spec_path_pattern(path)[k].0);
        }
    }
    assert(spec_sanitize(path).skip(0) =~= spec_sanitize(path));
    lemma_exact_route_found(r.spec_tree(method), spec_sanitize(path), 0, h);
}

} // verus!
