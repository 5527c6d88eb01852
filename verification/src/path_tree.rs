//! The routing trie. A registered path is a sequence of segments, each an
//! exact component or a named parameter; a lookup walks the tree component
//! by component, trying the exact edge first and falling back to the
//! parameter edge (with backtracking), so an exact route always takes
//! precedence over a parameter route for the same path.

use vstd::prelude::*;

verus! {

/// One pattern segment: an exact path component, or a named parameter
/// capturing whatever component stands in its place.
#[derive(Debug, Clone, PartialEq, Eq)]
pub enum Segment {
    Exact(String),
    Param(String),
}

pub open spec fn seg_is_param(s: Segment) -> bool {
    match s {
        Segment::Exact(_) => false,
        Segment::Param(_) => true,
    }
}

pub open spec fn seg_text(s: Segment) -> Seq<char> {
    match s {
        Segment::Exact(t) => t@,
        Segment::Param(t) => t@,
    }
}

/// A pattern as specifications speak of it: for each segment, whether it is
/// a parameter, and its text.
pub open spec fn spec_pattern_of(segs: Seq<Segment>) -> Seq<(bool, Seq<char>)> {
    segs.map_values(|s: Segment| (seg_is_param(s), seg_text(s)))
}

/// A successful lookup: the registered value, and the captured parameters
/// as (name, component) pairs in path order.
pub struct PathMatch<'a, V> {
    pub value: &'a V,
    pub params: Vec<(String, String)>,
}

/// The trie node: an optional value for the pattern ending here, exact
/// edges keyed by their component, and at most one parameter edge carrying
/// the parameter's name. A second parameter registered at the same spot
/// shares the edge; the first registration's name stays.
pub struct PathTree<V> {
    pub value: Option<V>,
    pub children: Vec<(String, PathTree<V>)>,
    pub param: Option<(String, Box<PathTree<V>>)>,
}

/// The first exact edge with the given component, if any.
pub open spec fn spec_child<V>(children: Seq<(String, PathTree<V>)>, name: Seq<char>) -> Option<
    PathTree<V>,
>
    decreases children.len(),
{
    if children.len() == 0 {
        Option::None
    } else if children[0].0@ == name {
        Option::Some(children[0].1)
    } else {
        spec_child(children.drop_first(), name)
    }
}

/// Lookup of a concrete path (from component `i` on): the value found and
/// the captured parameters, exact edges tried before the parameter edge.
pub open spec fn spec_find<V>(t: PathTree<V>, parts: Seq<Seq<char>>, i: int) -> Option<
    (V, Seq<(Seq<char>, Seq<char>)>),
>
    decreases parts.len() - i,
{
    if i < 0 || i >= parts.len() {
        match t.value {
            Option::Some(v) => Option::Some((v, Seq::empty())),
            Option::None => Option::None,
        }
    } else {
        let head = parts[i];
        let via_exact = match spec_child(t.children@, head) {
            Option::Some(sub) => spec_find(sub, parts, i + 1),
            Option::None => Option::None,
        };
        match via_exact {
            Option::Some(r) => Option::Some(r),
            Option::None => match t.param {
                Option::Some(p) => match spec_find(*p.1, parts, i + 1) {
                    Option::Some((v, ps)) => Option::Some((v, seq![(p.0@, head)] + ps)),
                    Option::None => Option::None,
                },
                Option::None => Option::None,
            },
        }
    }
}

/// Lookup of a registered pattern itself (no backtracking: a pattern names
/// its spot in the tree uniquely).
pub open spec fn spec_pattern_lookup<V>(t: PathTree<V>, pat: Seq<(bool, Seq<char>)>) -> Option<V>
    decreases pat.len(),
{
    if pat.len() == 0 {
        t.value
    } else if !pat[0].0 {
        match spec_child(t.children@, pat[0].1) {
            Option::Some(sub) => spec_pattern_lookup(sub, pat.drop_first()),
            Option::None => Option::None,
        }
    } else {
        match t.param {
            Option::Some(p) => spec_pattern_lookup(*p.1, pat.drop_first()),
            Option::None => Option::None,
        }
    }
}

/// A fresh leaf holds nothing.
pub open spec fn spec_tree_is_empty<V>(t: PathTree<V>) -> bool {
    t.value is None && t.children@.len() == 0 && t.param is None
}

proof fn lemma_spec_child_at<V>(children: Seq<(String, PathTree<V>)>, name: Seq<char>, j: int)
    requires
        0 <= j < children.len(),
        children[j].0@ == name,
        forall|k: int| 0 <= k < j ==> (#[trigger] children[k]).0@ != name,
    ensures
        spec_child(children, name) == Option::Some(children[j].1),
    decreases j,
{
    if j > 0 {
        lemma_spec_child_at(children.drop_first(), name, j - 1);
        assert(children.drop_first()[j - 1] == children[j]);
        assert(forall|k: int|
            0 <= k < j - 1 ==> (#[trigger] children.drop_first()[k]) == children[k + 1]);
    }
}

proof fn lemma_spec_child_none<V>(children: Seq<(String, PathTree<V>)>, name: Seq<char>)
    requires
        forall|k: int| 0 <= k < children.len() ==> (#[trigger] children[k]).0@ != name,
    ensures
        spec_child(children, name) is None,
    decreases children.len(),
{
    if children.len() > 0 {
        lemma_spec_child_none(children.drop_first(), name);
    }
}

/// Nothing is registered anywhere in an empty leaf.
proof fn lemma_lookup_empty<V>(t: PathTree<V>, pat: Seq<(bool, Seq<char>)>)
    requires
        spec_tree_is_empty(t),
    ensures
        spec_pattern_lookup(t, pat) is None,
{
    if pat.len() > 0 && !pat[0].0 {
        assert(spec_child(t.children@, pat[0].1) is None);
    }
}

/// Two patterns address the same spot in the tree: same length, the same
/// segment kinds, and the same texts on the exact segments (a parameter
/// segment's name does not matter for the spot it occupies).
pub open spec fn same_pattern(p: Seq<(bool, Seq<char>)>, q: Seq<(bool, Seq<char>)>) -> bool {
    p.len() == q.len() && forall|k: int|
        0 <= k < p.len() ==> ((#[trigger] p[k]).0 == (#[trigger] q[k]).0 && (!p[k].0 ==> p[k].1
            == q[k].1))
}

/// Replacing the subtree behind one edge leaves `spec_child` unchanged for
/// every other component.
proof fn lemma_spec_child_same_names<V>(
    c1: Seq<(String, PathTree<V>)>,
    c2: Seq<(String, PathTree<V>)>,
    j: int,
    other: Seq<char>,
)
    requires
        c1.len() == c2.len(),
        0 <= j < c1.len(),
        forall|k: int| 0 <= k < c1.len() && k != j ==> c2[k] == c1[k],
        c1[j].0@ == c2[j].0@,
        c1[j].0@ != other,
    ensures
        spec_child(c2, other) == spec_child(c1, other),
    decreases c1.len(),
{
    if j == 0 {
        assert(c2[0].0@ != other);
        assert(c2.drop_first() =~= c1.drop_first());
    } else {
        assert(c2[0] == c1[0]);
        if c1[0].0@ != other {
            assert(forall|k: int|
                0 <= k < c1.drop_first().len() && k != j - 1 ==> c2.drop_first()[k]
                    == c1.drop_first()[k]);
            assert(c1.drop_first()[j - 1] == c1[j]);
            assert(c2.drop_first()[j - 1] == c2[j]);
            lemma_spec_child_same_names(c1.drop_first(), c2.drop_first(), j - 1, other);
        }
    }
}

/// Appending an edge leaves `spec_child` unchanged for every other
/// component.
proof fn lemma_spec_child_push_other<V>(
    c: Seq<(String, PathTree<V>)>,
    e: (String, PathTree<V>),
    other: Seq<char>,
)
    requires
        e.0@ != other,
    ensures
        spec_child(c.push(e), other) == spec_child(c, other),
    decreases c.len(),
{
    if c.len() == 0 {
        assert(c.push(e)[0] == e);
        assert(c.push(e).drop_first() =~= Seq::<(String, PathTree<V>)>::empty());
        assert(spec_child(Seq::<(String, PathTree<V>)>::empty(), other) is None);
        assert(spec_child(c.push(e), other) is None);
        assert(spec_child(c, other) is None);
    } else {
        assert(c.push(e)[0] == c[0]);
        assert(c.push(e).drop_first() =~= c.drop_first().push(e));
        lemma_spec_child_push_other(c.drop_first(), e, other);
    }
}

/// A pattern whose head addresses the same edge and whose tail addresses
/// the same spot addresses the same spot.
proof fn lemma_same_pattern_cons(p: Seq<(bool, Seq<char>)>, q: Seq<(bool, Seq<char>)>)
    requires
        p.len() > 0,
        q.len() > 0,
        p[0].0 == q[0].0,
        !p[0].0 ==> p[0].1 == q[0].1,
        same_pattern(p.drop_first(), q.drop_first()),
    ensures
        same_pattern(p, q),
{
    assert forall|k: int|
        0 <= k < p.len() implies ((#[trigger] p[k]).0 == (#[trigger] q[k]).0 && (!p[k].0 ==> p[k].1
            == q[k].1)) by {
        if k > 0 {
            assert(p.drop_first()[k - 1] == p[k]);
            assert(q.drop_first()[k - 1] == q[k]);
        }
    }
}

impl<V> PathTree<V> {
    /// A leaf with nothing registered.
    pub fn empty() -> (t: Self)
        ensures
            spec_tree_is_empty(t),
    {
        PathTree { value: None, children: Vec::new(), param: None }
    }

    /// The first exact edge with this component.
    fn find_child_index(&self, name: &String) -> (r: Option<usize>)
        ensures
            match r {
                Some(j) => j < self.children@.len() && self.children@[j as int].0@ == name@
                    && spec_child(self.children@, name@) == Option::Some(
                    self.children@[j as int].1,
                ) && forall|k: int|
                    0 <= k < j ==> (#[trigger] self.children@[k]).0@ != name@,
                None => spec_child(self.children@, name@) is None && forall|k: int|
                    0 <= k < self.children@.len() ==> (#[trigger] self.children@[k]).0@ != name@,
            },
    {
        let n: usize = self.children.len();
        let mut j: usize = 0;
        while j < n
            invariant
                j <= n,
                n == self.children@.len(),
                forall|k: int| 0 <= k < j ==> (#[trigger] self.children@[k]).0@ != name@,
            decreases n - j,
        {
            if self.children[j].0.eq(name) {
                proof {
                    lemma_spec_child_at(self.children@, name@, j as int);
                }
                return Some(j);
            }
            j = j + 1;
        }
        proof {
            lemma_spec_child_none(self.children@, name@);
        }
        None
    }

    /// Finds the value registered for the path components from `i` on,
    /// exact edges before the parameter edge, with backtracking.
    pub fn find_at<'a>(&'a self, parts: &Vec<String>, i: usize) -> (r: Option<
        (&'a V, Vec<(String, String)>),
    >)
        requires
            i <= parts@.len(),
        ensures
            match r {
                None => spec_find(*self, parts@.map_values(|s: String| s@), i as int) is None,
                Some(m) => spec_find(*self, parts@.map_values(|s: String| s@), i as int)
                    matches Option::Some(sm) && *m.0 == sm.0 && m.1@.map_values(
                    |p: (String, String)| (p.0@, p.1@),
                ) == sm.1,
            },
        decreases parts@.len() - i,
    {
        let ghost pviews: Seq<Seq<char>> = parts@.map_values(|s: String| s@);
        if i == parts.len() {
            match &self.value {
                Some(v) => {
                    let out: Vec<(String, String)> = Vec::new();
                    proof {
                        assert(out@.map_values(|p: (String, String)| (p.0@, p.1@)) =~= Seq::<
                            (Seq<char>, Seq<char>),
                        >::empty());
                    }
                    Some((v, out))
                },
                None => None,
            }
        } else {
            let head: &String = &parts[i];
            let exact = self.find_child_index(head);
            match exact {
                Some(j) => {
                    let sub = self.children[j].1.find_at(parts, i + 1);
                    match sub {
                        Some(m) => {
                            return Some(m);
                        },
                        None => {},
                    }
                },
                None => {},
            }
            proof {
                if exact is Some {
                    assert(spec_child(self.children@, pviews[i as int]) == Option::Some(
                        self.children@[exact->0 as int].1,
                    ));
                }
            }
            match &self.param {
                Some(p) => {
                    let sub = p.1.find_at(parts, i + 1);
                    match sub {
                        Some(m) => {
                            let (v, ps) = m;
                            let mut rest: Vec<(String, String)> = ps;
                            let mut out: Vec<(String, String)> = Vec::new();
                            out.push((p.0.clone(), parts[i].clone()));
                            out.append(&mut rest);
                            proof {
                                let srp = (spec_find(*self, pviews, i as int))->0;
                                assert(out@.map_values(|q: (String, String)| (q.0@, q.1@))
                                    =~= srp.1);
                            }
                            Some((v, out))
                        },
                        None => None,
                    }
                },
                None => None,
            }
        }
    }

    /// Registers a value for the pattern from segment `i` on, creating the
    /// spine as needed. Returns the value previously registered for that
    /// very pattern, which the new value replaces.
    pub fn insert_at(&mut self, segs: &Vec<Segment>, i: usize, value: V) -> (r: Option<V>)
        requires
            i <= segs@.len(),
        ensures
            r == spec_pattern_lookup(*old(self), spec_pattern_of(segs@).skip(i as int)),
            spec_pattern_lookup(*final(self), spec_pattern_of(segs@).skip(i as int))
                == Option::Some(value),
            forall|q: Seq<(bool, Seq<char>)>|
                !same_pattern(spec_pattern_of(segs@).skip(i as int), q)
                    ==> #[trigger] spec_pattern_lookup(*final(self), q) == spec_pattern_lookup(
                    *old(self),
                    q,
                ),
        decreases segs@.len() - i,
    {
        let ghost pat: Seq<(bool, Seq<char>)> = spec_pattern_of(segs@).skip(i as int);
        if i == segs.len() {
            let prev = self.value.take();
            self.value = Some(value);
            proof {
                assert forall|q: Seq<(bool, Seq<char>)>|
                    !same_pattern(pat, q) implies #[trigger] spec_pattern_lookup(*self, q)
                    == spec_pattern_lookup(*old(self), q) by {
                    if q.len() == 0 {
                        assert(same_pattern(pat, q));
                    } else {
                        assert(self.children@ == old(self).children@);
                        assert(self.param == old(self).param);
                    }
                }
            }
            prev
        } else {
            proof {
                assert(pat[0] == (seg_is_param(segs@[i as int]), seg_text(segs@[i as int])));
                assert(pat.drop_first() =~= spec_pattern_of(segs@).skip(i + 1 as int));
            }
            match &segs[i] {
                Segment::Exact(name) => {
                    let found = self.find_child_index(name);
                    let ghost was_found: bool = found is Some;
                    let j: usize = match found {
                        Some(j) => j,
                        None => {
                            let fresh: (String, PathTree<V>) = (name.clone(), PathTree::empty());
                            self.children.push(fresh);
                            proof {
                                lemma_spec_child_at(
                                    self.children@,
                                    name@,
                                    self.children@.len() - 1,
                                );
                            }
                            self.children.len() - 1
                        },
                    };
                    let ghost before: Seq<(String, PathTree<V>)> = self.children@;
                    let mut entry: (String, PathTree<V>) = self.children.remove(j);
                    let ghost e0: (String, PathTree<V>) = entry;
                    let r = entry.1.insert_at(segs, i + 1, value);
                    self.children.insert(j, entry);
                    proof {
                        assert(e0 == before[j as int]);
                        assert(forall|k: int|
                            0 <= k < before.len() && k != j ==> #[trigger] self.children@[k]
                                == before[k]);
                        assert(forall|k: int|
                            0 <= k < j ==> (#[trigger] self.children@[k]).0@ != name@);
                        assert(self.children@[j as int].0@ == name@);
                        lemma_spec_child_at(self.children@, name@, j as int);
                        assert(spec_pattern_lookup(*self, pat) == Option::Some(value));
                        if !was_found {
                            assert(spec_tree_is_empty(e0.1));
                            assert(spec_pattern_lookup(*old(self), pat) is None);
                        }
                        assert forall|q: Seq<(bool, Seq<char>)>|
                            !same_pattern(pat, q) implies #[trigger] spec_pattern_lookup(*self, q)
                            == spec_pattern_lookup(*old(self), q) by {
                            if q.len() == 0 {
                                assert(self.value == old(self).value);
                            } else if q[0].0 {
                                assert(self.param == old(self).param);
                            } else if q[0].1 != name@ {
                                lemma_spec_child_same_names(before, self.children@, j as int, q[0].1);
                                if !was_found {
                                    lemma_spec_child_push_other(
                                        old(self).children@,
                                        before[before.len() - 1],
                                        q[0].1,
                                    );
                                    assert(before =~= old(self).children@.push(
                                        before[before.len() - 1],
                                    ));
                                }
                                assert(spec_child(self.children@, q[0].1) == spec_child(
                                    old(self).children@,
                                    q[0].1,
                                ));
                            } else {
                                if same_pattern(pat.drop_first(), q.drop_first()) {
                                    lemma_same_pattern_cons(pat, q);
                                    assert(false);
                                }
                                assert(spec_pattern_lookup(self.children@[j as int].1, q.drop_first())
                                    == spec_pattern_lookup(e0.1, q.drop_first()));
                                if was_found {
                                    assert(spec_child(old(self).children@, name@) == Option::Some(
                                        e0.1,
                                    ));
                                } else {
                                    lemma_lookup_empty(e0.1, q.drop_first());
                                    assert(spec_child(old(self).children@, name@) is None);
                                }
                            }
                        }
                    }
                    r
                },
                Segment::Param(name) => {
                    let taken = self.param.take();
                    let ghost had: bool = taken is Some;
                    let mut p: (String, Box<PathTree<V>>) = match taken {
                        Some(p) => p,
                        None => (name.clone(), Box::new(PathTree::empty())),
                    };
                    let ghost p0: PathTree<V> = *p.1;
                    let r = p.1.insert_at(segs, i + 1, value);
                    self.param = Some(p);
                    proof {
                        if had {
                            assert(old(self).param matches Option::Some(po) && *po.1 == p0);
                        } else {
                            assert(spec_tree_is_empty(p0));
                            assert(old(self).param is None);
                        }
                        assert forall|q: Seq<(bool, Seq<char>)>|
                            !same_pattern(pat, q) implies #[trigger] spec_pattern_lookup(*self, q)
                            == spec_pattern_lookup(*old(self), q) by {
                            if q.len() == 0 {
                                assert(self.value == old(self).value);
                            } else if !q[0].0 {
                                assert(self.children@ == old(self).children@);
                            } else {
                                if same_pattern(pat.drop_first(), q.drop_first()) {
                                    lemma_same_pattern_cons(pat, q);
                                    assert(false);
                                }
                                let pcur = self.param->0;
                                assert(spec_pattern_lookup(*pcur.1, q.drop_first())
                                    == spec_pattern_lookup(p0, q.drop_first()));
                                if !had {
                                    lemma_lookup_empty(p0, q.drop_first());
                                }
                            }
                        }
                    }
                    r
                },
            }
        }
    }
}

/// A concrete path, read as the pattern that matches exactly it.
pub open spec fn exact_pattern(parts: Seq<Seq<char>>) -> Seq<(bool, Seq<char>)> {
    parts.map_values(|t: Seq<char>| (false, t))
}

/// A route registered under a pattern without parameters is always found
/// by a lookup of exactly that path, captures nothing, and — because exact
/// edges are tried first — cannot be shadowed by any parameter route.
pub proof fn lemma_exact_route_found<V>(t: PathTree<V>, parts: Seq<Seq<char>>, i: int, v: V)
    requires
        0 <= i <= parts.len(),
        spec_pattern_lookup(t, exact_pattern(parts.skip(i))) == Option::Some(v),
    ensures
        spec_find(t, parts, i) == Option::Some((v, Seq::<(Seq<char>, Seq<char>)>::empty())),
    decreases parts.len() - i,
{
    let pat = exact_pattern(parts.skip(i));
    if i == parts.len() {
        assert(pat.len() == 0);
        assert(t.value == Option::Some(v));
    } else {
        assert(pat[0] == (false, parts[i]));
        assert(pat.drop_first() =~= exact_pattern(parts.skip(i + 1)));
        let sub = spec_child(t.children@, parts[i])->0;
        lemma_exact_route_found(sub, parts, i + 1, v);
    }
}

} // verus!
