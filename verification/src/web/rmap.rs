//! The resource map: a tree of path patterns with handler slots and guard
//! lists, built once at start-up and read-only afterwards.
//!
//! Each node owns a pattern relative to the node above it, an optional
//! handler slot, a guard list and the nodes nested below it. A node stands
//! for one route if it has a slot: the route's pattern is the patterns from
//! the root down to the node, one after the other, and its guards are the
//! guards met on that way. The routes of a map are ordered as a walk meets
//! them that visits a node before the nodes nested in it, and those in the
//! order of their registration.
use super::guard::{all_pass, check_all, Guard};
use crate::http::message::RequestHead;
use crate::router::pattern::{
    match_at, matches_fully, param_views, segment_len, with_params, MatchView, Param, ParamView,
    ResourceDef, SegmentView, SLASH,
};
use vstd::prelude::*;

verus! {

/// One node of the map, with all that is nested below it.
pub struct ResourceMap<G> {
    pub rdef: ResourceDef,
    pub slot: Option<usize>,
    pub guards: Vec<G>,
    pub nested: Vec<ResourceMap<G>>,
}

/// One route: the full pattern, all guards that apply, the handler slot.
pub struct RouteView<G> {
    pub pattern: Seq<SegmentView>,
    pub guards: Seq<G>,
    pub slot: usize,
}

/// The route `r` of a nested map, seen from the enclosing node with
/// pattern `base` and guard list `guards`.
pub open spec fn under<G>(base: Seq<SegmentView>, guards: Seq<G>, r: RouteView<G>) -> RouteView<
    G,
> {
    RouteView { pattern: base + r.pattern, guards: guards + r.guards, slot: r.slot }
}

/// Whether the route applies to a request: the pattern matches the whole
/// path and every guard passes.
pub open spec fn route_matches<G: Guard>(
    r: RouteView<G>,
    path: Seq<u8>,
    head: RequestHead,
    ignore_case: bool,
) -> bool {
    matches_fully(r.pattern, path, ignore_case) && all_pass(r.guards, head)
}

/// Whether `at` is the position of the first route that applies.
pub open spec fn is_first_match<G: Guard>(
    routes: Seq<RouteView<G>>,
    path: Seq<u8>,
    head: RequestHead,
    ignore_case: bool,
    at: int,
) -> bool {
    &&& 0 <= at < routes.len()
    &&& route_matches(routes[at], path, head, ignore_case)
    &&& forall|j: int| 0 <= j < at ==> !route_matches(#[trigger] routes[j], path, head, ignore_case)
}

/// The position of the first route that applies, if a route applies.
pub open spec fn first_match<G: Guard>(
    routes: Seq<RouteView<G>>,
    path: Seq<u8>,
    head: RequestHead,
    ignore_case: bool,
) -> Option<int> {
    if exists|at: int| is_first_match(routes, path, head, ignore_case, at) {
        Some(choose|at: int| is_first_match(routes, path, head, ignore_case, at))
    } else {
        None
    }
}

/// Whether no route applies.
pub open spec fn no_match<G: Guard>(
    routes: Seq<RouteView<G>>,
    path: Seq<u8>,
    head: RequestHead,
    ignore_case: bool,
) -> bool {
    forall|j: int|
        0 <= j < routes.len() ==> !route_matches(#[trigger] routes[j], path, head, ignore_case)
}

/// `first_match` is the one position `at` with `is_first_match`, and it is
/// `None` exactly where no route applies.
pub proof fn lemma_first_match<G: Guard>(
    routes: Seq<RouteView<G>>,
    path: Seq<u8>,
    head: RequestHead,
    ignore_case: bool,
)
    ensures
        forall|at: int| #[trigger]
            is_first_match(routes, path, head, ignore_case, at) <==> first_match(
                routes,
                path,
                head,
                ignore_case,
            ) == Some(at),
        first_match(routes, path, head, ignore_case) is None <==> no_match(
            routes,
            path,
            head,
            ignore_case,
        ),
{
    assert forall|at: int| #[trigger]
        is_first_match(routes, path, head, ignore_case, at) implies first_match(
        routes,
        path,
        head,
        ignore_case,
    ) == Some(at) by {
    }
    if first_match(routes, path, head, ignore_case) is None && !no_match(
        routes,
        path,
        head,
        ignore_case,
    ) {
        lemma_some_route_is_first(routes, path, head, ignore_case, routes.len() as int);
    }
}

/// Where a route among the first `n` applies, one of them is the first.
pub proof fn lemma_some_route_is_first<G: Guard>(
    routes: Seq<RouteView<G>>,
    path: Seq<u8>,
    head: RequestHead,
    ignore_case: bool,
    n: int,
)
    requires
        0 <= n <= routes.len(),
        exists|j: int| 0 <= j < n && route_matches(#[trigger] routes[j], path, head, ignore_case),
    ensures
        exists|at: int| is_first_match(routes, path, head, ignore_case, at),
    decreases n,
{
    if exists|j: int|
        0 <= j < n - 1 && route_matches(#[trigger] routes[j], path, head, ignore_case) {
        lemma_some_route_is_first(routes, path, head, ignore_case, n - 1);
    } else {
        assert(is_first_match(routes, path, head, ignore_case, n - 1));
    }
}

/// The parameters that a pattern captures from a path that it matches.
pub open spec fn captured(pattern: Seq<SegmentView>, path: Seq<u8>, ignore_case: bool) -> Seq<
    ParamView,
> {
    match match_at(pattern, path, ignore_case) {
        Some(m) => m.params,
        None => Seq::empty(),
    }
}

impl<G: Guard> ResourceMap<G> {
    /// The routes of this node and of all nested below it, in order.
    pub open spec fn routes(self) -> Seq<RouteView<G>>
        decreases self,
    {
        let own = match self.slot {
            Some(slot) => seq![RouteView { pattern: self.rdef@, guards: self.guards@, slot }],
            None => Seq::empty(),
        };
        own + Self::routes_of(self.nested@).map_values(
            |r: RouteView<G>| under(self.rdef@, self.guards@, r),
        )
    }

    /// The routes of a list of nodes, in order.
    pub open spec fn routes_of(nodes: Seq<ResourceMap<G>>) -> Seq<RouteView<G>>
        decreases nodes,
    {
        if nodes.len() == 0 {
            Seq::empty()
        } else {
            Self::routes_of(nodes.drop_last()) + nodes.last().routes()
        }
    }

    /// Every slot in the map is below `bound`.
    pub open spec fn slots_below(self, bound: nat) -> bool {
        forall|i: int| 0 <= i < self.routes().len() ==> (#[trigger] self.routes()[i]).slot < bound
    }
}

/// Matching two patterns one after the other is matching the first and
/// then the second on what the first left.
pub proof fn lemma_match_concat(
    a: Seq<SegmentView>,
    b: Seq<SegmentView>,
    path: Seq<u8>,
    ignore_case: bool,
)
    ensures
        match_at(a + b, path, ignore_case) == match match_at(a, path, ignore_case) {
            Some(m) => with_params(m.params, match_at(b, m.rest, ignore_case)),
            None => None,
        },
    decreases a.len(),
{
    let whole = match_at(a + b, path, ignore_case);
    if a.len() == 0 {
        assert(a + b =~= b);
        if let Some(m) = match_at(b, path, ignore_case) {
            assert(Seq::<ParamView>::empty() + m.params =~= m.params);
        }
    } else {
        assert((a + b).skip(1) =~= a.skip(1) + b);
        if path.len() > 0 && path[0] == SLASH {
            let body = path.skip(1);
            let n = segment_len(body);
            let seg = body.take(n);
            let rest = body.skip(n);
            lemma_match_concat(a.skip(1), b, rest, ignore_case);
            match a[0] {
                SegmentView::Static(lit) => {},
                SegmentView::Param(name) => {
                    if n > 0 {
                        let first = seq![ParamView { name, value: seg }];
                        match match_at(a.skip(1), rest, ignore_case) {
                            Some(m1) => {
                                match match_at(b, m1.rest, ignore_case) {
                                    Some(m2) => {
                                        assert(first + (m1.params + m2.params) =~= (first
                                            + m1.params) + m2.params);
                                    },
                                    None => {},
                                }
                            },
                            None => {},
                        }
                    }
                },
            }
        }
    }
}

/// A guard list in two parts passes if and only if both parts pass.
pub proof fn lemma_all_pass_concat<G: Guard>(a: Seq<G>, b: Seq<G>, head: RequestHead)
    ensures
        all_pass(a + b, head) == (all_pass(a, head) && all_pass(b, head)),
{
    if all_pass(a + b, head) {
        assert forall|i: int| 0 <= i < a.len() implies (#[trigger] a[i]).passes(head) by {
            assert((a + b)[i] == a[i]);
        }
        assert forall|i: int| 0 <= i < b.len() implies (#[trigger] b[i]).passes(head) by {
            assert((a + b)[a.len() + i] == b[i]);
        }
    }
    if all_pass(a, head) && all_pass(b, head) {
        assert forall|i: int| 0 <= i < (a + b).len() implies (#[trigger] (a + b)[i]).passes(
            head,
        ) by {
        }
    }
}

/// A nested route applies if and only if the enclosing pattern matches the
/// start of the path, the enclosing guards pass, and the route applies to
/// the rest of the path. What it captures is what the enclosing pattern
/// captures, followed by what the route captures from the rest.
pub proof fn lemma_under_matches<G: Guard>(
    base: Seq<SegmentView>,
    guards: Seq<G>,
    r: RouteView<G>,
    path: Seq<u8>,
    head: RequestHead,
    ignore_case: bool,
)
    ensures
        route_matches(under(base, guards, r), path, head, ignore_case) == match match_at(
            base,
            path,
            ignore_case,
        ) {
            Some(m) => all_pass(guards, head) && route_matches(r, m.rest, head, ignore_case),
            None => false,
        },
        route_matches(under(base, guards, r), path, head, ignore_case) ==> captured(
            under(base, guards, r).pattern,
            path,
            ignore_case,
        ) == captured(base, path, ignore_case) + captured(
            r.pattern,
            match_at(base, path, ignore_case).unwrap().rest,
            ignore_case,
        ),
{
    lemma_match_concat(base, r.pattern, path, ignore_case);
    lemma_all_pass_concat(guards, r.guards, head);
}

/// What a lookup among `routes` may answer on `path`: the slot of the
/// first route that applies, with the captured parameters added to those
/// held before, or nothing where no route applies.
pub open spec fn found_in<G: Guard>(
    routes: Seq<RouteView<G>>,
    path: Seq<u8>,
    head: RequestHead,
    ignore_case: bool,
    r: Option<usize>,
    before: Seq<ParamView>,
    after: Seq<ParamView>,
) -> bool {
    match r {
        Some(slot) => exists|at: int|
            #[trigger] is_first_match(routes, path, head, ignore_case, at) && routes[at].slot
                == slot && after == before + captured(routes[at].pattern, path, ignore_case),
        None => no_match(routes, path, head, ignore_case),
    }
}

/// The routes of the first `k` nodes stand at the start of the routes of
/// all nodes.
pub proof fn lemma_routes_prefix<G: Guard>(nodes: Seq<ResourceMap<G>>, k: int)
    requires
        0 <= k <= nodes.len(),
    ensures
        ResourceMap::routes_of(nodes.take(k)).len() <= ResourceMap::routes_of(nodes).len(),
        forall|i: int|
            0 <= i < ResourceMap::routes_of(nodes.take(k)).len() ==> ResourceMap::routes_of(
                nodes,
            )[i] == ResourceMap::routes_of(nodes.take(k))[i],
    decreases nodes.len(),
{
    if k == nodes.len() {
        assert(nodes.take(k) =~= nodes);
    } else {
        assert(nodes.drop_last().take(k) =~= nodes.take(k));
        lemma_routes_prefix(nodes.drop_last(), k);
    }
}

/// The routes of the first `k + 1` nodes are the routes of the first `k`
/// nodes followed by the routes of node `k`.
pub proof fn lemma_routes_step<G: Guard>(nodes: Seq<ResourceMap<G>>, k: int)
    requires
        0 <= k < nodes.len(),
    ensures
        ResourceMap::routes_of(nodes.take(k + 1)) == ResourceMap::routes_of(nodes.take(k))
            + nodes[k].routes(),
{
    assert(nodes.take(k + 1).drop_last() =~= nodes.take(k));
}

/// Every route of a list of nodes is a route of one of the nodes.
pub proof fn lemma_route_origin<G: Guard>(nodes: Seq<ResourceMap<G>>, j: int)
    requires
        0 <= j < ResourceMap::routes_of(nodes).len(),
    ensures
        exists|k: int, at: int|
            0 <= k < nodes.len() && 0 <= at < nodes[k].routes().len() && ResourceMap::routes_of(
                nodes,
            )[j] == #[trigger] nodes[k].routes()[at],
    decreases nodes.len(),
{
    if nodes.len() > 0 {
        let front = ResourceMap::routes_of(nodes.drop_last());
        if j < front.len() {
            lemma_route_origin(nodes.drop_last(), j);
            let (k, at) = choose|k: int, at: int|
                0 <= k < nodes.drop_last().len() && 0 <= at < nodes.drop_last()[k].routes().len()
                    && front[j] == #[trigger] nodes.drop_last()[k].routes()[at];
        } else {
            let k = nodes.len() - 1;
            let at = j - front.len();
            assert(ResourceMap::routes_of(nodes)[j] == nodes[k].routes()[at]);
        }
    }
}

/// The routes of a list of one node are the routes of that node.
pub proof fn lemma_routes_of_one<G: Guard>(node: ResourceMap<G>)
    ensures
        ResourceMap::routes_of(seq![node]) == node.routes(),
{
    assert(seq![node].drop_last() =~= Seq::<ResourceMap<G>>::empty());
    assert(ResourceMap::routes_of(Seq::<ResourceMap<G>>::empty()).len() == 0);
}

impl<G: Guard> ResourceMap<G> {
    /// Number of routes that the node itself stands for.
    pub open spec fn own_len(self) -> int {
        if self.slot is Some {
            1
        } else {
            0
        }
    }

    /// The shape of `routes`: the node's own route, if it has one, then
    /// the nested routes seen from this node.
    pub proof fn lemma_routes_shape(self)
        ensures
            self.routes().len() == self.own_len() + Self::routes_of(self.nested@).len(),
            self.slot is Some ==> self.routes()[0] == (RouteView {
                pattern: self.rdef@,
                guards: self.guards@,
                slot: self.slot.unwrap(),
            }),
            forall|j: int|
                0 <= j < Self::routes_of(self.nested@).len() ==> self.routes()[self.own_len() + j]
                    == under(self.rdef@, self.guards@, #[trigger] Self::routes_of(self.nested@)[j]),
    {
    }

    /// Where the node's pattern does not match the start of the path, or
    /// one of its guards fails, no route of the node applies.
    pub proof fn lemma_no_match_below(self, path: Seq<u8>, head: RequestHead, ignore_case: bool)
        requires
            match_at(self.rdef@, path, ignore_case) is None || !all_pass(self.guards@, head),
        ensures
            no_match(self.routes(), path, head, ignore_case),
    {
        self.lemma_routes_shape();
        let kids = Self::routes_of(self.nested@);
        assert forall|j: int| 0 <= j < self.routes().len() implies !route_matches(
            #[trigger] self.routes()[j],
            path,
            head,
            ignore_case,
        ) by {
            if j >= self.own_len() {
                let k = j - self.own_len();
                lemma_under_matches(self.rdef@, self.guards@, kids[k], path, head, ignore_case);
            }
        }
    }

    /// Looks for the first route of this node that applies to the path
    /// from position `start` on. Parameters captured on the way to that
    /// route are added to `out`; where no route applies `out` is left as it
    /// was.
    #[verifier::loop_isolation(false)]
    fn lookup_at(
        &self,
        path: &[u8],
        start: usize,
        head: &RequestHead,
        ignore_case: bool,
        out: &mut Vec<Param>,
    ) -> (r: Option<usize>)
        requires
            start <= path@.len(),
        ensures
            found_in(
                self.routes(),
                path@.skip(start as int),
                *head,
                ignore_case,
                r,
                param_views(old(out)@),
                param_views(final(out)@),
            ),
            r is None ==> final(out)@ == old(out)@,
        decreases self,
    {
        let ghost p = path@.skip(start as int);
        let ghost entry = out@;
        let ghost routes = self.routes();
        let ghost kids = Self::routes_of(self.nested@);
        let entry_len = out.len();
        proof {
            self.lemma_routes_shape();
        }
        let (mut params, end) = match self.rdef.match_prefix(path, start, ignore_case) {
            None => {
                proof {
                    self.lemma_no_match_below(p, *head, ignore_case);
                }
                return None;
            },
            Some(found) => found,
        };
        if !check_all(&self.guards, head) {
            proof {
                self.lemma_no_match_below(p, *head, ignore_case);
            }
            return None;
        }
        let ghost m = MatchView { params: param_views(params@), rest: path@.skip(end as int) };
        out.append(&mut params);
        let ghost mid = out@;
        proof {
            assert(param_views(mid) =~= param_views(entry) + m.params);
        }
        if end == path.len() {
            if let Some(slot) = self.slot {
                proof {
                    assert(is_first_match(routes, p, *head, ignore_case, 0));
                }
                return Some(slot);
            }
        }
        let mut c: usize = 0;
        while c < self.nested.len()
            invariant
                c <= self.nested@.len(),
                out@ == mid,
                no_match(Self::routes_of(self.nested@.take(c as int)), m.rest, *head, ignore_case),
            decreases self.nested@.len() - c,
        {
            let ghost seen = Self::routes_of(self.nested@.take(c as int));
            let ghost child = self.nested@[c as int].routes();
            proof {
                lemma_routes_step(self.nested@, c as int);
                lemma_routes_prefix(self.nested@, c + 1);
            }
            match self.nested[c].lookup_at(path, end, head, ignore_case, out) {
                Some(slot) => {
                    proof {
                        let at = choose|at: int|
                            #[trigger] is_first_match(child, m.rest, *head, ignore_case, at)
                                && child[at].slot == slot && param_views(out@) == param_views(mid)
                                + captured(child[at].pattern, m.rest, ignore_case);
                        let k = seen.len() + at;
                        let idx = self.own_len() + k;
                        lemma_under_matches(
                            self.rdef@,
                            self.guards@,
                            child[at],
                            p,
                            *head,
                            ignore_case,
                        );
                        assert forall|j: int| 0 <= j < idx implies !route_matches(
                            #[trigger] routes[j],
                            p,
                            *head,
                            ignore_case,
                        ) by {
                            if j >= self.own_len() {
                                let kj = j - self.own_len();
                                lemma_under_matches(
                                    self.rdef@,
                                    self.guards@,
                                    kids[kj],
                                    p,
                                    *head,
                                    ignore_case,
                                );
                                if kj < seen.len() {
                                    assert(kids[kj] == seen[kj]);
                                } else {
                                }
                            }
                        }
                        assert(param_views(out@) =~= param_views(entry) + captured(
                            routes[idx].pattern,
                            p,
                            ignore_case,
                        ));
                        assert(is_first_match(routes, p, *head, ignore_case, idx));
                    }
                    return Some(slot);
                },
                None => {
                    proof {
                        assert forall|j: int| 0 <= j < (seen + child).len() implies !route_matches(
                            #[trigger] (seen + child)[j],
                            m.rest,
                            *head,
                            ignore_case,
                        ) by {
                        }
                    }
                },
            }
            c += 1;
        }
        proof {
            assert(self.nested@.take(c as int) =~= self.nested@);
            assert forall|j: int| 0 <= j < routes.len() implies !route_matches(
                #[trigger] routes[j],
                p,
                *head,
                ignore_case,
            ) by {
                if j >= self.own_len() {
                    let kj = j - self.own_len();
                    lemma_under_matches(self.rdef@, self.guards@, kids[kj], p, *head, ignore_case);
                }
            }
        }
        out.truncate(entry_len);
        None
    }
}

impl<G: Guard> ResourceMap<G> {
    /// A node with the given pattern and nothing else: no slot, no guard,
    /// nothing nested.
    pub fn new(rdef: ResourceDef) -> (map: Self)
        ensures
            map.rdef == rdef,
            map.slot is None,
            map.guards@.len() == 0,
            map.nested@.len() == 0,
            map.routes().len() == 0,
    {
        let map = ResourceMap { rdef, slot: None, guards: Vec::new(), nested: Vec::new() };
        proof {
            map.lemma_routes_shape();
        }
        map
    }

    /// The routes that `node` adds to this map when it is nested in it.
    pub open spec fn seen_from(self, node: ResourceMap<G>) -> Seq<RouteView<G>> {
        node.routes().map_values(|r: RouteView<G>| under(self.rdef@, self.guards@, r))
    }

    /// Nests `node` below this one, after the nodes already nested. The
    /// routes known so far keep their places; those of `node` follow them.
    pub fn nest(&mut self, node: ResourceMap<G>)
        ensures
            final(self).rdef == old(self).rdef,
            final(self).slot == old(self).slot,
            final(self).guards == old(self).guards,
            final(self).nested@ == old(self).nested@.push(node),
            final(self).routes() == old(self).routes() + old(self).seen_from(node),
    {
        let ghost before = *self;
        self.nested.push(node);
        proof {
            let after = *self;
            assert(after.nested@.drop_last() =~= before.nested@);
            before.lemma_routes_shape();
            after.lemma_routes_shape();
        }
    }

    /// Registers a route: a pattern relative to this node, a handler slot,
    /// an optional guard list and an optional nested map, whose routes lie
    /// below the new route's pattern and guards.
    pub fn register(
        &mut self,
        rdef: ResourceDef,
        slot: usize,
        guards: Option<Vec<G>>,
        nested: Option<ResourceMap<G>>,
    )
        ensures
            final(self).rdef == old(self).rdef,
            final(self).slot == old(self).slot,
            final(self).guards == old(self).guards,
            final(self).nested@.len() == old(self).nested@.len() + 1,
            final(self).nested@.drop_last() == old(self).nested@,
            final(self).nested@.last().rdef == rdef,
            final(self).nested@.last().slot == Some(slot),
            final(self).nested@.last().guards@ == match guards {
                Some(list) => list@,
                None => Seq::empty(),
            },
            final(self).nested@.last().nested@ == match nested {
                Some(sub) => seq![sub],
                None => Seq::empty(),
            },
            final(self).routes() == old(self).routes() + old(self).seen_from(
                final(self).nested@.last(),
            ),
    {
        let guards = match guards {
            Some(list) => list,
            None => Vec::new(),
        };
        let mut below: Vec<ResourceMap<G>> = Vec::new();
        if let Some(sub) = nested {
            below.push(sub);
        }
        let node = ResourceMap { rdef, slot: Some(slot), guards, nested: below };
        self.nest(node);
    }

    /// Registers a pattern that no handler serves. No route comes of it.
    pub fn add_external(&mut self, rdef: ResourceDef)
        ensures
            final(self).rdef == old(self).rdef,
            final(self).slot == old(self).slot,
            final(self).guards == old(self).guards,
            final(self).nested@.len() == old(self).nested@.len() + 1,
            final(self).nested@.drop_last() == old(self).nested@,
            final(self).nested@.last().rdef == rdef,
            final(self).nested@.last().slot is None,
            final(self).routes() == old(self).routes(),
    {
        let node: ResourceMap<G> = ResourceMap::new(rdef);
        self.nest(node);
    }

    /// Whether every slot of the map is below `bound`.
    #[verifier::loop_isolation(false)]
    fn resolves(&self, bound: usize) -> (b: bool)
        ensures
            b == self.slots_below(bound as nat),
        decreases self,
    {
        let ghost routes = self.routes();
        let ghost kids = Self::routes_of(self.nested@);
        proof {
            self.lemma_routes_shape();
        }
        if let Some(slot) = self.slot {
            if slot >= bound {
                return false;
            }
        }
        let mut c: usize = 0;
        while c < self.nested.len()
            invariant
                c <= self.nested@.len(),
                forall|j: int|
                    0 <= j < Self::routes_of(self.nested@.take(c as int)).len() ==> (
                    #[trigger] Self::routes_of(self.nested@.take(c as int))[j]).slot < bound,
            decreases self.nested@.len() - c,
        {
            let ghost seen = Self::routes_of(self.nested@.take(c as int));
            let ghost child = self.nested@[c as int].routes();
            proof {
                lemma_routes_step(self.nested@, c as int);
                lemma_routes_prefix(self.nested@, c + 1);
            }
            if !self.nested[c].resolves(bound) {
                proof {
                    let at = choose|at: int| 0 <= at < child.len() && !((#[trigger] child[at]).slot < bound);
                    let k = seen.len() + at;
                    assert(routes[self.own_len() + k] == under(
                        self.rdef@,
                        self.guards@,
                        kids[k],
                    ));
                }
                return false;
            }
            proof {
                assert forall|j: int| 0 <= j < (seen + child).len() implies (#[trigger] (seen
                    + child)[j]).slot < bound by {
                }
            }
            c += 1;
        }
        proof {
            assert(self.nested@.take(c as int) =~= self.nested@);
            assert forall|j: int| 0 <= j < routes.len() implies (#[trigger] routes[j]).slot
                < bound by {
            }
        }
        true
    }

    /// Finishes the map: checks that every handler slot lies within a
    /// handler table of `bound` entries and hands the map over for lookups.
    /// From here on the map cannot change.
    pub fn finish(self, bound: usize, ignore_case: bool) -> (r: Option<Router<G>>)
        ensures
            r is Some <==> self.slots_below(bound as nat),
            r matches Some(router) ==> router.routes() == self.routes() && router.bound()
                == bound && router.ignore_case() == ignore_case,
    {
        if self.resolves(bound) {
            Some(Router { root: self, bound, ignore_case })
        } else {
            None
        }
    }
}

/// Outcome of a lookup that found a route.
#[derive(Debug)]
pub struct Matched {
    /// Handler slot of the route.
    pub slot: usize,
    /// Parameters captured from the path, in the order of the pattern.
    pub params: Vec<Param>,
}

/// A finished resource map.
pub struct Router<G: Guard> {
    root: ResourceMap<G>,
    bound: usize,
    ignore_case: bool,
}

impl<G: Guard> Router<G> {
    #[verifier::type_invariant]
    spec fn resolved(self) -> bool {
        self.root.slots_below(self.bound as nat)
    }

    /// The routes, in the order in which a lookup tries them.
    pub closed spec fn routes(&self) -> Seq<RouteView<G>> {
        self.root.routes()
    }

    /// Size of the handler table that the slots refer to.
    pub closed spec fn bound(&self) -> usize {
        self.bound
    }

    /// Whether literal segments match regardless of ASCII case.
    pub closed spec fn ignore_case(&self) -> bool {
        self.ignore_case
    }

    /// What a lookup answers for a request with this path and head: the
    /// slot of the first route that applies and what its pattern captures.
    pub open spec fn answers(&self, path: Seq<u8>, head: RequestHead, r: Option<Matched>) -> bool {
        match first_match(self.routes(), path, head, self.ignore_case()) {
            Some(at) => r matches Some(m) && m.slot == self.routes()[at].slot && param_views(
                m.params@,
            ) == captured(self.routes()[at].pattern, path, self.ignore_case()),
            None => r is None,
        }
    }

    /// Looks a request up: the routes are tried in order, and the first
    /// whose pattern matches the whole path and whose guards all pass wins.
    /// A route whose guards fail is passed over, and the search goes on
    /// with the routes after it. `None` means that no route applies.
    pub fn lookup(&self, path: &[u8], head: &RequestHead) -> (r: Option<Matched>)
        ensures
            self.answers(path@, *head, r),
            r matches Some(m) ==> m.slot < self.bound(),
    {
        proof {
            use_type_invariant(self);
            assert(path@.skip(0) =~= path@);
            lemma_first_match(self.routes(), path@, *head, self.ignore_case());
        }
        let mut params: Vec<Param> = Vec::new();
        match self.root.lookup_at(path, 0, head, self.ignore_case, &mut params) {
            Some(slot) => {
                Some(Matched { slot, params })
            },
            None => None,
        }
    }
}

} // verus!
