use vstd::prelude::*;
use crate::method::Method;
use crate::route::{
    conflict, is_reserved, path_is_reserved, same_key, valid_routes, ConfigError, Route, RouteMeta,
};

verus! {

/// The documentation records of a list of routes, in order.
pub open spec fn metas_of<H>(routes: Seq<Route<H>>) -> Seq<RouteMeta> {
    routes.map_values(|r: Route<H>| r.meta())
}

/// The handlers of a list of routes, in order.
pub open spec fn handlers_of<H>(routes: Seq<Route<H>>) -> Seq<H> {
    routes.map_values(|r: Route<H>| r.handler)
}

/// Registering `new` one by one after `existing`: the routes that end up in
/// the table, and the error that stopped registration, if one did.
pub open spec fn setup_outcome(existing: Seq<RouteMeta>, new: Seq<RouteMeta>) -> (Seq<RouteMeta>, Option<ConfigError>)
    decreases new.len(),
{
    if new.len() == 0 {
        (existing, None)
    } else {
        match conflict(existing, new[0]) {
            Some(e) => (existing, Some(e)),
            None => setup_outcome(existing.push(new[0]), new.drop_first()),
        }
    }
}

/// The index of the route registered for (method, path), if any.
pub open spec fn route_index(s: Seq<RouteMeta>, method: Method, path: Seq<char>) -> Option<int> {
    if exists|i: int| 0 <= i < s.len() && s[i].method == method && (#[trigger] s[i]).path@ == path {
        Some(choose|i: int| 0 <= i < s.len() && s[i].method == method && (#[trigger] s[i]).path@ == path)
    } else {
        None
    }
}

/// Adding a route that raises no conflict keeps a route list valid.
pub proof fn lemma_push_valid(s: Seq<RouteMeta>, m: RouteMeta)
    requires
        valid_routes(s),
        conflict(s, m) is None,
    ensures
        valid_routes(s.push(m)),
{
    let t = s.push(m);
    assert forall|i: int, j: int|
        0 <= i < t.len() && 0 <= j < t.len() && i != j implies !same_key(#[trigger] t[i], #[trigger] t[j]) by {
        if i == s.len() {
            assert(!same_key(s[j], m));
        } else if j == s.len() {
            assert(!same_key(s[i], m));
        }
    }
    assert forall|i: int, j: int|
        0 <= i < t.len() && 0 <= j < t.len() && i != j implies #[trigger] t[i].operation_id@
            != #[trigger] t[j].operation_id@ by {
        if i == s.len() {
            assert(s[j].operation_id@ != m.operation_id@);
        } else if j == s.len() {
            assert(s[i].operation_id@ != m.operation_id@);
        }
    }
    assert forall|i: int| 0 <= i < t.len() implies !is_reserved(#[trigger] t[i].path@) by {
        if i < s.len() {
            assert(s[i] == t[i]);
        }
    }
}

/// When registering a list raises no error, every route of the list was
/// added after the existing ones, in order, and the table is still valid.
pub proof fn lemma_setup_ok(existing: Seq<RouteMeta>, new: Seq<RouteMeta>)
    requires
        valid_routes(existing),
        setup_outcome(existing, new).1 is None,
    ensures
        setup_outcome(existing, new).0 == existing + new,
        valid_routes(existing + new),
    decreases new.len(),
{
    if new.len() == 0 {
        assert(existing + new == existing);
    } else {
        lemma_push_valid(existing, new[0]);
        lemma_setup_ok(existing.push(new[0]), new.drop_first());
        assert(existing.push(new[0]) + new.drop_first() == existing + new);
    }
}

/// A list whose routes, together with those already registered, have
/// distinct (method, path) pairs, distinct operation ids and no reserved
/// path registers without error, and the table then holds exactly the
/// existing routes followed by the list, in order.
pub proof fn lemma_valid_list_registers(existing: Seq<RouteMeta>, new: Seq<RouteMeta>)
    requires
        valid_routes(existing + new),
    ensures
        setup_outcome(existing, new) == (existing + new, None::<ConfigError>),
    decreases new.len(),
{
    let all = existing + new;
    if new.len() == 0 {
        assert(all == existing);
    } else {
        let m = new[0];
        let w = existing.len() as int;
        assert(all[w] == m);
        assert(!is_reserved(all[w].path@));
        assert forall|i: int| 0 <= i < existing.len() implies !same_key(#[trigger] existing[i], m) by {
            assert(all[i] == existing[i]);
        }
        assert forall|i: int| 0 <= i < existing.len() implies (#[trigger] existing[i]).operation_id@
            != m.operation_id@ by {
            assert(all[i] == existing[i]);
        }
        assert(existing.push(m) + new.drop_first() == all);
        lemma_valid_list_registers(existing.push(m), new.drop_first());
    }
}

/// Two routes of one list with the same (method, path) pair make its
/// registration fail.
pub proof fn lemma_duplicate_route_rejected(existing: Seq<RouteMeta>, new: Seq<RouteMeta>, i: int, j: int)
    requires
        valid_routes(existing),
        0 <= i < new.len(),
        0 <= j < new.len(),
        i != j,
        same_key(new[i], new[j]),
    ensures
        setup_outcome(existing, new).1 is Some,
{
    if setup_outcome(existing, new).1 is None {
        lemma_setup_ok(existing, new);
        let all = existing + new;
        assert(all[existing.len() + i] == new[i]);
        assert(all[existing.len() + j] == new[j]);
        assert(!same_key(all[existing.len() + i], all[existing.len() + j]));
    }
}

/// Two routes of one list with the same operation id make its registration
/// fail.
pub proof fn lemma_duplicate_operation_id_rejected(
    existing: Seq<RouteMeta>,
    new: Seq<RouteMeta>,
    i: int,
    j: int,
)
    requires
        valid_routes(existing),
        0 <= i < new.len(),
        0 <= j < new.len(),
        i != j,
        new[i].operation_id@ == new[j].operation_id@,
    ensures
        setup_outcome(existing, new).1 is Some,
{
    if setup_outcome(existing, new).1 is None {
        lemma_setup_ok(existing, new);
        let all = existing + new;
        assert(all[existing.len() + i] == new[i]);
        assert(all[existing.len() + j] == new[j]);
        assert(all[existing.len() + i].operation_id@ != all[existing.len() + j].operation_id@);
    }
}

/// In a valid route list, looking up a registered route's own method and
/// path finds exactly that route, so dispatch hands out its handler and no
/// other.
pub proof fn lemma_registered_route_is_found(s: Seq<RouteMeta>, i: int)
    requires
        valid_routes(s),
        0 <= i < s.len(),
    ensures
        route_index(s, s[i].method, s[i].path@) == Some(i),
{
    let m = s[i].method;
    let p = s[i].path@;
    assert(s[i].method == m && s[i].path@ == p);
    let c = choose|k: int| 0 <= k < s.len() && s[k].method == m && (#[trigger] s[k]).path@ == p;
    if c != i {
        assert(same_key(s[c], s[i]));
    }
}

/// A (method, path) pair that no route of the list declares is not found, so
/// dispatch gives the not-found outcome and hands out no handler.
pub proof fn lemma_unregistered_route_is_not_found(s: Seq<RouteMeta>, method: Method, path: Seq<char>)
    requires
        forall|i: int| 0 <= i < s.len() ==> !((#[trigger] s[i]).method == method && s[i].path@ == path),
    ensures
        route_index(s, method, path) is None,
{
}

/// An append-only table of routes, keyed by (method, path), each with the
/// handler that serves it.
pub struct RouteTable<H> {
    metas: Vec<RouteMeta>,
    handlers: Vec<H>,
}

impl<H> View for RouteTable<H> {
    type V = Seq<RouteMeta>;

    /// The registered routes' documentation, in registration order.
    closed spec fn view(&self) -> Seq<RouteMeta> {
        self.metas@
    }
}

impl<H> RouteTable<H> {
    /// The registered handlers, in registration order.
    pub closed spec fn handlers(&self) -> Seq<H> {
        self.handlers@
    }

    /// The table's invariant: one handler per route, and the routes valid.
    pub closed spec fn wf(&self) -> bool {
        &&& self.metas@.len() == self.handlers@.len()
        &&& valid_routes(self.metas@)
    }

    /// An empty table.
    pub fn new() -> (r: Self)
        ensures
            r.wf(),
            r@ == Seq::<RouteMeta>::empty(),
            r.handlers() == Seq::<H>::empty(),
    {
        RouteTable { metas: Vec::new(), handlers: Vec::new() }
    }

    /// The number of registered routes.
    pub fn len(&self) -> (r: usize)
        requires
            self.wf(),
        ensures
            r == self@.len(),
    {
        self.metas.len()
    }

    /// Finds the error, if any, that registering `m` would give.
    fn check(&self, m: &RouteMeta) -> (r: Option<ConfigError>)
        requires
            self.wf(),
        ensures
            r == conflict(self@, *m),
    {
        if path_is_reserved(&m.path) {
            return Some(ConfigError::ReservedPath { path: m.path.clone() });
        }
        let n = self.metas.len();
        let mut i: usize = 0;
        while i < n
            invariant
                self.wf(),
                !is_reserved(m.path@),
                n == self.metas@.len(),
                0 <= i <= n,
                forall|k: int| 0 <= k < i ==> !same_key(#[trigger] self.metas@[k], *m),
            decreases n - i,
        {
            if self.metas[i].method == m.method && self.metas[i].path == m.path {
                assert(self@ == self.metas@);
                assert(same_key(self.metas@[i as int], *m));
                assert(!is_reserved(m.path@));
                return Some(ConfigError::DuplicateRoute { method: m.method, path: m.path.clone() });
            }
            i = i + 1;
        }
        let mut j: usize = 0;
        while j < n
            invariant
                self.wf(),
                !is_reserved(m.path@),
                forall|k: int| 0 <= k < n ==> !same_key(#[trigger] self.metas@[k], *m),
                n == self.metas@.len(),
                0 <= j <= n,
                forall|k: int| 0 <= k < j ==> (#[trigger] self.metas@[k]).operation_id@ != m.operation_id@,
            decreases n - j,
        {
            if self.metas[j].operation_id == m.operation_id {
                assert(self@ == self.metas@);
                assert(self.metas@[j as int].operation_id@ == m.operation_id@);
                assert(!is_reserved(m.path@));
                return Some(ConfigError::DuplicateOperationId { operation_id: m.operation_id.clone() });
            }
            j = j + 1;
        }
        None
    }

    /// Adds one route. Fails, leaving the table as it was, when the path is
    /// reserved, the (method, path) pair is taken, or the operation id is
    /// taken.
    pub fn register(&mut self, route: Route<H>) -> (r: Result<(), ConfigError>)
        requires
            old(self).wf(),
        ensures
            final(self).wf(),
            match conflict(old(self)@, route.meta()) {
                Some(e) => r == Err::<(), ConfigError>(e) && *final(self) == *old(self),
                None => r is Ok && final(self)@ == old(self)@.push(route.meta())
                    && final(self).handlers() == old(self).handlers().push(route.handler),
            },
    {
        let (meta, handler) = route.into_parts();
        match self.check(&meta) {
            Some(e) => Err(e),
            None => {
                proof {
                    lemma_push_valid(self.metas@, meta);
                }
                self.metas.push(meta);
                self.handlers.push(handler);
                Ok(())
            },
        }
    }

    /// A snapshot of the registered routes' documentation, in registration
    /// order. Handlers are not exposed.
    pub fn iterate(&self) -> (r: Vec<RouteMeta>)
        requires
            self.wf(),
        ensures
            r@ == self@,
    {
        let n = self.metas.len();
        let mut out: Vec<RouteMeta> = Vec::new();
        let mut i: usize = 0;
        while i < n
            invariant
                n == self.metas@.len(),
                0 <= i <= n,
                out@ == self.metas@.take(i as int),
            decreases n - i,
        {
            out.push(self.metas[i].duplicate());
            assert(self.metas@.take(i as int + 1) == self.metas@.take(i as int).push(self.metas@[i as int]));
            i = i + 1;
        }
        assert(self.metas@.take(n as int) == self.metas@);
        out
    }

    /// The index of the route registered for (method, path), if any.
    pub fn lookup(&self, method: Method, path: &str) -> (r: Option<usize>)
        requires
            self.wf(),
        ensures
            r matches Some(i) ==> route_index(self@, method, path@) == Some(i as int),
            r is None ==> route_index(self@, method, path@) is None,
    {
        let key = String::from_str(path);
        let n = self.metas.len();
        let mut i: usize = 0;
        while i < n
            invariant
                self.wf(),
                n == self.metas@.len(),
                0 <= i <= n,
                key@ == path@,
                forall|k: int| 0 <= k < i ==> !((#[trigger] self.metas@[k]).method == method && self.metas@[k].path@ == path@),
            decreases n - i,
        {
            if self.metas[i].method == method && self.metas[i].path == key {
                proof {
                    let s = self.metas@;
                    let w = i as int;
                    assert(self@ == s);
                    assert(s[w].method == method && s[w].path@ == path@);
                    let c = choose|k: int| 0 <= k < s.len() && s[k].method == method && (#[trigger] s[k]).path@ == path@;
                    if c != w {
                        assert(same_key(s[c], s[w]));
                    }
                }
                return Some(i);
            }
            i = i + 1;
        }
        None
    }

    /// The handler that serves (method, path): `None`, the not-found outcome,
    /// when no route is registered for it.
    pub fn dispatch(&self, method: Method, path: &str) -> (r: Option<&H>)
        requires
            self.wf(),
        ensures
            match route_index(self@, method, path@) {
                Some(i) => r == Some(&self.handlers()[i]),
                None => r is None,
            },
    {
        match self.lookup(method, path) {
            Some(i) => Some(&self.handlers[i]),
            None => None,
        }
    }
}

/// Registers `routes` in order. Registration stops at the first route that
/// conflicts with the table or with an earlier route of the list; that error
/// is returned and the routes before it stay registered.
pub fn setup_router<H>(router: &mut RouteTable<H>, routes: Vec<Route<H>>) -> (r: Result<(), ConfigError>)
    requires
        old(router).wf(),
    ensures
        final(router).wf(),
        final(router)@ == setup_outcome(old(router)@, metas_of(routes@)).0,
        final(router).handlers() == old(router).handlers() + handlers_of(routes@).take(
            final(router)@.len() - old(router)@.len(),
        ),
        match setup_outcome(old(router)@, metas_of(routes@)).1 {
            Some(e) => r == Err::<(), ConfigError>(e),
            None => r is Ok,
        },
{
    let ghost all = routes@;
    let ghost start = router@;
    let ghost start_h = router.handlers();
    let mut rest = routes;
    let n = rest.len();
    let mut k: usize = 0;
    while k < n
        invariant
            router.wf(),
            start == old(router)@,
            start_h == old(router).handlers(),
            all == routes@,
            0 <= k <= n,
            n == all.len(),
            rest@ == all.subrange(k as int, n as int),
            router@.len() == start.len() + k,
            setup_outcome(router@, metas_of(rest@)) == setup_outcome(start, metas_of(all)),
            router.handlers() == start_h + handlers_of(all).take(k as int),
        decreases n - k,
    {
        let ghost before = rest@;
        let route = rest.remove(0);
        proof {
            assert(metas_of(rest@) == metas_of(before).drop_first());
            assert(metas_of(before)[0] == route.meta());
            assert(handlers_of(all).take(k as int + 1) == handlers_of(all).take(k as int).push(route.handler));
        }
        let ghost cur = router@;
        match router.register(route) {
            Ok(()) => {},
            Err(e) => {
                assert(setup_outcome(cur, metas_of(before)) == (cur, Some(e)));

                return Err(e);
            },
        }
        k = k + 1;
    }
    assert(handlers_of(all).take(k as int) == handlers_of(all).take(n as int));
    Ok(())
}

} // verus!
