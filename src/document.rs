use vstd::prelude::*;
use crate::config::ApiInfo;
use crate::method::Method;
use crate::route::{same_key, valid_routes, RouteMeta};
use crate::table::RouteTable;

verus! {

/// One documented operation: a method under a path.
#[derive(Debug, PartialEq, Eq)]
pub struct Operation {
    pub method: Method,
    pub operation_id: String,
    pub summary: String,
    pub description: String,
    pub tag: String,
    pub response_code: u16,
    pub response_desc: String,
}

/// The mathematical content of an [`Operation`].
pub ghost struct OperationView {
    pub method: Method,
    pub operation_id: Seq<char>,
    pub summary: Seq<char>,
    pub description: Seq<char>,
    pub tag: Seq<char>,
    pub response_code: u16,
    pub response_desc: Seq<char>,
}

impl View for Operation {
    type V = OperationView;

    open spec fn view(&self) -> OperationView {
        OperationView {
            method: self.method,
            operation_id: self.operation_id@,
            summary: self.summary@,
            description: self.description@,
            tag: self.tag@,
            response_code: self.response_code,
            response_desc: self.response_desc@,
        }
    }
}

/// All operations documented under one path.
#[derive(Debug, PartialEq, Eq)]
pub struct PathItem {
    pub path: String,
    pub operations: Vec<Operation>,
}

/// The mathematical content of a [`PathItem`].
pub ghost struct PathItemView {
    pub path: Seq<char>,
    pub operations: Seq<OperationView>,
}

impl View for PathItem {
    type V = PathItemView;

    open spec fn view(&self) -> PathItemView {
        PathItemView { path: self.path@, operations: self.operations@.map_values(|o: Operation| o@) }
    }
}

/// A generated OpenAPI document: the information block, then the paths,
/// each with its operations.
#[derive(Debug, PartialEq, Eq)]
pub struct SpecDocument {
    pub info: ApiInfo,
    pub paths: Vec<PathItem>,
}

/// The mathematical content of a [`SpecDocument`].
pub ghost struct DocumentView {
    pub info: ApiInfo,
    pub paths: Seq<PathItemView>,
}

impl View for SpecDocument {
    type V = DocumentView;

    open spec fn view(&self) -> DocumentView {
        DocumentView { info: self.info, paths: self.paths@.map_values(|p: PathItem| p@) }
    }
}

/// The operation that documents a route. A missing description becomes the
/// empty string.
pub open spec fn operation_of(m: RouteMeta) -> OperationView {
    OperationView {
        method: m.method,
        operation_id: m.operation_id@,
        summary: m.summary@,
        description: match m.description {
            Some(d) => d@,
            None => Seq::empty(),
        },
        tag: m.tag@,
        response_code: m.response_code,
        response_desc: m.response_desc@,
    }
}

/// The paths of the routes, each once, in order of first registration.
pub open spec fn distinct_paths(s: Seq<RouteMeta>) -> Seq<Seq<char>>
    decreases s.len(),
{
    if s.len() == 0 {
        Seq::empty()
    } else {
        let d = distinct_paths(s.drop_last());
        if d.contains(s.last().path@) {
            d
        } else {
            d.push(s.last().path@)
        }
    }
}

/// The operations of the routes under `path`, in registration order.
pub open spec fn operations_at(s: Seq<RouteMeta>, path: Seq<char>) -> Seq<OperationView>
    decreases s.len(),
{
    if s.len() == 0 {
        Seq::empty()
    } else {
        let o = operations_at(s.drop_last(), path);
        if s.last().path@ == path {
            o.push(operation_of(s.last()))
        } else {
            o
        }
    }
}

/// The document generated from the routes `s` and the information block.
pub open spec fn document_of(s: Seq<RouteMeta>, info: ApiInfo) -> DocumentView {
    DocumentView {
        info,
        paths: distinct_paths(s).map_values(
            |p: Seq<char>| PathItemView { path: p, operations: operations_at(s, p) },
        ),
    }
}

/// A valid route list stays valid without its last route.
proof fn lemma_valid_drop_last(s: Seq<RouteMeta>)
    requires
        valid_routes(s),
        s.len() > 0,
    ensures
        valid_routes(s.drop_last()),
{
    let t = s.drop_last();
    assert forall|i: int| 0 <= i < t.len() implies #[trigger] t[i] == s[i] by {}
}

/// The distinct paths are exactly the routes' paths, and none repeats.
proof fn lemma_distinct_paths(s: Seq<RouteMeta>)
    ensures
        forall|i: int| 0 <= i < s.len() ==> distinct_paths(s).contains(#[trigger] s[i].path@),
        forall|a: int| 0 <= a < distinct_paths(s).len() ==> exists|i: int|
            0 <= i < s.len() && (#[trigger] s[i]).path@ == #[trigger] distinct_paths(s)[a],
        forall|a: int, b: int|
            0 <= a < distinct_paths(s).len() && 0 <= b < distinct_paths(s).len() && a != b
                ==> #[trigger] distinct_paths(s)[a] != #[trigger] distinct_paths(s)[b],
    decreases s.len(),
{
    if s.len() > 0 {
        let t = s.drop_last();
        lemma_distinct_paths(t);
        let d = distinct_paths(t);
        let q = s.last().path@;
        let e = distinct_paths(s);
        assert forall|i: int| 0 <= i < s.len() implies e.contains(#[trigger] s[i].path@) by {
            if i < t.len() {
                assert(t[i] == s[i]);
                assert(d.contains(t[i].path@));
                let x = choose|x: int| 0 <= x < d.len() && d[x] == t[i].path@;
                assert(e[x] == d[x]);
            } else if d.contains(q) {
            } else {
                assert(e[d.len() as int] == q);
            }
        }
        assert forall|a: int| 0 <= a < e.len() implies exists|i: int|
            0 <= i < s.len() && (#[trigger] s[i]).path@ == #[trigger] e[a] by {
            if a < d.len() {
                assert(e[a] == d[a]);
                let i = choose|i: int| 0 <= i < t.len() && (#[trigger] t[i]).path@ == d[a];
                assert(t[i] == s[i]);
            } else {
                assert(s[s.len() - 1].path@ == e[a]);
            }
        }
    }
}

/// Every operation under `p` documents a route at `p`; every route at `p`
/// has its operation there; and, for a valid list, no two operations under
/// `p` share a method.
proof fn lemma_operations_at(s: Seq<RouteMeta>, p: Seq<char>)
    ensures
        forall|k: int| 0 <= k < operations_at(s, p).len() ==> exists|i: int|
            0 <= i < s.len() && (#[trigger] s[i]).path@ == p && #[trigger] operations_at(s, p)[k]
                == operation_of(s[i]),
        forall|i: int| 0 <= i < s.len() && (#[trigger] s[i]).path@ == p ==> operations_at(s, p).contains(
            operation_of(s[i]),
        ),
        valid_routes(s) ==> forall|a: int, b: int|
            0 <= a < operations_at(s, p).len() && 0 <= b < operations_at(s, p).len() && a != b
                ==> (#[trigger] operations_at(s, p)[a]).method != (#[trigger] operations_at(s, p)[b]).method,
    decreases s.len(),
{
    if s.len() > 0 {
        let t = s.drop_last();
        lemma_operations_at(t, p);
        let o = operations_at(t, p);
        let e = operations_at(s, p);
        let w = s.len() - 1;
        assert forall|k: int| 0 <= k < e.len() implies exists|i: int|
            0 <= i < s.len() && (#[trigger] s[i]).path@ == p && #[trigger] e[k] == operation_of(s[i]) by {
            if k < o.len() {
                assert(e[k] == o[k]);
                let i = choose|i: int| 0 <= i < t.len() && (#[trigger] t[i]).path@ == p && o[k] == operation_of(t[i]);
                assert(t[i] == s[i]);
            } else {
                assert(e[k] == operation_of(s[w]));
            }
        }
        assert forall|i: int| 0 <= i < s.len() && (#[trigger] s[i]).path@ == p implies e.contains(
            operation_of(s[i]),
        ) by {
            if i < t.len() {
                assert(t[i] == s[i]);
                let x = choose|x: int| 0 <= x < o.len() && o[x] == operation_of(t[i]);
                assert(e[x] == o[x]);
            } else {
                assert(e[o.len() as int] == operation_of(s[i]));
            }
        }
        if valid_routes(s) {
            lemma_valid_drop_last(s);
            assert forall|a: int, b: int|
                0 <= a < e.len() && 0 <= b < e.len() && a != b implies (#[trigger] e[a]).method
                    != (#[trigger] e[b]).method by {
                if a < o.len() && b < o.len() {
                    assert(e[a] == o[a] && e[b] == o[b]);
                } else if a < o.len() || b < o.len() {
                    let c = if a < o.len() { a } else { b };
                    assert(e[c] == o[c]);
                    let i = choose|i: int| 0 <= i < t.len() && (#[trigger] t[i]).path@ == p && o[c] == operation_of(t[i]);
                    assert(t[i] == s[i]);
                    assert(s[w].path@ == p);
                    assert(e[o.len() as int] == operation_of(s[w]));
                    assert(!same_key(s[i], s[w]));
                }
            }
        }
    }
}

/// Generating the document twice from equal routes and equal information
/// gives equal documents.
pub proof fn lemma_generation_deterministic<H>(t1: RouteTable<H>, t2: RouteTable<H>, i1: ApiInfo, i2: ApiInfo)
    requires
        t1@ == t2@,
        i1 == i2,
    ensures
        document_of(t1@, i1) == document_of(t2@, i2),
{
}

/// Each path of the document appears once.
pub open spec fn paths_distinct(d: Seq<PathItemView>) -> bool {
    forall|a: int, b: int| 0 <= a < d.len() && 0 <= b < d.len() && a != b ==> (#[trigger] d[a]).path != (#[trigger] d[b]).path
}

/// Each route's operation stands under its path.
pub open spec fn covers_routes(d: Seq<PathItemView>, s: Seq<RouteMeta>) -> bool {
    forall|i: int| 0 <= i < s.len() ==> exists|a: int, k: int|
        0 <= a < d.len() && 0 <= k < d[a].operations.len() && (#[trigger] d[a]).path == s[i].path@
            && #[trigger] d[a].operations[k] == operation_of(#[trigger] s[i])
}

/// Each operation of the document documents a route under its path.
pub open spec fn only_routes(d: Seq<PathItemView>, s: Seq<RouteMeta>) -> bool {
    forall|a: int, k: int| 0 <= a < d.len() && 0 <= k < d[a].operations.len() ==> exists|i: int|
        0 <= i < s.len() && (#[trigger] s[i]).path@ == d[a].path && #[trigger] d[a].operations[k] == operation_of(s[i])
}

/// No two operations under one path share a method.
pub open spec fn methods_distinct(d: Seq<PathItemView>) -> bool {
    forall|a: int, k1: int, k2: int|
        0 <= a < d.len() && 0 <= k1 < d[a].operations.len() && 0 <= k2 < d[a].operations.len() && k1 != k2
            ==> (#[trigger] d[a].operations[k1]).method != (#[trigger] d[a].operations[k2]).method
}

/// For a valid route list the document holds exactly one operation per
/// registered (method, path): each path appears once; each route's operation
/// stands under its path, carrying its fields; every operation documents a
/// registered route; and no two operations under one path share a method.
pub proof fn lemma_document_lists_each_route_once(s: Seq<RouteMeta>, info: ApiInfo)
    requires
        valid_routes(s),
    ensures
        paths_distinct(document_of(s, info).paths),
        covers_routes(document_of(s, info).paths, s),
        only_routes(document_of(s, info).paths, s),
        methods_distinct(document_of(s, info).paths),
{
    lemma_document_paths_distinct(s, info);
    lemma_document_covers_routes(s, info);
    lemma_document_from_routes(s, info);
    lemma_document_methods_distinct(s, info);
}

proof fn lemma_document_paths_distinct(s: Seq<RouteMeta>, info: ApiInfo)
    ensures
        paths_distinct(document_of(s, info).paths),
{
    let d = document_of(s, info).paths;
    let names = distinct_paths(s);
    lemma_distinct_paths(s);
    assert forall|a: int, b: int|
        0 <= a < d.len() && 0 <= b < d.len() && a != b implies (#[trigger] d[a]).path != (#[trigger] d[b]).path by {
        assert(d[a].path == names[a] && d[b].path == names[b]);
    }
}

proof fn lemma_document_covers_routes(s: Seq<RouteMeta>, info: ApiInfo)
    ensures
        covers_routes(document_of(s, info).paths, s),
{
    let d = document_of(s, info).paths;
    let names = distinct_paths(s);
    lemma_distinct_paths(s);
    assert forall|i: int| 0 <= i < s.len() implies exists|a: int, k: int|
        0 <= a < d.len() && 0 <= k < d[a].operations.len() && (#[trigger] d[a]).path == s[i].path@
            && #[trigger] d[a].operations[k] == operation_of(#[trigger] s[i]) by {
        let p = s[i].path@;
        assert(names.contains(p));
        let a = choose|a: int| 0 <= a < names.len() && names[a] == p;
        lemma_operations_at(s, p);
        assert(d[a].operations == operations_at(s, p));
        let k = choose|k: int| 0 <= k < operations_at(s, p).len() && operations_at(s, p)[k] == operation_of(s[i]);
        assert(d[a].path == s[i].path@ && d[a].operations[k] == operation_of(s[i]));
    }
}

proof fn lemma_document_from_routes(s: Seq<RouteMeta>, info: ApiInfo)
    ensures
        only_routes(document_of(s, info).paths, s),
{
    let d = document_of(s, info).paths;
    let names = distinct_paths(s);
    assert forall|a: int, k: int| 0 <= a < d.len() && 0 <= k < d[a].operations.len() implies exists|i: int|
        0 <= i < s.len() && (#[trigger] s[i]).path@ == d[a].path && #[trigger] d[a].operations[k]
            == operation_of(s[i]) by {
        lemma_operations_at(s, names[a]);
        assert(d[a].operations == operations_at(s, names[a]));
        assert(d[a].path == names[a]);
    }
}

proof fn lemma_document_methods_distinct(s: Seq<RouteMeta>, info: ApiInfo)
    requires
        valid_routes(s),
    ensures
        methods_distinct(document_of(s, info).paths),
{
    let d = document_of(s, info).paths;
    let names = distinct_paths(s);
    assert forall|a: int, k1: int, k2: int|
        0 <= a < d.len() && 0 <= k1 < d[a].operations.len() && 0 <= k2 < d[a].operations.len() && k1 != k2
            implies (#[trigger] d[a].operations[k1]).method != (#[trigger] d[a].operations[k2]).method by {
        lemma_operations_at(s, names[a]);
        assert(d[a].operations == operations_at(s, names[a]));
    }
}

/// The operation that documents the route `m`.
pub fn operation_from(m: &RouteMeta) -> (r: Operation)
    ensures
        r@ == operation_of(*m),
{
    let description = match &m.description {
        Some(d) => d.clone(),
        None => String::new(),
    };
    Operation {
        method: m.method,
        operation_id: m.operation_id.clone(),
        summary: m.summary.clone(),
        description,
        tag: m.tag.clone(),
        response_code: m.response_code,
        response_desc: m.response_desc.clone(),
    }
}

/// The distinct paths of `metas`, in order of first appearance.
pub fn distinct_path_list(metas: &Vec<RouteMeta>) -> (r: Vec<String>)
    ensures
        r@.map_values(|p: String| p@) == distinct_paths(metas@),
{
    let n = metas.len();
    let mut out: Vec<String> = Vec::new();
    let mut i: usize = 0;
    while i < n
        invariant
            n == metas@.len(),
            0 <= i <= n,
            out@.map_values(|p: String| p@) == distinct_paths(metas@.take(i as int)),
        decreases n - i,
    {
        let ghost before = out@.map_values(|p: String| p@);
        let path = &metas[i].path;
        let m = out.len();
        let mut seen = false;
        let mut k: usize = 0;
        while k < m
            invariant
                m == out@.len(),
                0 <= k <= m,
                before == out@.map_values(|p: String| p@),
                seen == exists|x: int| 0 <= x < k && (#[trigger] out@[x])@ == path@,
            decreases m - k,
        {
            if out[k] == *path {
                seen = true;
            }
            k = k + 1;
        }
        proof {
            let t = metas@.take(i as int + 1);
            assert(t.drop_last() == metas@.take(i as int));
            assert(t.last() == metas@[i as int]);
            if seen {
                let x = choose|x: int| 0 <= x < m && (#[trigger] out@[x])@ == path@;
                assert(before[x] == path@);
            } else {
                assert forall|x: int| 0 <= x < before.len() implies before[x] != path@ by {
                    assert(before[x] == out@[x]@);
                }
            }
        }
        if !seen {
            out.push(path.clone());
            assert(out@.map_values(|p: String| p@) == before.push(path@));
        }
        i = i + 1;
    }
    assert(metas@.take(n as int) == metas@);
    out
}

/// The operations of the routes of `metas` under `path`, in order.
pub fn operations_for(metas: &Vec<RouteMeta>, path: &String) -> (r: Vec<Operation>)
    ensures
        r@.map_values(|o: Operation| o@) == operations_at(metas@, path@),
{
    let n = metas.len();
    let mut out: Vec<Operation> = Vec::new();
    let mut i: usize = 0;
    while i < n
        invariant
            n == metas@.len(),
            0 <= i <= n,
            out@.map_values(|o: Operation| o@) == operations_at(metas@.take(i as int), path@),
        decreases n - i,
    {
        let ghost before = out@.map_values(|o: Operation| o@);
        proof {
            let t = metas@.take(i as int + 1);
            assert(t.drop_last() == metas@.take(i as int));
            assert(t.last() == metas@[i as int]);
        }
        if metas[i].path == *path {
            let op = operation_from(&metas[i]);
            out.push(op);
            assert(out@.map_values(|o: Operation| o@) == before.push(operation_of(metas@[i as int])));
        }
        i = i + 1;
    }
    assert(metas@.take(n as int) == metas@);
    out
}

/// Builds the OpenAPI document of the table: one path item per distinct
/// path, in order of first registration, each holding one operation per
/// route under it, in registration order, and the information block at the
/// root.
pub fn generate_openapi<H>(table: &RouteTable<H>, info: &ApiInfo) -> (r: SpecDocument)
    requires
        table.wf(),
    ensures
        r@ == document_of(table@, *info),
{
    let metas = table.iterate();
    let paths = distinct_path_list(&metas);
    let ghost names = paths@.map_values(|p: String| p@);
    let n = paths.len();
    let mut items: Vec<PathItem> = Vec::new();
    let mut i: usize = 0;
    while i < n
        invariant
            n == paths@.len(),
            0 <= i <= n,
            names == paths@.map_values(|p: String| p@),
            items@.len() == i,
            forall|j: int| 0 <= j < i ==> (#[trigger] items@[j])@ == (PathItemView {
                path: names[j],
                operations: operations_at(metas@, names[j]),
            }),
        decreases n - i,
    {
        let operations = operations_for(&metas, &paths[i]);
        items.push(PathItem { path: paths[i].clone(), operations });
        i = i + 1;
    }
    let doc = SpecDocument { info: info.duplicate(), paths: items };
    assert(doc@.paths == document_of(table@, *info).paths);
    doc
}

} // verus!
