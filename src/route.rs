use vstd::prelude::*;
use crate::method::Method;

verus! {

/// Path at which the generated OpenAPI document is served.
pub const SPEC_PATH: &'static str = "/openapi.json";

/// Path at which the documentation UI is served.
pub const DOCS_PATH: &'static str = "/docs";

/// A caller-authored declaration of one HTTP endpoint: where it lives, what
/// serves it, and how it is documented.
pub struct Route<H> {
    pub method: Method,
    pub path: String,
    pub handler: H,
    pub operation_id: String,
    pub summary: String,
    pub description: Option<String>,
    pub tag: String,
    pub response_code: u16,
    pub response_desc: String,
}

/// Everything a route declares except its handler: the part that the route
/// table exposes for iteration and that the document generator reads.
#[derive(Debug, PartialEq, Eq)]
pub struct RouteMeta {
    pub method: Method,
    pub path: String,
    pub operation_id: String,
    pub summary: String,
    pub description: Option<String>,
    pub tag: String,
    pub response_code: u16,
    pub response_desc: String,
}

/// A setup-time configuration error. Each one is fatal to startup.
#[derive(Debug, PartialEq, Eq)]
pub enum ConfigError {
    /// The path is one of the two served by the library itself.
    ReservedPath { path: String },
    /// A route with the same method and path is already registered.
    DuplicateRoute { method: Method, path: String },
    /// A route with the same operation id is already registered.
    DuplicateOperationId { operation_id: String },
}

/// The paths that the library keeps for the document and its UI.
pub open spec fn is_reserved(path: Seq<char>) -> bool {
    path == SPEC_PATH@ || path == DOCS_PATH@
}

/// Two declarations address the same endpoint.
pub open spec fn same_key(a: RouteMeta, b: RouteMeta) -> bool {
    a.method == b.method && a.path@ == b.path@
}

/// A route list that can stand in a table: no reserved path, and no two
/// entries sharing a (method, path) pair or an operation id.
pub open spec fn valid_routes(s: Seq<RouteMeta>) -> bool {
    &&& forall|i: int| 0 <= i < s.len() ==> !is_reserved(#[trigger] s[i].path@)
    &&& forall|i: int, j: int|
        0 <= i < s.len() && 0 <= j < s.len() && i != j ==> !same_key(#[trigger] s[i], #[trigger] s[j])
    &&& forall|i: int, j: int|
        0 <= i < s.len() && 0 <= j < s.len() && i != j ==> #[trigger] s[i].operation_id@
            != #[trigger] s[j].operation_id@
}

/// The error, if any, that adding `m` after the routes `s` gives. A reserved
/// path is reported first, then a (method, path) clash, then an operation id
/// clash.
pub open spec fn conflict(s: Seq<RouteMeta>, m: RouteMeta) -> Option<ConfigError> {
    if is_reserved(m.path@) {
        Some(ConfigError::ReservedPath { path: m.path })
    } else if exists|i: int| 0 <= i < s.len() && same_key(#[trigger] s[i], m) {
        Some(ConfigError::DuplicateRoute { method: m.method, path: m.path })
    } else if exists|i: int| 0 <= i < s.len() && (#[trigger] s[i]).operation_id@ == m.operation_id@ {
        Some(ConfigError::DuplicateOperationId { operation_id: m.operation_id })
    } else {
        None
    }
}

impl<H> Route<H> {
    /// The documentation part of this route.
    pub open spec fn meta(&self) -> RouteMeta {
        RouteMeta {
            method: self.method,
            path: self.path,
            operation_id: self.operation_id,
            summary: self.summary,
            description: self.description,
            tag: self.tag,
            response_code: self.response_code,
            response_desc: self.response_desc,
        }
    }

    /// Splits the route into its documentation and its handler.
    pub fn into_parts(self) -> (r: (RouteMeta, H))
        ensures
            r.0 == self.meta(),
            r.1 == self.handler,
    {
        let meta = RouteMeta {
            method: self.method,
            path: self.path,
            operation_id: self.operation_id,
            summary: self.summary,
            description: self.description,
            tag: self.tag,
            response_code: self.response_code,
            response_desc: self.response_desc,
        };
        (meta, self.handler)
    }
}

/// A copy of an optional string.
pub fn copy_opt(s: &Option<String>) -> (r: Option<String>)
    ensures
        r == *s,
{
    match s {
        Some(t) => Some(t.clone()),
        None => None,
    }
}

impl RouteMeta {
    /// An equal copy of this record.
    pub fn duplicate(&self) -> (r: RouteMeta)
        ensures
            r == *self,
    {
        RouteMeta {
            method: self.method,
            path: self.path.clone(),
            operation_id: self.operation_id.clone(),
            summary: self.summary.clone(),
            description: copy_opt(&self.description),
            tag: self.tag.clone(),
            response_code: self.response_code,
            response_desc: self.response_desc.clone(),
        }
    }
}

/// Whether `path` is one of the paths the library serves itself.
pub fn path_is_reserved(path: &String) -> (r: bool)
    ensures
        r == is_reserved(path@),
{
    let spec_path = String::from_str(SPEC_PATH);
    let docs_path = String::from_str(DOCS_PATH);
    *path == spec_path || *path == docs_path
}

} // verus!
