use vstd::prelude::*;
use crate::config::{ApiInfo, ServerConfig};
use crate::document::{document_of, generate_openapi, SpecDocument};
use crate::route::{ConfigError, Route, RouteMeta};
use crate::table::{handlers_of, lemma_setup_ok, metas_of, setup_outcome, setup_router, RouteTable};

verus! {

/// Everything a server needs once setup is over: the frozen route table and
/// the document generated from it, computed once.
pub struct Service<H> {
    pub table: RouteTable<H>,
    pub document: SpecDocument,
}

/// Registers `routes` in a new table and generates its document with the
/// given title, version and optional description and summary. Fails with the
/// first configuration error, in which case nothing is served.
pub fn build_service<H>(routes: Vec<Route<H>>, title: &str, version: &str, config: ServerConfig) -> (r: Result<
    Service<H>,
    ConfigError,
>)
    ensures
        match setup_outcome(Seq::<RouteMeta>::empty(), metas_of(routes@)).1 {
            Some(e) => r == Err::<Service<H>, ConfigError>(e),
            None => r matches Ok(svc) && svc.table.wf() && svc.table@ == metas_of(routes@)
                && svc.table.handlers() == handlers_of(routes@) && svc.document@ == document_of(
                svc.table@,
                svc.document.info,
            ) && svc.document.info.title@ == title@ && svc.document.info.version@ == version@
                && svc.document.info.description == config.desc && svc.document.info.summary
                == config.summary,
        },
{
    let ghost all = routes@;
    let info = ApiInfo::from_config(title, version, config);
    let mut table: RouteTable<H> = RouteTable::new();
    match setup_router(&mut table, routes) {
        Err(e) => Err(e),
        Ok(()) => {
            proof {
                lemma_setup_ok(Seq::<RouteMeta>::empty(), metas_of(all));
                assert(Seq::<RouteMeta>::empty() + metas_of(all) == metas_of(all));
                assert(handlers_of(all).take(all.len() as int) == handlers_of(all));
                assert(Seq::<H>::empty() + handlers_of(all) == handlers_of(all));
            }
            let document = generate_openapi(&table, &info);
            Ok(Service { table, document })
        },
    }
}

} // verus!
