use backpack::{
    build_service, generate_openapi, setup_router, ApiInfo, ConfigError, Method, Route, RouteTable,
    ServerConfig,
};

type Handler = fn() -> &'static str;

fn hello() -> &'static str {
    "Hello World"
}

fn health() -> &'static str {
    "{\"status\":\"healthy\"}"
}

fn other() -> &'static str {
    "other"
}

fn route(method: Method, path: &str, handler: Handler, operation_id: &str) -> Route<Handler> {
    Route {
        method,
        path: path.to_string(),
        handler,
        operation_id: operation_id.to_string(),
        summary: format!("{operation_id} endpoint"),
        description: None,
        tag: "example".to_string(),
        response_code: 200,
        response_desc: "OK".to_string(),
    }
}

fn info() -> ApiInfo {
    ApiInfo::from_config("My Example", "1.0.0", ServerConfig::new())
}

#[test]
fn registration_keeps_every_route_in_order() {
    let mut table: RouteTable<Handler> = RouteTable::new();
    let routes = vec![
        route(Method::Get, "/", hello, "hello"),
        route(Method::Get, "/health", health, "health"),
        route(Method::Post, "/health", other, "post_health"),
    ];
    assert_eq!(setup_router(&mut table, routes), Ok(()));
    let listed = table.iterate();
    assert_eq!(listed.len(), 3);
    assert_eq!(table.len(), 3);
    assert_eq!(listed[0].path, "/");
    assert_eq!(listed[0].operation_id, "hello");
    assert_eq!(listed[1].path, "/health");
    assert_eq!(listed[1].method, Method::Get);
    assert_eq!(listed[2].method, Method::Post);
    assert_eq!(listed[2].operation_id, "post_health");
    assert_eq!(listed[2].summary, "post_health endpoint");
}

#[test]
fn duplicate_method_and_path_is_rejected() {
    let mut table: RouteTable<Handler> = RouteTable::new();
    let routes = vec![
        route(Method::Get, "/a", hello, "one"),
        route(Method::Get, "/a", other, "two"),
        route(Method::Get, "/b", other, "three"),
    ];
    let r = setup_router(&mut table, routes);
    assert_eq!(
        r,
        Err(ConfigError::DuplicateRoute { method: Method::Get, path: "/a".to_string() })
    );
    // registration stops at the failing route
    assert_eq!(table.len(), 1);
}

#[test]
fn duplicate_operation_id_is_rejected() {
    let mut table: RouteTable<Handler> = RouteTable::new();
    assert_eq!(table.register(route(Method::Get, "/a", hello, "same")), Ok(()));
    let r = table.register(route(Method::Post, "/b", other, "same"));
    assert_eq!(r, Err(ConfigError::DuplicateOperationId { operation_id: "same".to_string() }));
    assert_eq!(table.len(), 1);
}

#[test]
fn reserved_paths_are_rejected() {
    let mut table: RouteTable<Handler> = RouteTable::new();
    let r = table.register(route(Method::Get, "/openapi.json", hello, "spec"));
    assert_eq!(r, Err(ConfigError::ReservedPath { path: "/openapi.json".to_string() }));
    let r = table.register(route(Method::Post, "/docs", hello, "docs"));
    assert_eq!(r, Err(ConfigError::ReservedPath { path: "/docs".to_string() }));
    assert_eq!(table.len(), 0);
}

#[test]
fn same_path_with_other_method_is_accepted() {
    let mut table: RouteTable<Handler> = RouteTable::new();
    assert_eq!(table.register(route(Method::Get, "/items", hello, "list")), Ok(()));
    assert_eq!(table.register(route(Method::Post, "/items", other, "create")), Ok(()));
    assert_eq!(table.len(), 2);
}

#[test]
fn dispatch_finds_the_registered_handler() {
    let mut table: RouteTable<Handler> = RouteTable::new();
    let routes = vec![
        route(Method::Get, "/", hello, "hello"),
        route(Method::Get, "/health", health, "health"),
    ];
    assert_eq!(setup_router(&mut table, routes), Ok(()));
    assert_eq!(table.lookup(Method::Get, "/health"), Some(1));
    let h = table.dispatch(Method::Get, "/").expect("registered");
    assert_eq!(h(), "Hello World");
    let h = table.dispatch(Method::Get, "/health").expect("registered");
    assert_eq!(h(), "{\"status\":\"healthy\"}");
}

#[test]
fn dispatch_of_unregistered_route_is_not_found() {
    let mut table: RouteTable<Handler> = RouteTable::new();
    assert_eq!(table.register(route(Method::Get, "/", hello, "hello")), Ok(()));
    assert!(table.dispatch(Method::Post, "/").is_none());
    assert!(table.dispatch(Method::Get, "/missing").is_none());
    assert_eq!(table.lookup(Method::Get, "/missing"), None);
}

#[test]
fn generation_is_deterministic() {
    let mut table: RouteTable<Handler> = RouteTable::new();
    let routes = vec![
        route(Method::Get, "/b", hello, "b"),
        route(Method::Get, "/a", health, "a"),
        route(Method::Delete, "/b", other, "del_b"),
    ];
    assert_eq!(setup_router(&mut table, routes), Ok(()));
    let first = generate_openapi(&table, &info());
    let second = generate_openapi(&table, &info());
    assert_eq!(first, second);
}

#[test]
fn document_has_one_operation_per_route() {
    let mut table: RouteTable<Handler> = RouteTable::new();
    let mut described = route(Method::Delete, "/b", other, "del_b");
    described.description = Some("Removes b".to_string());
    described.tag = "admin".to_string();
    described.response_code = 204;
    described.response_desc = "No Content".to_string();
    let routes = vec![
        route(Method::Get, "/b", hello, "b"),
        route(Method::Get, "/a", health, "a"),
        described,
    ];
    assert_eq!(setup_router(&mut table, routes), Ok(()));
    let doc = generate_openapi(&table, &info());
    assert_eq!(doc.info.title, "My Example");
    assert_eq!(doc.info.version, "1.0.0");
    assert_eq!(doc.paths.len(), 2);
    assert_eq!(doc.paths[0].path, "/b");
    assert_eq!(doc.paths[1].path, "/a");
    assert_eq!(doc.paths[0].operations.len(), 2);
    assert_eq!(doc.paths[1].operations.len(), 1);
    let get_b = &doc.paths[0].operations[0];
    assert_eq!(get_b.method, Method::Get);
    assert_eq!(get_b.operation_id, "b");
    assert_eq!(get_b.description, "");
    let del_b = &doc.paths[0].operations[1];
    assert_eq!(del_b.method, Method::Delete);
    assert_eq!(del_b.operation_id, "del_b");
    assert_eq!(del_b.summary, "del_b endpoint");
    assert_eq!(del_b.description, "Removes b");
    assert_eq!(del_b.tag, "admin");
    assert_eq!(del_b.response_code, 204);
    assert_eq!(del_b.response_desc, "No Content");
    assert_eq!(doc.paths[1].operations[0].operation_id, "a");
}

#[test]
fn hello_and_health_service() {
    let routes = vec![
        Route {
            method: Method::Get,
            path: "/".to_string(),
            handler: hello as Handler,
            operation_id: "hello".to_string(),
            summary: "Hello endpoint".to_string(),
            description: None,
            tag: "example".to_string(),
            response_code: 200,
            response_desc: "OK".to_string(),
        },
        Route {
            method: Method::Get,
            path: "/health".to_string(),
            handler: health as Handler,
            operation_id: "health".to_string(),
            summary: "health endpoint".to_string(),
            description: None,
            tag: "example".to_string(),
            response_code: 200,
            response_desc: "OK".to_string(),
        },
    ];
    let mut config = ServerConfig::new();
    config.desc = Some("An example".to_string());
    let svc = match build_service(routes, "My Example", "0.1.0", config) {
        Ok(svc) => svc,
        Err(e) => panic!("setup failed: {e:?}"),
    };
    assert_eq!(svc.table.dispatch(Method::Get, "/").expect("hello")(), "Hello World");
    assert_eq!(
        svc.table.dispatch(Method::Get, "/health").expect("health")(),
        "{\"status\":\"healthy\"}"
    );
    let doc = &svc.document;
    assert_eq!(doc.info.title, "My Example");
    assert_eq!(doc.info.description, Some("An example".to_string()));
    assert_eq!(doc.info.summary, None);
    assert_eq!(doc.paths.len(), 2);
    assert_eq!(doc.paths[0].operations[0].operation_id, "hello");
    assert_eq!(doc.paths[1].operations[0].operation_id, "health");
    assert_eq!(backpack::docs_title("My Example"), "My Example - Scalar");
    assert_eq!(backpack::SPEC_PATH, "/openapi.json");
}

#[test]
fn build_service_reports_the_first_conflict() {
    let routes = vec![
        route(Method::Get, "/", hello, "hello"),
        route(Method::Get, "/docs", other, "docs"),
    ];
    let r = build_service(routes, "T", "1", ServerConfig::new());
    match r {
        Err(e) => assert_eq!(e, ConfigError::ReservedPath { path: "/docs".to_string() }),
        Ok(_) => panic!("reserved path accepted"),
    }
}

#[test]
fn server_config_defaults_are_empty() {
    let c = ServerConfig::new();
    assert_eq!(c.desc, None);
    assert_eq!(c.summary, None);
    assert_eq!(ServerConfig::default(), c);
}

#[test]
fn method_tokens() {
    assert_eq!(Method::Get.as_str(), "GET");
    assert_eq!(Method::Delete.as_str(), "DELETE");
    assert_eq!(Method::Options.as_str(), "OPTIONS");
}
