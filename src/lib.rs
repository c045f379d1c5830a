//! Declarative HTTP route registration and OpenAPI document generation.
//!
//! Routes are described as plain records, collected in a [`RouteTable`] that
//! rejects conflicting declarations, resolved by exact (method, path) lookup,
//! and turned into a deterministic [`SpecDocument`].

pub mod config;
pub mod document;
pub mod method;
pub mod route;
pub mod service;
pub mod table;
pub mod text;

pub use config::{ApiInfo, BannerConfig, ServerConfig};
pub use document::{generate_openapi, Operation, PathItem, SpecDocument};
pub use method::Method;
pub use route::{ConfigError, Route, RouteMeta, DOCS_PATH, SPEC_PATH};
pub use service::{build_service, Service};
pub use table::{setup_router, RouteTable};
pub use text::{bind_address, decimal_string, docs_title, print_address, GREEN, RESET};
