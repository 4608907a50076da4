//! A dynamic REST gateway core: routes URL path prefixes to relational
//! tables and turns CRUD requests into parameterized SQL plans, JSON
//! responses, and lifecycle transitions. All logic here is pure; the
//! network listener and the store live outside the library.

pub mod coerce;
pub mod dispatch;
pub mod json;
pub mod lifecycle;
pub mod pagination;
pub mod routes;
pub mod sqlgen;
pub mod strutil;
