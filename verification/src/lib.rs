//! Ember: the core of a small backend framework, with machine-checked
//! contracts.
//!
//! A service declares its handlers and entities; from these the library
//! builds a route table ([`routes`]), dispatches requests against it
//! ([`pattern`], [`binder`], [`dispatch`]), frames requests and prints
//! responses of an HTTP/1.1 subset ([`transport`]), and derives the schema
//! migrations that run at startup ([`migration`]). Nothing in the library
//! touches a socket, a file or a clock: callers read and write, and hand
//! plain values in and out.

pub mod auth;
pub mod binder;
pub mod db;
pub mod dispatch;
pub mod error;
pub mod health;
pub mod http;
pub mod json;
pub mod metrics;
pub mod migration;
pub mod number;
pub mod outcome;
pub mod pattern;
pub mod routes;
pub mod runtime;
pub mod scaffold;
pub mod text;
pub mod transport;

pub use error::{EmberError, ProblemDetails};
pub use http::{HttpHandler, HttpResponse, Json, Route, Router};
pub use runtime::{App, HasEmberService, RunOptions};
