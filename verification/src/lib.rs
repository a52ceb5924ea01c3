//! Script-host bridge for a Lua-scripted web-service runtime.
//!
//! The crate models the subsystem that registers native capabilities into a
//! script runtime, loads script library units in a dependency-tolerant order,
//! compiles a script-authored route table into a dispatch table, reconciles
//! per-request response mutations into a wire response, and hands scripts
//! cancellable task handles.

pub mod config;
pub mod cookie;
pub mod crypto;
pub mod dispatch;
pub mod httpclient;
pub mod json;
pub mod loader;
pub mod params;
pub mod pattern;
pub mod registrar;
pub mod registry;
pub mod request;
pub mod response;
pub mod routes;
pub mod script;
pub mod strmap;
pub mod tasks;
pub mod text;
