//! Decision logic of the session manager: GPU selection, input validation,
//! version ordering, package metadata parsing, command construction, the
//! steps of preparing, replacing and watching sessions, the checks of
//! requests, and the rows the session database stores.

pub mod text;
pub mod versions;
pub mod packages;
pub mod gpu;
pub mod validation;
pub mod redact;
pub mod config;
pub mod containers;
pub mod releases;
pub mod lifecycle;
pub mod api;
pub mod store;
pub mod terminal;
pub mod settings;
pub mod prepare;
pub mod replace;
pub mod reconcile;
pub mod handlers;
