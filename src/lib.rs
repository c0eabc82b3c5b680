//! A local reverse-proxy gateway that spreads requests over a pool of
//! upstream accounts: account selection and health, upstream header and
//! path rewriting, per-request decisions and request-log shaping.

pub mod text;
pub mod pool;
pub mod session;
pub mod headers;
pub mod routing;
pub mod config;
pub mod gateway;
pub mod json;
pub mod logs;
pub mod credentials;
pub mod accounts;
