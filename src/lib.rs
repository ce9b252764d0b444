//! A small HTTP server core: request parsing, static-file sandboxing, response
//! framing and the bounded job queue of the worker pool, verified with Verus.
pub mod config;
pub mod default_app;
pub mod http;
pub mod mime;
pub mod pool;
pub mod response;
pub mod text;
