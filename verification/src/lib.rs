//! Routing and dispatch core of a small configuration-driven HTTP server.
//!
//! The crate holds the pure part of the server: the route table and its
//! matcher, the error router, the dispatcher as a step function, request
//! parsing, response framing, the job queue of the worker pool and the
//! update check. Sockets, files, threads and the script interpreter live
//! with the caller, which feeds their results back in.

pub mod errors;
pub mod logger;
pub mod request;
pub mod response;
pub mod routes;
pub mod script;
pub mod system;
pub mod text;
pub mod threading;
pub mod update;
