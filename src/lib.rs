//! A schema-driven generator of typed API client functions.
//!
//! Given an API description (paths, operations, parameters and schemas, see
//! [`model`]), [`synth::generate_files`] produces one documented function per
//! operation, grouped by tag. The passes it runs are:
//!
//! - [`registry`]: resolves schemas to type identifiers, reusing one
//!   identifier for structurally identical anonymous schemas;
//! - [`params`]: classifies parameters and builds the query binding table;
//! - [`template`]: parses path templates and compiles them, with the query
//!   bindings, into URL-building code;
//! - [`response`]: picks the response type by content-type precedence, and
//!   the request-body strategy;
//! - [`emit`]: renders documentation, request calls and functions as text.
//!
//! [`client`] holds what generated functions share at run time, and
//! [`laws`] states properties of whole runs.

pub mod client;
pub mod emit;
pub mod laws;
pub mod model;
pub mod naming;
pub mod params;
pub mod registry;
pub mod response;
pub mod synth;
pub mod table;
pub mod template;
pub mod text;
