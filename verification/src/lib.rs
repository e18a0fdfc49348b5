//! A small HTTP/1.1 client core for a version installer: the registry of
//! reason phrases, the request builder, the response that the events of a
//! streaming parser build up, and the decisions of the install command.
//!
//! Every function here carries a contract that Verus proves. The few items
//! that call into other crates are marked as trusted where they stand.

pub mod headers;
pub mod http;
pub mod install;
pub mod parser;
pub mod status;
pub mod text;
pub mod util;
