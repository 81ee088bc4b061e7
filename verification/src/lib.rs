//! A small HTTP routing core: route declarations with `<name:regex>`
//! placeholders are compiled into anchored regular expressions, stored in a
//! per-method table, and matched against incoming paths in registration
//! order.

use vstd::prelude::*;

pub mod assoc;
pub mod capture;
pub mod config;
pub mod dispatch;
pub mod error;
pub mod headers;
pub mod json;
pub mod logger;
pub mod matcher;
pub mod normal;
pub mod request;
pub mod response;
pub mod router;
pub mod scan;
pub mod state;
pub mod text;

verus! {

/// An HTTP request method, as a closed set of the conventional verbs.
#[derive(Clone, Copy, Debug, PartialEq, Eq, Hash, Structural)]
pub enum Method {
    Get,
    Post,
    Put,
    Delete,
    Head,
    Options,
    Patch,
    Trace,
    Connect,
}

/// An HTTP protocol version.
#[derive(Clone, Copy, Debug, PartialEq, Eq, Structural)]
pub enum Version {
    Http09,
    Http10,
    Http11,
    H2,
    H3,
}

} // verus!
