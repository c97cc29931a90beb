//! Types and codes of the HTTP and southbound APIs.

pub mod dataplane;
pub mod helpers;
pub mod json;
pub mod platform;
pub mod southbound;
pub mod types;
