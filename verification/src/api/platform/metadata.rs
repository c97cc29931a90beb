//! The metadata that every platform resource carries.
use vstd::prelude::*;

verus! {

/// Identity, versioning and labels carried by every platform resource.
#[derive(Debug, Clone)]
pub struct ResourceMetadata {
    /// Stable resource identifier.
    pub id: String,
    /// Opaque version, advanced on every update.
    pub resource_version: String,
    /// Creation time, in Unix seconds.
    pub created_at: String,
    /// Last update time, in Unix seconds.
    pub updated_at: String,
    /// Free-form labels, as key and value; the agent reads runtime hints
    /// such as `runtime.tap_id` here.
    pub labels: Vec<(String, String)>,
}

/// Metadata that a create request may carry.
#[derive(Debug, Clone)]
pub struct ResourceCreateMetadata {
    /// Identifier to use instead of a generated one.
    pub id: Option<String>,
    /// Labels, as key and value.
    pub labels: Vec<(String, String)>,
}

/// Metadata that an update request may carry.
#[derive(Debug, Clone)]
pub struct ResourceUpdateMetadata {
    /// Version the update expects to replace.
    pub resource_version: Option<String>,
    /// Labels that replace the current ones, when given.
    pub labels: Option<Vec<(String, String)>>,
}

} // verus!
