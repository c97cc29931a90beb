//! The node-local control plane: its errors, the observe query pipeline and
//! small decisions of its operations.

pub mod error;
pub mod observe;
pub mod ops;
pub mod decisions;
