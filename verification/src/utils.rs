//! Small helpers.

pub mod json_validation;
pub mod node_ids;
