//! Reshapes tables: column references, the transform kinds, and the pipeline
//! that checks a transform list against a table and emits the new rows.
pub mod column_ref;
pub mod text;
pub mod transform;
pub mod pipeline;
