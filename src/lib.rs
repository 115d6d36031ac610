//! Metadata-driven invocation engine for REST API surfaces: command index
//! lookup, operation selection by condition trees, request building and
//! response routing.

pub mod body;
pub mod bound_args;
pub mod complete;
pub mod condition;
pub mod invoke;
pub mod metadata_command;
pub mod metadata_index;
pub mod resource_id;
pub mod semantic_tokens;
pub mod shell;
pub mod text;
