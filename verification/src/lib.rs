//! Routing decisions for a proxy in front of a mesh of inference nodes.

pub mod endpoint;
pub mod error;
pub mod history;
pub mod model;
pub mod policies;
pub mod request;
pub mod utils;
