//! Dependency resolution for Velvet source modules.

pub mod declaration;
pub mod dependency;
pub mod registry;
pub mod resolution;
pub mod resolver;
pub mod sync;
pub mod text;
