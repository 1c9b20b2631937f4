//! Tooling for authoring building mods: dialect-aware configuration parsing
//! with minimal-diff re-serialization, a binary model codec with geometric
//! transforms, and cross-validation of models against their configuration.

pub mod text;
pub mod fixp;
pub mod scan;
pub mod ini;
pub mod paths;
pub mod material;
pub mod render;
pub mod building;
pub mod nmf;
pub mod building_def;
pub mod data;
pub mod modpack;
