//! Synthesis of development environments from a project's dependency
//! metadata: which native inputs and environment variables a project's
//! packages imply, and the flake that provides them.

pub mod detect;
pub mod dev_env;
pub mod error;
pub mod fetch;
pub mod flake;
pub mod language_set;
pub mod laws;
pub mod model;
pub mod name_set;
pub mod registry;
pub mod rule;
pub mod summary;
pub mod telemetry;
pub mod text;
pub mod text_map;
