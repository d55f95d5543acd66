//! Version management for the Godot engine: version identities, the naming
//! grammar of release assets and installation directories, release
//! resolution, and the decisions behind installing, activating and
//! uninstalling builds.

pub mod common;
pub mod text;
pub mod gd_semver;
pub mod github;
pub mod gdman;
pub mod commands;
