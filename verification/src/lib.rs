//! Core of a project-management tool that drives the init/build/package
//! workflow of game projects across several engines (Unreal, Unity, Godot)
//! behind one command surface and one configuration model.
//!
//! The library holds the engine abstraction and the orchestration logic:
//! the two-tier configuration model (a global engine-path registry and
//! per-project settings), the engine selection in [`manager::ProjectManager`],
//! project detection, and the planning of build and package invocations.
//! Reading files, spawning engine tools and printing are left to the thin
//! binary around the library, which feeds results back in as plain values.

pub mod cli;
pub mod config;
pub mod engine;
pub mod error;
pub mod host;
pub mod manager;
pub mod text;
