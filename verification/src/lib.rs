//! Core of a configuration-file manager: a registry of projects, a central
//! managed store for their private files, and the decision logic that keeps
//! user-side symlinks, the managed store and the registry consistent.
pub mod app_config;
pub mod app_init;
pub mod commands;
pub mod error;
pub mod fs_model;
pub mod fs_utils;
pub mod git_ignore;
pub mod json;
pub mod locations;
pub mod paths;
pub mod project_init;
pub mod projects;
pub mod properties;
pub mod text;
