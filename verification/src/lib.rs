//! Core of an incremental build orchestrator for C++ projects driven by the
//! MSVC toolchain: the project manifest and the project graph, the rules of
//! the command line, compiler flags and compiler output, the decisions on
//! what is out of date, and the choice of the toolchain.
//!
//! Everything here computes on plain values. Reading directories and file
//! times and running the tools is left to the caller, who hands the results
//! in and carries out what the library decides.

pub mod text;
pub mod paths;
pub mod proj_config;
pub mod cmd_options;
pub mod json;
pub mod manifest;
pub mod graph;
pub mod toolchain_paths;
pub mod libraries;
pub mod src_paths;
pub mod edit_times;
pub mod build_env;
pub mod build_manager;
pub mod diagnostics;
pub mod task;
pub mod plan;
pub mod process;
