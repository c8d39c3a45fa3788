//! Structural analysis of source files: per-file, line-oriented extraction of
//! declared types, their trait implementations and dependency graph, method
//! signatures, and module-level configuration, together with the pure decision
//! logic of the surrounding repository crawler and exporter.

pub mod text;
pub mod patterns;
pub mod types;
pub mod closure;
pub mod scanner;
pub mod signatures;
pub mod config;
pub mod summary;
pub mod category;
pub mod analyzer;
pub mod error;
pub mod client;
pub mod export;
pub mod project;
pub mod laws;
