//! Finds dependencies that a root package declares directly although other
//! packages of its build graph already pull them in, and judges from probes of
//! the source text whether each such direct declaration is still used.

pub mod names;
pub mod graph;
pub mod usage;
pub mod config;
