//! Causal Dynamical Triangulations in 1+1 dimensions: configuration rules,
//! foliation bookkeeping, and CDT simplex classification over a combinatorial
//! mesh model.

pub mod cli;
pub mod config;
pub mod errors;
pub mod foliation;
pub mod mesh;
pub mod paths;
pub mod text;
pub mod triangulation;
