//! Bulk transfer of notes from a relational database into a full-text search
//! index: row normalization, chunking, per-chunk outcome accounting and the
//! run's decision logic, each stated and proved over a mathematical model.

pub mod aid;
pub mod chunk;
pub mod config;
pub mod notes;
pub mod outcome;
pub mod run;
pub mod text;
