//! A batch runner's core: one external command is run once per input record,
//! and every outcome is recorded under a batch identifier.

pub mod batch;
pub mod cli;
pub mod dispatch;
pub mod executor;
pub mod laws;
pub mod monitor;
pub mod result;
pub mod rows;
pub mod statement;
pub mod store;
pub mod text;
