//! Core logic of a judge server for competitive-programming submissions:
//! decimal texts of resource usage, comparison of produced and expected
//! outputs, the verdict, the names of the test-case files, the rules of the
//! syscall filters that sandbox a submission.

pub mod consumer;
pub mod decimal;
pub mod executor;
pub mod filter;
pub mod jail;
pub mod judge;
pub mod text;
