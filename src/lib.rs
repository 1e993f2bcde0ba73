//! Launch-gated benchmarking with composable counters.
//!
//! The library holds the counter protocol (`Counter`, `Printable`), the
//! wrappers that aggregate observations across runs (`RSDPrinter`) and that
//! relate counters to a baseline (`RelativePrinter`), and the decisions taken
//! around one run of a target (`Runner`). Process creation itself is left to
//! the caller, which hands the library the observed pid and exit status.
pub mod counter;
pub mod error;
pub mod mock;
pub mod text;
pub mod rsd;
pub mod relative;
pub mod runner;
