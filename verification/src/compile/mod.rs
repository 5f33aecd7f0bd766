//! Compile-time benchmarks: their descriptions, selection, and the cargo
//! invocations that measure them.
pub mod benchmark;
pub mod execute;
