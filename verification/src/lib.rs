//! Benchmark selection, cargo invocation planning and perf-output parsing for
//! compile-time benchmarking, together with register accessors of the
//! STM32F4 peripheral benchmark crate.
pub mod text;
pub mod paths;
pub mod selector;
pub mod sorting;
pub mod toolchain;
pub mod compile;
pub mod stm32f4;
