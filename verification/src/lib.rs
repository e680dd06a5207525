//! Ying is a native Rust sampling memory profiler which tracks retained memory and allocations.  It
//! is designed for production usage in asynchronous Rust programs.  Ying is Chinese for eagle.
//!
//! This library decides everything that the profiler does and proves it: which allocations are
//! sampled, what is recorded of them, what a thread inside the profiler may touch, how stack traces
//! are ranked, when and what is reported.  It does so one call at a time, on plain values.  What the
//! calls come from, such as the global allocator, threads, locks, the clock's updates and files, is
//! the business of the application around it.
//!
//! * [`profiler`]: what each call of the allocator leads to, and the [`YingProfiler`]
//! * [`thread_state`]: the re-entrancy guard and the sampling counter of each thread
//! * [`state`]: what is recorded, in three maps
//! * [`sharded_map`]: the maps
//! * [`callstack`], [`symbols`], [`backtraces`]: stack traces, their hashes and their symbols
//! * [`stack_stats`], [`histogram`], [`ranking`]: stats of each stack trace, and the top ones
//! * [`utils`], [`flamegraph`]: periodic reports and flamegraphs
//! * [`laws`]: what holds whatever the sequence of calls
pub mod backtraces;
pub mod callstack;
pub mod flamegraph;
pub mod histogram;
pub mod laws;
pub mod profiler;
pub mod ranking;
pub mod sharded_map;
pub mod stack_stats;
pub mod state;
pub mod symbols;
pub mod text;
pub mod thread_state;
pub mod utils;

pub use crate::profiler::YingProfiler;
