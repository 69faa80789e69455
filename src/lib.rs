//! Live tracking of the files that a traced process holds open.
//!
//! The library holds the logic of the tracer: the bounded registry of traced
//! process ids and the per-syscall decisions that the kernel instrumentation
//! makes with it, the startup rendezvous, the binary and wire records of file
//! events, the transport's line handling, the correlation of events into a
//! table of open files, and the lifecycle of the supervised process.
pub mod event;
pub mod instrument;
pub mod process;
pub mod registry;
pub mod rendezvous;
pub mod session;
pub mod table;
pub mod text;
pub mod tracer;
pub mod wire;
