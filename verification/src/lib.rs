//! Supervision logic for fetching the cmus source archive and driving its
//! build: progress metering, throttled progress events, multiplexing of a
//! child's output, step sequencing and the task state that makes a running
//! task cancellable.
//!
//! Everything here is a function of plain values. The caller performs the
//! network, file and process work and reports what happened; the library
//! decides what follows.

pub mod layout;
pub mod pipeline;
pub mod process;
pub mod progress;
pub mod supervisor;
pub mod transfer;
