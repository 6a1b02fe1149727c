//! A partitioned-work compute grid client library.
//!
//! A coordinator hands out bounded numeric search ranges ("jobs"); workers
//! exhaustively search their range for candidates whose SHA-256 digest has
//! enough leading zero bits, report solutions, and scale their own count on
//! demand. This crate holds the verified core: the candidate-buffer counter,
//! digest evaluation, hash-rate bookkeeping, the job protocol data model, the
//! mining attempt state machine, and the worker-pool lifecycle rules. The
//! surrounding process (terminal UI, HTTP transport, OS threads, clocks)
//! lives outside the library and hands plain values in and out.

pub mod application;
pub mod counter;
pub mod digest;
pub mod log;
pub mod packets;
pub mod rate;
pub mod worker;
