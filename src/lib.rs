//! Live tailing of append-only journal files.
//!
//! The library holds the logic of the readers: the incremental decoding of
//! newline-delimited records, the `WakeGate` and the decisions of the blocking
//! reader, the choice of the active file in a journal directory and the
//! rollover to a newer one, and the merge of log records with snapshot
//! records. File access, change notification and thread or task parking are
//! done by the caller, which performs what these functions decide.
pub mod dir;
pub mod gate;
pub mod lines;
pub mod merge;
pub mod names;
pub mod records;
pub mod tail;
pub mod watch;
