//! Verified core of a PTY-backed shell session recorder.
//!
//! The library holds the logic of the recorder that can be stated and proved:
//! reassembling the captured byte stream into lines, the multiplexer's
//! decisions (when to forward, when to stop, when to restore the terminal),
//! the ordered capture store with its query surface, and the backend
//! capability interface. The operating-system work itself (the
//! pseudo-terminal, raw mode, persistence on disk) lives with the binary
//! that drives this library.

pub mod backend;
pub mod cli;
pub mod ingest;
pub mod mux;
pub mod store;
