//! Core of a minimal network listener: the request-line codec and the
//! per-connection state machine that drives a read/decode/encode/write cycle.
//! Binding, accepting and socket I/O live outside the library; the library is
//! handed the bytes each read produced and says what must happen next.

pub mod codec;
pub mod conn;

pub use codec::SRVR;
