//! A user-space TCP engine.
//!
//! `seq_arith` compares and offsets numbers of the 32-bit sequence space.
//! `tcp` holds the transmission control block and its state machine,
//! `table` the connection table that routes segments to control blocks,
//! `timers` the pending timers. `codec` reads and writes the wire format
//! with `etherparse`. `engine` ties them together: one packet in, the
//! packets to write out. The `*_lemmas` modules state what holds of each
//! of these whatever arrives.

pub mod codec;
pub mod codec_lemmas;
pub mod engine;
pub mod engine_lemmas;
pub mod error;
pub mod segment;
pub mod seq_arith;
pub mod table;
pub mod table_lemmas;
pub mod tcp;
pub mod tcp_lemmas;
pub mod timers;
pub mod timers_lemmas;
