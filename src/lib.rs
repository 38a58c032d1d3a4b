//! Input-state engine for a networked arcade controller.
//!
//! The library holds the logic of the controller: a flick detector that turns
//! vertical touch positions into discrete gestures, a connection state machine
//! with a timed handshake, and the encoder of the binary packets streamed to
//! the remote side. Sockets, clocks and threads belong to the host around it,
//! which hands the engine plain values (the time in nanoseconds, received
//! datagrams) and sends the bytes it gets back.

pub mod air;
pub mod engine;
pub mod flick;
pub mod packet;
