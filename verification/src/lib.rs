//! Host-side companion for a sensor device that streams marker-delimited
//! ASCII telemetry over a serial link.
//!
//! The crate holds the decisions of the companion program: cutting frames out
//! of the byte stream, decoding them into records, the recording session and
//! the command line typed at the prompt. Everything that touches the serial
//! port, the terminal or the file system is left to the program around it,
//! which feeds events in and carries the returned effects out.

pub mod banner;
pub mod clock;
pub mod command;
pub mod control;
pub mod decoder;
pub mod discovery;
pub mod effect;
pub mod frame;
pub mod frame_laws;
pub mod interpreter;
pub mod record;
pub mod session;
pub mod text;
