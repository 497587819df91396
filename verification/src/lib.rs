//! Core of a debug adapter that sits between an editor speaking the Debug
//! Adapter Protocol and a remote stub speaking the GDB remote serial
//! protocol.
//!
//! Everything here works on plain values: bytes, strings, integers and the
//! types of this crate. Sockets, files and standard streams belong to the
//! caller, which feeds what it read into the state machines below and carries
//! out the actions they hand back.

pub mod backend;
pub mod backend_laws;
pub mod cli;
pub mod dap;
pub mod dap_codec;
pub mod dap_frame_laws;
pub mod dap_laws;
pub mod dwarf;
pub mod extension;
pub mod gdb_client;
pub mod gdb_remote;
pub mod gdb_remote_laws;
pub mod hex;
pub mod json;
pub mod line_index;
pub mod line_index_laws;
pub mod macho;
pub mod paths;
pub mod session;
pub mod setup;
pub mod session_laws;
pub mod symbols;
pub mod text;
