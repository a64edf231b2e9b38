//! Launcher support library for a classic arena-shooter engine family.
//!
//! The centre of the crate is the decoder for recorded matches: a fixed code
//! tree, a bit-level reader over it, the typed server messages, and the record
//! that a recording is summarised into. Around it stand the small data types
//! of the launcher: clients, master servers, game servers, levels, settings.

pub mod bitstream;
pub mod client;
pub mod colorstring;
pub mod config;
pub mod decoder;
pub mod demo;
pub mod gamestate;
pub mod huffman;
pub mod info_map;
pub mod laws;
pub mod level;
pub mod master;
pub mod numbers;
pub mod reader;
pub mod saved;
pub mod server;
pub mod status;
pub mod text;
pub mod text_set;
