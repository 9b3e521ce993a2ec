//! Demo recording for the game client: snapshots and events are buffered by
//! tick, handed in chunks to a writer thread, and laid out in an append-only
//! binary format with a fixed header, a header extension, framed and
//! compressed chunks, and a tail that indexes where each chunk starts.
//!
//! Beside the recorder the crate holds plain data types shared with the map
//! renderer, the rendering backend and the config system.
pub mod codec;
pub mod tick_map;
pub mod recorder;
pub mod writer;
pub mod reader;
pub mod map_render;
pub mod backend_types;
pub mod config_error;
