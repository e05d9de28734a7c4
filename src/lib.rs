//! Zone overlay engine: a model of monitors and their zone layouts, the
//! geometry that picks the zone under the cursor, and the drag / hover / snap
//! state machine that decides what the overlay shows and where a window lands.
//!
//! Everything here is plain computation; talking to the display server and
//! reading or writing the configuration file is left to the caller.

pub mod commands;
pub mod config;
pub mod geometry;
pub mod layout;
pub mod overlay;
pub mod render;
pub mod resolver;
