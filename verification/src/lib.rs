//! Verified core of a live-viewer reporting tool.
//!
//! The library models the logic of the tool: summing viewer counts across
//! paginated listings of live broadcasts, collecting per-game results from a
//! fan-out of independent lookups, assembling and sorting the final report,
//! and encoding and decoding the plain-text game-list files. Network and file
//! I/O live outside the library and hand it plain values.

pub mod aggregate;
pub mod game_list;
pub mod json;
pub mod render;
pub mod report;
