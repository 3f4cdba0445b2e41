//! Verified core of a rhythm-dodging game: byte reading, polygon
//! triangulation, level bookkeeping and the discrete decisions of the
//! game loop.

pub mod arrayreader;
pub mod polygon;
pub mod level;
pub mod provider;
pub mod collide;
pub mod schedule;
pub mod player;
