//! Tile-map classification for a falling-block puzzle game: block shapes,
//! map roles, the grid classifier, the block-key lookup table and the
//! map-shape validator, all on plain values.
pub mod keys;
pub mod grid;
pub mod lookup;
pub mod tile_set;
pub mod block_units;
pub mod crate_paths;
