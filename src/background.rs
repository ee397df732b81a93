use vstd::prelude::*;

verus! {

/// Screen height in pixels.
pub const SCREEN_HEIGHT: usize = 160;

/// Screen width in pixels.
pub const SCREEN_WIDTH: usize = 240;

/// Edge of a square tile in pixels.
pub const TILE_SIZE_IN_PX: usize = 8;

/// Edge of a backing tilemap in tiles.
pub const BACKING_MAP_LENGTH_IN_TILES: usize = 32;

/// The (column, row) of the backing tilemap that holds the pixel at (x, y) of a large
/// background.
pub fn coords_to_backing_tilemap_indices(x: usize, y: usize) -> (r: (usize, usize))
    ensures
        r.0 == x / 256,
        r.1 == y / 256,
{
    (
        x / (BACKING_MAP_LENGTH_IN_TILES * TILE_SIZE_IN_PX),
        y / (BACKING_MAP_LENGTH_IN_TILES * TILE_SIZE_IN_PX),
    )
}

/// Given the top-left corner of the visible area, the top-right, bottom-right and bottom-left
/// corners.
pub fn coords_from_top_left_for_all_screen_corners(x: usize, y: usize) -> (r: (
    (usize, usize),
    (usize, usize),
    (usize, usize),
))
    requires
        x + SCREEN_WIDTH <= usize::MAX,
        y + SCREEN_HEIGHT <= usize::MAX,
    ensures
        r.0.0 == x + SCREEN_WIDTH,
        r.0.1 == y,
        r.1.0 == x + SCREEN_WIDTH,
        r.1.1 == y + SCREEN_HEIGHT,
        r.2.0 == x,
        r.2.1 == y + SCREEN_HEIGHT,
{
    let top_right = (x + SCREEN_WIDTH, y);
    let bottom_right = (x + SCREEN_WIDTH, y + SCREEN_HEIGHT);
    let bottom_left = (x, y + SCREEN_HEIGHT);
    (top_right, bottom_right, bottom_left)
}

} // verus!
