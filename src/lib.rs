//! A grid raycasting software renderer, verified: decoding of the packed map
//! cells and their sub-cell wall geometry, the Q20 rasterising stages (sky,
//! floor and ceiling, walls, sprites) row by row over RGBA bytes, the
//! z-buffer, sprite ordering and occlusion, the texture store and the walk
//! decision. The float camera math that feeds these stages lives with the host.
pub mod cells;
pub mod fixed;
pub mod floor;
pub mod frame;
pub mod geometry;
pub mod grid;
pub mod sky;
pub mod sprites;
pub mod store;
pub mod texture;
pub mod walk;
pub mod walls;
