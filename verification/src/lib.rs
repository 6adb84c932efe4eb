//! A first-person grid raycasting engine core over a 2-D tile level.
//!
//! All world quantities are plain integers: positions and tile sizes are
//! measured in world subunits chosen by the caller, headings are given as
//! direction vectors (the caller evaluates its trigonometry once per frame
//! and hands the results in as fixed-point components), and every function
//! states exactly what it computes.  The pipeline is the classic one:
//! resolve the player circle against solid tiles, walk a digital
//! differential analyzer (DDA) ray per screen column to the nearest wall,
//! project each hit into a vertical strip with fisheye correction, and
//! depth-composite billboard sprites against the per-column wall distances.

pub mod breakout;
pub mod collision;
pub mod editor;
pub mod grid;
pub mod input;
pub mod level;
pub mod math;
pub mod num;
pub mod player;
pub mod raycast;
pub mod ui;
pub mod render;
