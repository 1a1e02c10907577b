//! A small terminal scene compositor.
//!
//! Independently placed character-grid visuals are composited onto one
//! frame. Every grid in this crate is addressed by `(x, y)`: `x` counts
//! columns from the left edge, `y` counts rows from the top edge. Rows are
//! the unit of output and of the interchange format.
pub mod application;
pub mod cell;
pub mod clip;
pub mod error;
pub mod game;
pub mod geometry;
pub mod interchange;
pub mod json;
pub mod object;
pub mod region;
pub mod scene;
pub mod shapes;

pub use crate::cell::Char;
pub use crate::clip::{clip, clip_axis, Clip};
pub use crate::error::{EngineError, InvalidCell};
pub use crate::geometry::{Coordinate, Dimension, MAX_CELLS};
pub use crate::object::{Collidable, GameObject, Object, Renderable, Scriptable};
pub use crate::region::{Region, Window};
pub use crate::scene::Scene;
pub use crate::shapes::{draw_line, rectangle};
