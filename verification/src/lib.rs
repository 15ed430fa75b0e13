//! The grid logic of a two-player pong game: rectangles placed by their
//! anchors, the collision measure between them, and the score counter with
//! its block-digit display.

pub mod collision;
pub mod pong;
pub mod score;

pub use collision::{
    placement_allowed, CollissionResult, IVec2, Point, Ratio, RatioVec2, Rect, Side, UVec2, SUBPIXELS,
};
pub use pong::Camera;
pub use score::Score;
