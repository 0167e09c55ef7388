//! Exact 2D line-plot geometry: range reduction, affine remapping between
//! axis-aligned boxes, and clipping of polyline segments against a screen
//! rectangle.
//!
//! Data points are integer coordinates understood at a caller-chosen
//! fixed-point scale; the scale cancels out of the affine remap, so every
//! screen coordinate this library produces is an exact rational number.
//! The library computes geometry only: an application layer turns the
//! returned line strips and segments into actual draw calls.

pub mod clip;
pub mod draw;
pub mod geom;
pub mod ranges;
pub mod remap;

pub use clip::segment_entry;
pub use draw::draw_gizmo_line_plot_2d_clamped;
pub use draw::draw_gizmo_line_plot_2d_raw;
pub use geom::rect_contains;
pub use geom::Point;
pub use geom::Rat;
pub use geom::RatPoint;
pub use geom::Rect;
pub use geom::Segment;
pub use geom::COORD_LIMIT;
pub use ranges::lines_min_max_by_points;
pub use ranges::points_min_max;
pub use remap::remap_point;
