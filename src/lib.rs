//! Integer-coordinate planar geometry: points with vector arithmetic, and
//! closed polygonal paths with a signed shoelace area and a ray-casting
//! containment test.

mod area;
mod containment;
mod path;
mod point;

pub use area::{
    area_overflows, area_term, double_signed_area, edge_term, fits_i128, lemma_area_reversed,
    lemma_area_rotated, lemma_degenerate_path, next_index, term_sum, twice_area,
};
pub use containment::{
    contains_point, crossing_x, edge_crosses, is_point_in_polygon, magnitude, prev_index,
    ray_parity, straddles, trunc_div, within_bounds,
};
pub use path::{add_point_to_path, Path};
pub use point::{lemma_add_then_sub, point, point_difference, point_sum, Point};
