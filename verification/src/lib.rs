//! Planar Voronoi diagrams for integer-grid sites inside an axis-aligned
//! rectangular bounding region, with optional Lloyd relaxation.
//!
//! Coordinates are fixed-point values on an integer grid; every Voronoi
//! vertex is an exact rational point, so all geometric predicates
//! (nearest-site, containment, winding) are decided exactly, with no
//! floating-point tolerance. Arithmetic that would leave the range of
//! `i128` is reported as a numerical failure instead of being rounded.

use vstd::prelude::*;

mod area;
mod cell;
mod checks;
mod diagram;
mod geom;
mod line;
mod neighbors;
mod num;
mod region;
mod relax;

pub use area::cells_area_sum;
pub use area::check_diagram_area;
pub use area::diagram_area_exact;
pub use area::doubled_area;
pub use area::doubled_area_sum;
pub use area::edge_cross;
pub use area::rat_pair_add;
pub use area::region_doubled_area;
pub use area::polygon_doubled_area;
pub use area::ratio_add;
pub use area::ratio_eq;
pub use area::ratio_value_eq;
pub use area::Ratio;
pub use cell::build_cells;
pub use cell::distinct_vertices;
pub use cell::cell_geometry_ok;
pub use cell::winding_ok;
pub use cell::BuildError;
pub use cell::Cell;
pub use checks::bounded_vertex;
pub use checks::convex_contains;
pub use checks::convex_contains_exec;
pub use checks::VERTEX_DEN_LIMIT;
pub use checks::VERTEX_NUM_LIMIT;
pub use diagram::cell_final_ok;
pub use diagram::diagram_ok;
pub use diagram::sites_ok;
pub use diagram::voronoi;
pub use geom::closer_eq;
pub use geom::coord_ok;
pub use geom::COORD_LIMIT;
pub use geom::equidistant;
pub use geom::next_idx;
pub use geom::orient_val;
pub use geom::same_vertex;
pub use geom::scaled_sq_dist;
pub use geom::Point;
pub use geom::Vertex;
pub use neighbors::add_neighbors;
pub use neighbors::adjacent;
pub use neighbors::has_neighbor;
pub use neighbors::lemma_adjacent_symmetric;
pub use neighbors::lemma_neighbor_symmetry;
pub use neighbors::neighbors_assigned;
pub use neighbors::same_but_neighbors;
pub use neighbors::share_edge;
pub use region::in_region;
pub use region::region_in_grid;
pub use region::on_boundary;
pub use region::region_corners;
pub use region::BoundingRegion;

verus! {

} // verus!
