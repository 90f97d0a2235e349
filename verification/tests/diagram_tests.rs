//! Behavioral tests of the diagram builder: cell count and order,
//! polygon geometry, neighbor symmetry, relaxation, and failure cases.

use voronoiville::{
    convex_contains_exec, polygon_doubled_area, ratio_add, ratio_value_eq, voronoi,
    BoundingRegion, BuildError, Cell, Point, Ratio, Vertex,
};

fn region100() -> BoundingRegion {
    BoundingRegion { x1: -50, y1: -50, x2: 50, y2: 50 }
}

fn vertex_f64(v: &Vertex) -> (f64, f64) {
    (v.xn as f64 / v.d as f64, v.yn as f64 / v.d as f64)
}

fn polygon_area_f64(vs: &[Vertex]) -> f64 {
    let n = vs.len();
    let mut sum: f64 = 0.0;
    for k in 0..n {
        let (x1, y1) = vertex_f64(&vs[k]);
        let (x2, y2) = vertex_f64(&vs[(k + 1) % n]);
        sum += x1 * y2 - x2 * y1;
    }
    sum / 2.0
}

fn scattered_sites() -> Vec<Point> {
    vec![
        Point { x: 0, y: 0 },
        Point { x: 30, y: 10 },
        Point { x: -20, y: 25 },
        Point { x: 10, y: -30 },
        Point { x: -35, y: -15 },
    ]
}

#[test]
fn cell_count_and_order() {
    let sites = scattered_sites();
    let cells = voronoi(&sites, &region100(), true, 0).unwrap();
    assert_eq!(cells.len(), sites.len());
    for (i, c) in cells.iter().enumerate() {
        assert_eq!(c.site, i);
        assert_eq!(c.position, sites[i]);
    }
}

#[test]
fn single_site_fills_region() {
    let sites = vec![Point { x: 0, y: 0 }];
    let cells = voronoi(&sites, &region100(), true, 0).unwrap();
    assert_eq!(cells.len(), 1);
    let c = &cells[0];
    assert_eq!(c.site, 0);
    assert!(c.is_on_hull);
    assert!(c.neighbors.is_empty());
    let expected = vec![
        Vertex { xn: -50, yn: -50, d: 1 },
        Vertex { xn: 50, yn: -50, d: 1 },
        Vertex { xn: 50, yn: 50, d: 1 },
        Vertex { xn: -50, yn: 50, d: 1 },
    ];
    assert_eq!(c.vertices, expected);
}

#[test]
fn two_symmetric_sites_split_region() {
    let sites = vec![Point { x: -25, y: 0 }, Point { x: 25, y: 0 }];
    let cells = voronoi(&sites, &region100(), true, 0).unwrap();
    assert_eq!(cells.len(), 2);

    let left = &cells[0];
    let right = &cells[1];
    let expected_left = vec![
        Vertex { xn: -50, yn: -50, d: 1 },
        Vertex { xn: 0, yn: -50, d: 1 },
        Vertex { xn: 0, yn: 50, d: 1 },
        Vertex { xn: -50, yn: 50, d: 1 },
    ];
    let expected_right = vec![
        Vertex { xn: 0, yn: -50, d: 1 },
        Vertex { xn: 50, yn: -50, d: 1 },
        Vertex { xn: 50, yn: 50, d: 1 },
        Vertex { xn: 0, yn: 50, d: 1 },
    ];
    assert_eq!(left.vertices, expected_left);
    assert_eq!(right.vertices, expected_right);

    // Equal areas, both on the hull, each the single neighbor of the
    // other, separated by the bisector x == 0.
    let a_left = polygon_area_f64(&left.vertices);
    let a_right = polygon_area_f64(&right.vertices);
    assert!((a_left - a_right).abs() < 1e-9);
    assert!((a_left - 5000.0).abs() < 1e-9);
    assert!(left.is_on_hull && right.is_on_hull);
    assert_eq!(left.neighbors, vec![1]);
    assert_eq!(right.neighbors, vec![0]);
    for v in &left.vertices {
        if v.xn == 0 {
            // on the bisector: exactly equidistant from both sites
            let (x, y) = vertex_f64(v);
            let dl = (x + 25.0) * (x + 25.0) + y * y;
            let dr = (x - 25.0) * (x - 25.0) + y * y;
            assert!((dl - dr).abs() < 1e-9);
        }
    }
}

#[test]
fn areas_sum_to_region_area() {
    let sites = scattered_sites();
    let cells = voronoi(&sites, &region100(), false, 0).unwrap();
    let total: f64 = cells.iter().map(|c| polygon_area_f64(&c.vertices)).sum();
    let region_area = 100.0 * 100.0;
    assert!(((total - region_area) / region_area).abs() < 1e-9);
}

#[test]
fn areas_sum_exactly_to_region_area() {
    let sites = scattered_sites();
    let cells = voronoi(&sites, &region100(), false, 0).unwrap();
    let mut total = Ratio { num: 0, den: 1 };
    for c in &cells {
        let a = polygon_doubled_area(&c.vertices).unwrap();
        total = ratio_add(&total, &a).unwrap();
    }
    // doubled area of the 100 x 100 region
    let expected = Ratio { num: 20000, den: 1 };
    assert_eq!(ratio_value_eq(&total, &expected), Some(true));
}

#[test]
fn symmetric_sites_have_exactly_equal_areas() {
    let sites = vec![Point { x: -25, y: 0 }, Point { x: 25, y: 0 }];
    let cells = voronoi(&sites, &region100(), false, 0).unwrap();
    let a0 = polygon_doubled_area(&cells[0].vertices).unwrap();
    let a1 = polygon_doubled_area(&cells[1].vertices).unwrap();
    assert_eq!(ratio_value_eq(&a0, &a1), Some(true));
    assert_eq!(ratio_value_eq(&a0, &Ratio { num: 10000, den: 1 }), Some(true));
}

#[test]
fn winding_is_counter_clockwise() {
    let sites = scattered_sites();
    let cells = voronoi(&sites, &region100(), false, 0).unwrap();
    for c in &cells {
        let n = c.vertices.len();
        assert!(n >= 3);
        // convex counter-clockwise: no cyclic triple turns right
        for k in 0..n {
            let p = &c.vertices[k];
            let q = &c.vertices[(k + 1) % n];
            let r = &c.vertices[(k + 2) % n];
            let f1 = q.xn * p.d - p.xn * q.d;
            let f2 = r.yn * p.d - p.yn * r.d;
            let f3 = r.xn * p.d - p.xn * r.d;
            let f4 = q.yn * p.d - p.yn * q.d;
            assert!(f1 * f2 - f3 * f4 >= 0);
        }
        // positive area: no degenerate cell for interior sites
        assert!(polygon_area_f64(&c.vertices) > 0.0);
    }
}

#[test]
fn each_cell_contains_its_own_site() {
    let sites = scattered_sites();
    let cells = voronoi(&sites, &region100(), false, 0).unwrap();
    for c in &cells {
        let site_vertex = Vertex::from_point(c.position);
        assert_eq!(convex_contains_exec(&c.vertices, &site_vertex), Some(true));
    }
    // a point outside the region is in no cell
    let outside = Vertex::from_point(Point { x: 60, y: 60 });
    for c in &cells {
        assert_eq!(convex_contains_exec(&c.vertices, &outside), Some(false));
    }
}

#[test]
fn neighbor_relation_is_symmetric() {
    let sites = scattered_sites();
    let cells = voronoi(&sites, &region100(), true, 0).unwrap();
    let n = cells.len();
    for i in 0..n {
        for j in 0..n {
            let i_has_j = cells[i].neighbors.contains(&j);
            let j_has_i = cells[j].neighbors.contains(&i);
            assert_eq!(i_has_j, j_has_i);
        }
        assert!(!cells[i].neighbors.contains(&i));
    }
}

#[test]
fn no_relaxation_keeps_positions() {
    let sites = scattered_sites();
    let cells = voronoi(&sites, &region100(), false, 0).unwrap();
    for (i, c) in cells.iter().enumerate() {
        assert_eq!(c.position, sites[i]);
    }
}

#[test]
fn relaxation_moves_sites_toward_centroids() {
    let sites = vec![Point { x: -40, y: 0 }, Point { x: 40, y: 0 }];
    let cells = voronoi(&sites, &region100(), false, 1).unwrap();
    // Each half cell's centroid is the center of its half.
    assert_eq!(cells[0].position, Point { x: -25, y: 0 });
    assert_eq!(cells[1].position, Point { x: 25, y: 0 });
    assert_ne!(cells[0].position, sites[0]);
    assert_ne!(cells[1].position, sites[1]);
}

#[test]
fn relaxation_is_stable_once_centered() {
    let sites = vec![Point { x: -40, y: 0 }, Point { x: 40, y: 0 }];
    let once = voronoi(&sites, &region100(), false, 1).unwrap();
    let thrice = voronoi(&sites, &region100(), false, 3).unwrap();
    // after one step the sites sit at their cell centroids, so further
    // iterations keep them there
    for (a, b) in once.iter().zip(thrice.iter()) {
        assert_eq!(a.position, b.position);
        assert_eq!(a.vertices, b.vertices);
    }
}

#[test]
fn site_outside_region_gets_empty_cell() {
    // the second site's half-plane lies entirely outside the region, so
    // its clipped cell is empty: a valid zero-area result, not an error
    let sites = vec![Point { x: 0, y: 0 }, Point { x: 200, y: 0 }];
    let cells = voronoi(&sites, &region100(), false, 0).unwrap();
    assert_eq!(cells.len(), 2);
    assert_eq!(cells[1].site, 1);
    assert!(cells[1].vertices.is_empty());
    assert!(!cells[1].is_on_hull);
    // the remaining cell covers the whole region
    let a0 = polygon_doubled_area(&cells[0].vertices).unwrap();
    assert_eq!(ratio_value_eq(&a0, &Ratio { num: 20000, den: 1 }), Some(true));
}

#[test]
fn neighbors_off_leaves_rest_unchanged() {
    let sites = scattered_sites();
    let with: Vec<Cell> = voronoi(&sites, &region100(), true, 0).unwrap();
    let without: Vec<Cell> = voronoi(&sites, &region100(), false, 0).unwrap();
    assert_eq!(with.len(), without.len());
    for (a, b) in with.iter().zip(without.iter()) {
        assert!(b.neighbors.is_empty());
        assert!(!a.neighbors.is_empty());
        assert_eq!(a.site, b.site);
        assert_eq!(a.position, b.position);
        assert_eq!(a.vertices, b.vertices);
        assert_eq!(a.is_on_hull, b.is_on_hull);
    }
}

#[test]
fn invalid_region_is_config_error() {
    let sites = vec![Point { x: 0, y: 0 }];
    let zero_width = BoundingRegion { x1: 10, y1: -50, x2: 10, y2: 50 };
    assert!(matches!(voronoi(&sites, &zero_width, true, 0), Err(BuildError::Config)));
    let flipped = BoundingRegion { x1: 50, y1: -50, x2: -50, y2: 50 };
    assert!(matches!(voronoi(&sites, &flipped, true, 0), Err(BuildError::Config)));
}

#[test]
fn degenerate_sites_are_input_errors() {
    let dup = vec![Point { x: 3, y: 4 }, Point { x: -7, y: 2 }, Point { x: 3, y: 4 }];
    assert!(matches!(voronoi(&dup, &region100(), true, 0), Err(BuildError::Input)));
    let empty: Vec<Point> = vec![];
    assert!(matches!(voronoi(&empty, &region100(), true, 0), Err(BuildError::Input)));
    let out_of_range = vec![Point { x: 0, y: 0 }, Point { x: 65537, y: 0 }];
    assert!(matches!(voronoi(&out_of_range, &region100(), true, 0), Err(BuildError::Input)));
}

#[test]
fn collinear_sites_still_build() {
    let sites = vec![
        Point { x: -30, y: 0 },
        Point { x: 0, y: 0 },
        Point { x: 30, y: 0 },
    ];
    let cells = voronoi(&sites, &region100(), true, 0).unwrap();
    assert_eq!(cells.len(), 3);
    let total: f64 = cells.iter().map(|c| polygon_area_f64(&c.vertices)).sum();
    assert!(((total - 10000.0) / 10000.0).abs() < 1e-9);
    // middle strip is the neighbor of both outer cells
    assert!(cells[0].neighbors.contains(&1));
    assert!(cells[2].neighbors.contains(&1));
    assert!(cells[1].neighbors.contains(&0) && cells[1].neighbors.contains(&2));
    assert!(!cells[0].neighbors.contains(&2));
}
