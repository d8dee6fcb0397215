//! The figure: a tessellated surface with its control net, and the
//! render adapter that walks both into a flat list of drawing commands.
//!
//! The adapter projects orthographically by dropping `z`: a command
//! carries only screen-plane fixed-point coordinates.  Command order is
//! the paint order: surface tiles in black, then control-net tiles in
//! blue, then control-point markers (on top).

use vstd::prelude::*;
use vstd::arithmetic::div_mod::lemma_div_is_ordered;
use vstd::arithmetic::div_mod::lemma_fundamental_div_mod_converse;
use crate::transform::Point3H;
use crate::transform::point_wf;
use crate::transform::TransformMatrix;
use crate::transform::apply_points;
use crate::transform::row_transformed;
use crate::transform::some_image_unstorable;
use crate::transform::app_row;
use crate::fixed::fp_wf;
use crate::bezier::GeomError;
use crate::bezier::evaluate;
use crate::bezier::tessellation_of;
use crate::bezier::grid_wf;

verus! {

/// An opaque RGB color.
#[derive(Clone, Copy, PartialEq, Eq, Structural, Debug)]
pub struct Color {
    pub r: u8,
    pub g: u8,
    pub b: u8,
}

/// The color of the surface tiles.
pub open spec fn black() -> Color {
    Color { r: 0, g: 0, b: 0 }
}

/// The color of the control-net tiles and markers.
pub open spec fn blue() -> Color {
    Color { r: 0, g: 0, b: 255 }
}

/// Marker radius for control points: five screen units.
pub const MARKER_RADIUS: i64 = 327680;

/// One drawing command for the host canvas, in fixed-point screen
/// coordinates.
#[derive(Clone, PartialEq, Eq, Debug)]
pub enum DrawCmd {
    Polygon { pts: Vec<(i64, i64)>, color: Color },
    Circle { cx: i64, cy: i64, radius: i64, color: Color },
}

/// The screen-plane projection of a point: its x and y.
pub open spec fn xy(p: Point3H) -> (i64, i64) {
    (p.x, p.y)
}

/// The four corners of grid cell `(i, j)`, in paint order.
pub open spec fn tile_pts(g: Seq<Vec<Point3H>>, i: int, j: int) -> Seq<(i64, i64)> {
    seq![xy(g[i]@[j]), xy(g[i]@[j + 1]), xy(g[i + 1]@[j + 1]), xy(g[i + 1]@[j])]
}

/// `cmd` paints grid cell `(i, j)` as a filled quad of the given color.
pub open spec fn is_tile(cmd: DrawCmd, g: Seq<Vec<Point3H>>, i: int, j: int, col: Color) -> bool {
    match cmd {
        DrawCmd::Polygon { pts, color } => color == col && pts@ == tile_pts(g, i, j),
        _ => false,
    }
}

/// `cmd` paints the marker of control point `(i, j)`.
pub open spec fn is_marker(cmd: DrawCmd, g: Seq<Vec<Point3H>>, i: int, j: int) -> bool {
    match cmd {
        DrawCmd::Circle { cx, cy, radius, color } => cx == g[i]@[j].x && cy == g[i]@[j].y
            && radius == MARKER_RADIUS && color == blue(),
        _ => false,
    }
}

/// Every point of every row is storable (no particular shape).
pub open spec fn rows_wf(g: Seq<Vec<Point3H>>) -> bool {
    forall|a: int, k: int|
        0 <= a < g.len() && 0 <= k < g[a]@.len() ==> point_wf(#[trigger] g[a]@[k])
}

/// A tessellated surface together with the control net it came from.
pub struct Figure {
    pub surface_points: Vec<Vec<Point3H>>,
    pub control_points: Vec<Vec<Point3H>>,
}

impl Figure {
    /// Builds the figure of a control grid: evaluates the Bezier
    /// tessellation at the given resolution and keeps the control net
    /// alongside it.
    pub fn new_bezier_surface(control_points: Vec<Vec<Point3H>>, parts: (usize, usize)) -> (r:
        Result<Figure, GeomError>)
        requires
            1 <= control_points@.len() <= 16,
            grid_wf(control_points@, control_points@.len() as int, control_points@.len() as int),
            1 <= parts.0 <= 30000,
            1 <= parts.1 <= 30000,
        ensures
            match r {
                Ok(f) => f.control_points@ == control_points@ && tessellation_of(
                    control_points@,
                    (control_points@.len() - 1) as nat,
                    parts.0 as int,
                    parts.1 as int,
                    f.surface_points@,
                ),
                Err(e) => e == GeomError::RangeExceeded && exists|ui: int, vj: int, ax: int|
                    0 <= ui <= parts.0 && 0 <= vj <= parts.1 && 0 <= ax < 3 && !crate::fixed::fp_wf(
                        #[trigger] crate::bezier::surf_coord(
                            control_points@,
                            (control_points@.len() - 1) as nat,
                            crate::bezier::param(ui, parts.0 as int),
                            crate::bezier::param(vj, parts.1 as int),
                            ax,
                        ),
                    ),
            },
    {
        match evaluate(&control_points, parts) {
            Ok(surface) => Ok(Figure { surface_points: surface, control_points }),
            Err(e) => Err(e),
        }
    }

    /// Applies a transform to every point of both grids, exactly as the
    /// pipeline specifies; `None`-range failures leave the figure
    /// untouched.
    pub fn transform(&mut self, matrix: &TransformMatrix) -> (r: Result<(), GeomError>)
        requires
            matrix.wf(),
            rows_wf(old(self).surface_points@),
            rows_wf(old(self).control_points@),
        ensures
            match r {
                Ok(_) => {
                    &&& final(self).surface_points@.len() == old(self).surface_points@.len()
                    &&& final(self).control_points@.len() == old(self).control_points@.len()
                    &&& forall|a: int|
                        0 <= a < old(self).surface_points@.len() ==> row_transformed(
                            matrix.s(),
                            old(self).surface_points@[a]@,
                            (#[trigger] final(self).surface_points@[a])@,
                        )
                    &&& forall|a: int|
                        0 <= a < old(self).control_points@.len() ==> row_transformed(
                            matrix.s(),
                            old(self).control_points@[a]@,
                            (#[trigger] final(self).control_points@[a])@,
                        )
                },
                Err(e) => {
                    &&& *final(self) == *old(self)
                    &&& e == GeomError::RangeExceeded
                    &&& (some_image_unstorable(matrix.s(), old(self).surface_points@)
                        || some_image_unstorable(matrix.s(), old(self).control_points@))
                },
            },
    {
        let mut new_surface: Vec<Vec<Point3H>> = Vec::new();
        let mut a: usize = 0;
        while a < self.surface_points.len()
            invariant
                matrix.wf(),
                *self == *old(self),
                rows_wf(self.surface_points@),
                rows_wf(self.control_points@),
                a <= self.surface_points@.len(),
                new_surface@.len() == a,
                forall|c: int|
                    0 <= c < a ==> row_transformed(
                        matrix.s(),
                        self.surface_points@[c]@,
                        (#[trigger] new_surface@[c])@,
                    ),
            decreases self.surface_points@.len() - a,
        {
            match apply_points(matrix, &self.surface_points[a]) {
                Some(row) => {
                    new_surface.push(row);
                },
                None => {
                    proof {
                        let g = self.surface_points@;
                        let (k, r0) = choose|k: int, r0: int|
                            0 <= k < g[a as int]@.len() && 0 <= r0 < 4 && !fp_wf(
                                app_row(matrix.s(), g[a as int]@[k].x as int,
                                    g[a as int]@[k].y as int, g[a as int]@[k].z as int,
                                    g[a as int]@[k].w as int, r0),
                            );
                        assert(some_image_unstorable(matrix.s(), g)) by {
                            assert(!fp_wf(app_row(matrix.s(), g[a as int]@[k].x as int,
                                g[a as int]@[k].y as int, g[a as int]@[k].z as int,
                                g[a as int]@[k].w as int, r0)));
                        };
                    }
                    return Err(GeomError::RangeExceeded);
                },
            }
            a += 1;
        }
        let mut new_control: Vec<Vec<Point3H>> = Vec::new();
        let mut b: usize = 0;
        while b < self.control_points.len()
            invariant
                matrix.wf(),
                *self == *old(self),
                rows_wf(self.control_points@),
                b <= self.control_points@.len(),
                new_control@.len() == b,
                new_surface@.len() == self.surface_points@.len(),
                forall|c: int|
                    0 <= c < self.surface_points@.len() ==> row_transformed(
                        matrix.s(),
                        self.surface_points@[c]@,
                        (#[trigger] new_surface@[c])@,
                    ),
                forall|c: int|
                    0 <= c < b ==> row_transformed(
                        matrix.s(),
                        self.control_points@[c]@,
                        (#[trigger] new_control@[c])@,
                    ),
            decreases self.control_points@.len() - b,
        {
            match apply_points(matrix, &self.control_points[b]) {
                Some(row) => {
                    new_control.push(row);
                },
                None => {
                    proof {
                        let g = self.control_points@;
                        let (k, r0) = choose|k: int, r0: int|
                            0 <= k < g[b as int]@.len() && 0 <= r0 < 4 && !fp_wf(
                                app_row(matrix.s(), g[b as int]@[k].x as int,
                                    g[b as int]@[k].y as int, g[b as int]@[k].z as int,
                                    g[b as int]@[k].w as int, r0),
                            );
                        assert(some_image_unstorable(matrix.s(), g)) by {
                            assert(!fp_wf(app_row(matrix.s(), g[b as int]@[k].x as int,
                                g[b as int]@[k].y as int, g[b as int]@[k].z as int,
                                g[b as int]@[k].w as int, r0)));
                        };
                    }
                    return Err(GeomError::RangeExceeded);
                },
            }
            b += 1;
        }
        self.surface_points = new_surface;
        self.control_points = new_control;
        Ok(())
    }

    /// Walks the tessellation and the control net into the flat command
    /// list, in paint order: `parts.0 * parts.1` black surface tiles,
    /// then the blue control-net tiles, then one marker per control
    /// point.
    pub fn draw(&self, parts: (usize, usize)) -> (r: Vec<DrawCmd>)
        requires
            1 <= parts.0 <= 30000,
            1 <= parts.1 <= 30000,
            self.surface_points@.len() == parts.0 + 1,
            forall|a: int|
                0 <= a <= parts.0 ==> (#[trigger] self.surface_points@[a])@.len() == parts.1 + 1,
            1 <= self.control_points@.len() <= 16,
            forall|a: int|
                0 <= a < self.control_points@.len()
                    ==> (#[trigger] self.control_points@[a])@.len() == self.control_points@.len(),
        ensures
            ({
                let rows = parts.0 as int;
                let cols = parts.1 as int;
                let m = self.control_points@.len() as int;
                let s1 = rows * cols;
                let s2 = (m - 1) * (m - 1);
                &&& r@.len() == s1 + s2 + m * m
                &&& forall|t: int|
                    0 <= t < s1 ==> is_tile(
                        #[trigger] r@[t], self.surface_points@, t / cols, t % cols, black())
                &&& forall|t: int|
                    0 <= t < s2 ==> is_tile(
                        #[trigger] r@[s1 + t], self.control_points@, t / (m - 1), t % (m - 1),
                        blue())
                &&& forall|t: int|
                    0 <= t < m * m ==> is_marker(
                        #[trigger] r@[s1 + s2 + t], self.control_points@, t / m, t % m)
            }),
    {
        let rows: usize = parts.0;
        let cols: usize = parts.1;
        let m: usize = self.control_points.len();
        proof {
            assert(rows as int * cols as int <= 900000000) by (nonlinear_arith)
                requires
                    1 <= rows as int <= 30000,
                    1 <= cols as int <= 30000,
            ;
            assert(0 <= (m as int - 1) * (m as int - 1) <= 225
                && m as int * m as int <= 256) by (nonlinear_arith)
                requires
                    1 <= m as int <= 16,
            ;
        }
        let s1: usize = rows * cols;
        let s2: usize = (m - 1) * (m - 1);
        let s3: usize = m * m;
        let mut out: Vec<DrawCmd> = Vec::new();
        let mut t: usize = 0;
        while t < s1
            invariant
                1 <= rows <= 30000,
                1 <= cols <= 30000,
                s1 == rows * cols,
                self.surface_points@.len() == rows + 1,
                forall|a: int|
                    0 <= a <= rows ==> (#[trigger] self.surface_points@[a])@.len() == cols + 1,
                t <= s1,
                out@.len() == t,
                forall|tt: int|
                    0 <= tt < t ==> is_tile(
                        #[trigger] out@[tt], self.surface_points@, tt / cols as int,
                        tt % cols as int, black()),
            decreases s1 - t,
        {
            let i: usize = t / cols;
            let j: usize = t % cols;
            proof {
                lemma_div_is_ordered(t as int, s1 as int - 1, cols as int);
                assert(rows * cols - 1 == (rows as int - 1) * (cols as int) + (cols as int - 1))
                    by (nonlinear_arith);
                lemma_fundamental_div_mod_converse(
                    s1 as int - 1, cols as int, rows as int - 1, cols as int - 1);
                assert(i < rows);
            }
            let mut pts: Vec<(i64, i64)> = Vec::new();
            pts.push((self.surface_points[i][j].x, self.surface_points[i][j].y));
            pts.push((self.surface_points[i][j + 1].x, self.surface_points[i][j + 1].y));
            pts.push((self.surface_points[i + 1][j + 1].x, self.surface_points[i + 1][j + 1].y));
            pts.push((self.surface_points[i + 1][j].x, self.surface_points[i + 1][j].y));
            proof {
                assert(pts@ =~= tile_pts(self.surface_points@, i as int, j as int));
            }
            out.push(DrawCmd::Polygon { pts, color: Color { r: 0, g: 0, b: 0 } });
            t += 1;
        }
        let mut t2: usize = 0;
        while t2 < s2
            invariant
                1 <= m <= 16,
                s1 == rows * cols,
                s2 == (m - 1) * (m - 1),
                self.control_points@.len() == m,
                forall|a: int|
                    0 <= a < m ==> (#[trigger] self.control_points@[a])@.len() == m,
                t2 <= s2,
                out@.len() == s1 + t2,
                forall|tt: int|
                    0 <= tt < s1 ==> is_tile(
                        #[trigger] out@[tt], self.surface_points@, tt / cols as int,
                        tt % cols as int, black()),
                forall|tt: int|
                    0 <= tt < t2 ==> is_tile(
                        #[trigger] out@[s1 + tt], self.control_points@, tt / (m as int - 1),
                        tt % (m as int - 1), blue()),
            decreases s2 - t2,
        {
            proof {
                assert(s2 > 0 ==> m as int >= 2) by (nonlinear_arith)
                    requires
                        s2 == (m as int - 1) * (m as int - 1),
                        1 <= m as int,
                ;
            }
            let i: usize = t2 / (m - 1);
            let j: usize = t2 % (m - 1);
            proof {
                lemma_div_is_ordered(t2 as int, s2 as int - 1, m as int - 1);
                assert((m as int - 1) * (m as int - 1) - 1
                    == (m as int - 2) * (m as int - 1) + (m as int - 2)) by (nonlinear_arith);
                lemma_fundamental_div_mod_converse(
                    s2 as int - 1, m as int - 1, m as int - 2, m as int - 2);
                assert(i < m - 1);
            }
            let mut pts: Vec<(i64, i64)> = Vec::new();
            pts.push((self.control_points[i][j].x, self.control_points[i][j].y));
            pts.push((self.control_points[i][j + 1].x, self.control_points[i][j + 1].y));
            pts.push((self.control_points[i + 1][j + 1].x, self.control_points[i + 1][j + 1].y));
            pts.push((self.control_points[i + 1][j].x, self.control_points[i + 1][j].y));
            proof {
                assert(pts@ =~= tile_pts(self.control_points@, i as int, j as int));
            }
            out.push(DrawCmd::Polygon { pts, color: Color { r: 0, g: 0, b: 255 } });
            t2 += 1;
        }
        let mut t3: usize = 0;
        while t3 < s3
            invariant
                1 <= m <= 16,
                s1 == rows * cols,
                s2 == (m - 1) * (m - 1),
                s3 == m * m,
                self.control_points@.len() == m,
                forall|a: int|
                    0 <= a < m ==> (#[trigger] self.control_points@[a])@.len() == m,
                t3 <= s3,
                out@.len() == s1 + s2 + t3,
                forall|tt: int|
                    0 <= tt < s1 ==> is_tile(
                        #[trigger] out@[tt], self.surface_points@, tt / cols as int,
                        tt % cols as int, black()),
                forall|tt: int|
                    0 <= tt < s2 ==> is_tile(
                        #[trigger] out@[s1 + tt], self.control_points@, tt / (m as int - 1),
                        tt % (m as int - 1), blue()),
                forall|tt: int|
                    0 <= tt < t3 ==> is_marker(
                        #[trigger] out@[s1 + s2 + tt], self.control_points@, tt / m as int,
                        tt % m as int),
            decreases s3 - t3,
        {
            let i: usize = t3 / m;
            let j: usize = t3 % m;
            proof {
                lemma_div_is_ordered(t3 as int, s3 as int - 1, m as int);
                assert(m * m - 1 == (m as int - 1) * (m as int) + (m as int - 1))
                    by (nonlinear_arith);
                lemma_fundamental_div_mod_converse(
                    s3 as int - 1, m as int, m as int - 1, m as int - 1);
                assert(i < m);
            }
            out.push(DrawCmd::Circle {
                cx: self.control_points[i][j].x,
                cy: self.control_points[i][j].y,
                radius: MARKER_RADIUS,
                color: Color { r: 0, g: 0, b: 255 },
            });
            t3 += 1;
        }
        out
    }
}

} // verus!
