//! Shared editor state.
//!
//! One state object is owned by the host event loop and passed by
//! exclusive mutable reference into each frame draw and pointer-event
//! handler; no component keeps its own copy.

use vstd::prelude::*;
use crate::fixed::SCALE;
use crate::fixed::FP_BOUND;
use crate::fixed::fp_wf;
use crate::bezier::grid_wf;
use crate::transform::Point3H;
use crate::transform::point_wf;
use crate::transform::TransformMatrix;
use crate::transform::identity;
use crate::transform::ident_spec;

verus! {

/// Side length of the control grid: the surface order.
pub const SURFACE_ORDER: usize = 4;

/// The picking state machine: either no control point is grabbed, or
/// exactly one, held by its grid indices.
#[derive(Clone, Copy, PartialEq, Eq, Structural, Debug)]
pub enum Picked {
    Free,
    Grabbed { i: usize, j: usize },
}

/// Shared state for communication between the host controls and the
/// drawing area.
pub struct State {
    pub control_points: Vec<Vec<Point3H>>,
    pub transformed_control_points: Vec<Vec<Point3H>>,
    pub mouse_x: i64,
    pub mouse_y: i64,
    pub rotate_ox: i64,
    pub rotate_oy: i64,
    pub rotate_oz: i64,
    pub parts_ox: usize,
    pub parts_oy: usize,
    pub zoom: i64,
    pub point_chosen: Picked,
    pub back_transform: TransformMatrix,
}

impl State {
    /// The state invariant: both grids are square of the surface order
    /// with storable points, every scalar is storable, the tessellation
    /// resolution and zoom are positive (the host clamps them before
    /// they reach the library), and a grabbed index is in bounds.
    pub open spec fn wf(&self) -> bool {
        &&& grid_wf(self.control_points@, SURFACE_ORDER as int, SURFACE_ORDER as int)
        &&& grid_wf(
            self.transformed_control_points@, SURFACE_ORDER as int, SURFACE_ORDER as int)
        &&& fp_wf(self.mouse_x as int)
        &&& fp_wf(self.mouse_y as int)
        &&& fp_wf(self.rotate_ox as int)
        &&& fp_wf(self.rotate_oy as int)
        &&& fp_wf(self.rotate_oz as int)
        &&& 1 <= self.parts_ox <= 30000
        &&& 1 <= self.parts_oy <= 30000
        &&& 1 <= self.zoom && fp_wf(self.zoom as int)
        &&& match self.point_chosen {
            Picked::Free => true,
            Picked::Grabbed { i, j } => i < SURFACE_ORDER && j < SURFACE_ORDER,
        }
        &&& self.back_transform.wf()
    }
}

/// The default generator value of a control point: x and y step through
/// quarters of the unit square and z scrambles the indices into
/// `[0, 1.25)`.
pub open spec fn default_point(i: int, j: int) -> Point3H {
    Point3H {
        x: (((i + 1) * SCALE as int) / 4) as i64,
        y: (((j + 1) * SCALE as int) / 4) as i64,
        z: (((((i + 123) * (j + 321)) % 500) * SCALE as int) / 400) as i64,
        w: SCALE,
    }
}

/// Builds the default control grid: a square grid of the surface order
/// filled with the default generator values.
pub fn make_default_surface() -> (g: Vec<Vec<Point3H>>)
    ensures
        grid_wf(g@, SURFACE_ORDER as int, SURFACE_ORDER as int),
        forall|i: int, j: int|
            0 <= i < SURFACE_ORDER && 0 <= j < SURFACE_ORDER
                ==> #[trigger] g@[i]@[j] == default_point(i, j),
{
    let mut g: Vec<Vec<Point3H>> = Vec::new();
    let mut i: usize = 0;
    while i < SURFACE_ORDER
        invariant
            i <= SURFACE_ORDER,
            g@.len() == i,
            forall|a: int| 0 <= a < i ==> (#[trigger] g@[a])@.len() == SURFACE_ORDER,
            forall|a: int, b: int|
                0 <= a < i && 0 <= b < SURFACE_ORDER
                    ==> #[trigger] g@[a]@[b] == default_point(a, b) && point_wf(g@[a]@[b]),
        decreases SURFACE_ORDER - i,
    {
        let mut row: Vec<Point3H> = Vec::new();
        let mut j: usize = 0;
        while j < SURFACE_ORDER
            invariant
                i < SURFACE_ORDER,
                j <= SURFACE_ORDER,
                row@.len() == j,
                forall|b: int|
                    0 <= b < j ==> #[trigger] row@[b] == default_point(i as int, b)
                        && point_wf(row@[b]),
        decreases SURFACE_ORDER - j,
        {
            let xv: usize = (i + 1) * 65536 / 4;
            let yv: usize = (j + 1) * 65536 / 4;
            proof {
                assert((i as int + 123) * (j as int + 321) <= 40824) by (nonlinear_arith)
                    requires
                        i as int <= 3,
                        j as int <= 3,
                ;
            }
            let zv: usize = ((i + 123) * (j + 321)) % 500 * 65536 / 400;
            proof {
                vstd::arithmetic::div_mod::lemma_div_is_ordered(
                    (i + 1) as int * 65536, 4int * 65536, 4);
                vstd::arithmetic::div_mod::lemma_div_is_ordered(
                    (j + 1) as int * 65536, 4int * 65536, 4);
                vstd::arithmetic::div_mod::lemma_div_is_ordered(
                    ((i + 123) as int * ((j + 321) as int) % 500) * 65536, 500int * 65536, 400);
                vstd::arithmetic::div_mod::lemma_div_pos_is_pos(
                    (i + 1) as int * 65536, 4);
                vstd::arithmetic::div_mod::lemma_div_pos_is_pos(
                    (j + 1) as int * 65536, 4);
                vstd::arithmetic::div_mod::lemma_div_pos_is_pos(
                    ((i + 123) as int * ((j + 321) as int) % 500) * 65536, 400);
            }
            let p = Point3H { x: xv as i64, y: yv as i64, z: zv as i64, w: SCALE };
            row.push(p);
            j += 1;
        }
        g.push(row);
        i += 1;
    }
    g
}

impl State {
    /// A fresh state around the host-supplied configuration: default
    /// control grid (the transformed copy starts equal to it), pointer
    /// at the origin, no rotation, nothing grabbed, and an identity
    /// back-transform until the first frame derives a real one.
    pub fn new(parts_ox: usize, parts_oy: usize, zoom: i64) -> (s: State)
        requires
            1 <= parts_ox <= 30000,
            1 <= parts_oy <= 30000,
            1 <= zoom <= FP_BOUND,
        ensures
            s.wf(),
            forall|i: int, j: int|
                0 <= i < SURFACE_ORDER && 0 <= j < SURFACE_ORDER
                    ==> #[trigger] s.control_points@[i]@[j] == default_point(i, j),
            forall|i: int, j: int|
                0 <= i < SURFACE_ORDER && 0 <= j < SURFACE_ORDER
                    ==> #[trigger] s.transformed_control_points@[i]@[j] == default_point(i, j),
            s.mouse_x == 0 && s.mouse_y == 0,
            s.rotate_ox == 0 && s.rotate_oy == 0 && s.rotate_oz == 0,
            s.parts_ox == parts_ox && s.parts_oy == parts_oy && s.zoom == zoom,
            s.point_chosen == Picked::Free,
            s.back_transform.s() == ident_spec(),
    {
        State {
            control_points: make_default_surface(),
            transformed_control_points: make_default_surface(),
            mouse_x: 0,
            mouse_y: 0,
            rotate_ox: 0,
            rotate_oy: 0,
            rotate_oz: 0,
            parts_ox,
            parts_oy,
            zoom,
            point_chosen: Picked::Free,
            back_transform: identity(),
        }
    }
}

} // verus!
