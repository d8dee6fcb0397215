use bezier_surface::bezier::evaluate;
use bezier_surface::bezier::GeomError;
use bezier_surface::combo::combination_precomputation;
use bezier_surface::figure::Figure;
use bezier_surface::figure::DrawCmd;
use bezier_surface::fixed::SCALE;
use bezier_surface::frame::handle_draw;
use bezier_surface::frame::TrigTable;
use bezier_surface::interact::on_motion;
use bezier_surface::interact::on_press;
use bezier_surface::interact::on_release;
use bezier_surface::state::Picked;
use bezier_surface::state::State;
use bezier_surface::state::SURFACE_ORDER;
use bezier_surface::transform::apply_points;
use bezier_surface::transform::compose;
use bezier_surface::transform::Op;
use bezier_surface::transform::Point3H;

fn fp(v: f64) -> i64 {
    (v * SCALE as f64).round() as i64
}

fn trig_of(deg_x: f64, deg_y: f64, deg_z: f64) -> TrigTable {
    TrigTable {
        sin_x: fp(deg_x.to_radians().sin()),
        cos_x: fp(deg_x.to_radians().cos()),
        sin_y: fp(deg_y.to_radians().sin()),
        cos_y: fp(deg_y.to_radians().cos()),
        sin_z: fp(deg_z.to_radians().sin()),
        cos_z: fp(deg_z.to_radians().cos()),
    }
}

fn no_rotation() -> TrigTable {
    trig_of(0.0, 0.0, 0.0)
}

#[test]
fn binomial_table_borders_and_recurrence() {
    let t = combination_precomputation(30);
    assert_eq!(t.len(), 30);
    for i in 0..30 {
        assert_eq!(t[i].len(), 30);
        assert_eq!(t[i][0], 1);
        assert_eq!(t[i][i], 1);
        for j in 1..i {
            assert_eq!(t[i][j], t[i - 1][j - 1] + t[i - 1][j]);
        }
    }
    assert_eq!(t[5][2], 10);
    assert_eq!(t[10][5], 252);
    assert_eq!(t[29][14], 77558760);
}

#[test]
fn binomial_entries_above_diagonal_are_one() {
    let t = combination_precomputation(8);
    for i in 0..8 {
        for j in (i + 1)..8 {
            assert_eq!(t[i][j], 1);
        }
    }
}

fn default_state(zoom_units: f64) -> State {
    State::new(4, 4, fp(zoom_units))
}

#[test]
fn default_surface_generator_values() {
    let s = default_state(1.0);
    let p = &s.control_points[0][0];
    assert_eq!(p.x, 16384);
    assert_eq!(p.y, 16384);
    assert_eq!(p.z, 123 * 321 % 500 * 65536 / 400);
    assert_eq!(p.w, SCALE);
    let q = &s.control_points[2][3];
    assert_eq!(q.x, 3 * 16384);
    assert_eq!(q.y, 4 * 16384);
    assert_eq!(q.z, 125 * 324 % 500 * 65536 / 400);
}

#[test]
fn tessellation_shape_matches_resolution() {
    let s = default_state(1.0);
    for (rows, cols) in [(1usize, 1usize), (4, 4), (5, 7), (13, 2)] {
        let surf = evaluate(&s.control_points, (rows, cols)).unwrap();
        assert_eq!(surf.len(), rows + 1);
        for row in &surf {
            assert_eq!(row.len(), cols + 1);
        }
    }
}

#[test]
fn bezier_endpoint_interpolation_is_exact() {
    let s = default_state(1.0);
    let c = &s.control_points;
    for (rows, cols) in [(1usize, 1usize), (4, 4), (3, 5)] {
        let surf = evaluate(c, (rows, cols)).unwrap();
        // The v parameter selects the control row, the u parameter the
        // control column; n = 3 for the default order-4 grid.
        let corners = [
            ((0usize, 0usize), (0usize, 0usize)),
            ((0, cols), (3, 0)),
            ((rows, 0), (0, 3)),
            ((rows, cols), (3, 3)),
        ];
        for ((ui, vj), (ci, cj)) in corners {
            assert_eq!(surf[ui][vj].x, c[ci][cj].x);
            assert_eq!(surf[ui][vj].y, c[ci][cj].y);
            assert_eq!(surf[ui][vj].z, c[ci][cj].z);
            assert_eq!(surf[ui][vj].w, SCALE);
        }
    }
}

#[test]
fn bezier_midpoint_of_bilinear_patch() {
    // An order-2 grid spans a bilinear patch: the sample at the middle
    // parameter pair is the exact average of the four corners when the
    // coordinates divide evenly.
    let c = vec![
        vec![Point3H::new(0, 0, 0), Point3H::new(0, 4 * SCALE, 8 * SCALE)],
        vec![Point3H::new(4 * SCALE, 0, 0), Point3H::new(4 * SCALE, 4 * SCALE, 0)],
    ];
    let surf = evaluate(&c, (2, 2)).unwrap();
    let mid = &surf[1][1];
    assert_eq!(mid.x, 2 * SCALE);
    assert_eq!(mid.y, 2 * SCALE);
    assert_eq!(mid.z, 2 * SCALE);
}

#[test]
fn translation_round_trip_is_exact() {
    let ops_fwd = vec![Op::Translate { x: fp(12.25), y: fp(-3.5), z: fp(700.0) }];
    let ops_back = vec![Op::Translate { x: fp(-12.25), y: fp(3.5), z: fp(-700.0) }];
    let fwd = compose(&ops_fwd).unwrap();
    let back = compose(&ops_back).unwrap();
    let pts = vec![
        Point3H::new(0, 0, 0),
        Point3H::new(fp(1.5), fp(-2.25), fp(1000.0)),
        Point3H::new(fp(-0.0625), fp(0.003), fp(-41.0)),
    ];
    let there = apply_points(&fwd, &pts).unwrap();
    let and_back = apply_points(&back, &there).unwrap();
    for (p, q) in pts.iter().zip(and_back.iter()) {
        assert_eq!(p.x, q.x);
        assert_eq!(p.y, q.y);
        assert_eq!(p.z, q.z);
        assert_eq!(p.w, q.w);
    }
}

#[test]
fn frame_transform_round_trip_within_tolerance() {
    // Full pipeline round trip: after a frame, applying the stored
    // back-transform to the transformed grid must recover the control
    // grid to fixed-point precision.
    let mut s = default_state(10.0);
    let trig = trig_of(30.0, 40.0, 50.0);
    handle_draw(600, 600, &trig, &mut s).unwrap();
    for i in 0..SURFACE_ORDER {
        let back_row = apply_points(&s.back_transform, &s.transformed_control_points[i]).unwrap();
        for j in 0..SURFACE_ORDER {
            let orig = &s.control_points[i][j];
            let got = &back_row[j];
            // 2000 fixed-point units is about 0.03 model units: the
            // scale stage's reciprocal rounds to fixed-point precision.
            assert!((orig.x - got.x).abs() <= 2000, "x off by {}", orig.x - got.x);
            assert!((orig.y - got.y).abs() <= 2000, "y off by {}", orig.y - got.y);
            assert!((orig.z - got.z).abs() <= 2000, "z off by {}", orig.z - got.z);
        }
    }
}

fn spread_state() -> State {
    // A state whose transformed grid spaces the points 100 screen units
    // apart, so each is alone within the pick radius.
    let mut s = default_state(1.0);
    for i in 0..SURFACE_ORDER {
        for j in 0..SURFACE_ORDER {
            s.transformed_control_points[i][j] =
                Point3H::new(i as i64 * 100 * SCALE, j as i64 * 100 * SCALE, 0);
        }
    }
    s
}

#[test]
fn press_exactly_on_a_point_grabs_it() {
    let mut s = spread_state();
    on_press(&mut s, 100 * SCALE, 200 * SCALE);
    assert_eq!(s.point_chosen, Picked::Grabbed { i: 1, j: 2 });
    assert_eq!(s.mouse_x, 100 * SCALE);
    assert_eq!(s.mouse_y, 200 * SCALE);
}

#[test]
fn press_within_radius_grabs_press_far_away_does_not() {
    let mut s = spread_state();
    // Nine units away: still within the ten-unit radius.
    on_press(&mut s, 9 * SCALE, 0);
    assert_eq!(s.point_chosen, Picked::Grabbed { i: 0, j: 0 });
    // Far from every point: the choice stays what it was.
    let mut s2 = spread_state();
    on_press(&mut s2, 50 * SCALE, 50 * SCALE);
    assert_eq!(s2.point_chosen, Picked::Free);
}

#[test]
fn tied_points_resolve_to_last_in_scan_order() {
    // Two coincident points: the scan keeps overwriting its choice, so
    // the later cell in row-major order wins.
    let mut s = spread_state();
    let p = Point3H::new(350 * SCALE, 350 * SCALE, 0);
    s.transformed_control_points[1][1] = p;
    s.transformed_control_points[2][2] = p;
    on_press(&mut s, 350 * SCALE, 350 * SCALE);
    assert_eq!(s.point_chosen, Picked::Grabbed { i: 2, j: 2 });
}

#[test]
fn release_always_returns_to_free() {
    let mut s = spread_state();
    on_press(&mut s, 0, 0);
    assert_eq!(s.point_chosen, Picked::Grabbed { i: 0, j: 0 });
    on_motion(&mut s, 5 * SCALE, 5 * SCALE).unwrap();
    assert_eq!(s.point_chosen, Picked::Grabbed { i: 0, j: 0 });
    on_release(&mut s);
    assert_eq!(s.point_chosen, Picked::Free);
    on_release(&mut s);
    assert_eq!(s.point_chosen, Picked::Free);
}

#[test]
fn free_motion_orbits_the_scene() {
    let mut s = default_state(1.0);
    assert_eq!(s.point_chosen, Picked::Free);
    on_motion(&mut s, 1000, -2000).unwrap();
    assert_eq!(s.rotate_oz, 100);
    assert_eq!(s.rotate_ox, 200);
    assert_eq!(s.rotate_oy, 0);
    assert_eq!(s.mouse_x, 1000);
    assert_eq!(s.mouse_y, -2000);
    // The deltas accumulate from the last recorded position.
    on_motion(&mut s, 1000 + 50, -2000 + 70).unwrap();
    assert_eq!(s.rotate_oz, 105);
    assert_eq!(s.rotate_ox, 193);
}

#[test]
fn motion_out_of_range_is_rejected_and_changes_nothing() {
    let mut s = default_state(1.0);
    s.rotate_oz = 274877906944;
    let r = on_motion(&mut s, 274877906944, 0);
    assert_eq!(r, Err(GeomError::RangeExceeded));
    assert_eq!(s.rotate_oz, 274877906944);
    assert_eq!(s.mouse_x, 0);
    assert_eq!(s.mouse_y, 0);
}

#[test]
fn degenerate_zoom_is_rejected() {
    // The smallest representable zoom on a one-pixel canvas scales to
    // zero, which has no reciprocal.
    let mut s = State::new(4, 4, 1);
    let r = handle_draw(1, 1, &no_rotation(), &mut s);
    assert_eq!(r, Err(GeomError::DegenerateTransform));
    assert_eq!(s.rotate_ox, 0);
}

#[test]
fn draw_emits_tiles_then_net_then_markers() {
    let s = default_state(100.0);
    let fig = Figure::new_bezier_surface(s.control_points.clone(), (4, 4)).unwrap();
    let cmds = fig.draw((4, 4));
    assert_eq!(cmds.len(), 16 + 9 + 16);
    match &cmds[0] {
        DrawCmd::Polygon { pts, color } => {
            assert_eq!(pts.len(), 4);
            assert_eq!((color.r, color.g, color.b), (0, 0, 0));
            assert_eq!(pts[0], (fig.surface_points[0][0].x, fig.surface_points[0][0].y));
            assert_eq!(pts[1], (fig.surface_points[0][1].x, fig.surface_points[0][1].y));
            assert_eq!(pts[2], (fig.surface_points[1][1].x, fig.surface_points[1][1].y));
            assert_eq!(pts[3], (fig.surface_points[1][0].x, fig.surface_points[1][0].y));
        },
        _ => panic!("first command should be a surface tile"),
    }
    match &cmds[16] {
        DrawCmd::Polygon { color, .. } => {
            assert_eq!((color.r, color.g, color.b), (0, 0, 255));
        },
        _ => panic!("command 16 should be a control-net tile"),
    }
    match &cmds[25] {
        DrawCmd::Circle { cx, cy, radius, .. } => {
            assert_eq!(*cx, fig.control_points[0][0].x);
            assert_eq!(*cy, fig.control_points[0][0].y);
            assert_eq!(*radius, 5 * SCALE);
        },
        _ => panic!("command 25 should be the first marker"),
    }
}

#[test]
fn single_point_figure_draws_one_tile_and_one_marker() {
    let fig = Figure {
        surface_points: vec![
            vec![Point3H::new(0, 0, 0), Point3H::new(SCALE, 0, 0)],
            vec![Point3H::new(0, SCALE, 0), Point3H::new(SCALE, SCALE, 0)],
        ],
        control_points: vec![vec![Point3H::new(7, 9, 0)]],
    };
    let cmds = fig.draw((1, 1));
    assert_eq!(cmds.len(), 2);
    assert!(matches!(cmds[0], DrawCmd::Polygon { .. }));
    match &cmds[1] {
        DrawCmd::Circle { cx, cy, .. } => {
            assert_eq!((*cx, *cy), (7, 9));
        },
        _ => panic!("second command should be the marker"),
    }
}

#[test]
fn drag_scenario_moves_only_the_grabbed_point() {
    // Order-4 grid with the default generator values, no rotation,
    // zoom 100 on a 600x600 canvas: press exactly at the projection of
    // control[0][0], drag by (+10, +5) screen units, release.
    let mut s = default_state(100.0);
    let before = s.control_points.clone();
    let trig = no_rotation();
    handle_draw(600, 600, &trig, &mut s).unwrap();
    let px = s.transformed_control_points[0][0].x;
    let py = s.transformed_control_points[0][0].y;
    on_press(&mut s, px, py);
    assert_eq!(s.point_chosen, Picked::Grabbed { i: 0, j: 0 });
    on_motion(&mut s, px + 10 * SCALE, py + 5 * SCALE).unwrap();
    on_release(&mut s);
    assert_eq!(s.point_chosen, Picked::Free);
    // The grabbed point moved by +10/+5 screen units, which is
    // +0.04/+0.02 in model units at this zoom; z only re-rounds.
    let moved = &s.control_points[0][0];
    let dx = moved.x - before[0][0].x;
    let dy = moved.y - before[0][0].y;
    let dz = (moved.z - before[0][0].z).abs();
    assert!((2500..=2750).contains(&dx), "dx = {}", dx);
    assert!((1200..=1400).contains(&dy), "dy = {}", dy);
    assert!(dz <= 100, "dz = {}", dz);
    // The rest of the dragged row only went through the back-transform
    // round trip: unchanged to fixed-point precision.
    for j in 1..SURFACE_ORDER {
        let p = &s.control_points[0][j];
        let q = &before[0][j];
        assert!((p.x - q.x).abs() <= 100);
        assert!((p.y - q.y).abs() <= 100);
        assert!((p.z - q.z).abs() <= 100);
    }
    // All other rows were not touched at all.
    for i in 1..SURFACE_ORDER {
        for j in 0..SURFACE_ORDER {
            let p = &s.control_points[i][j];
            let q = &before[i][j];
            assert_eq!((p.x, p.y, p.z, p.w), (q.x, q.y, q.z, q.w));
        }
    }
}

#[test]
fn frame_command_count_matches_resolution() {
    let mut s = State::new(6, 3, fp(100.0));
    let cmds = handle_draw(800, 600, &no_rotation(), &mut s).unwrap();
    assert_eq!(cmds.len(), 6 * 3 + 9 + 16);
}

#[test]
fn figure_transform_translates_both_grids() {
    let mut fig = Figure {
        surface_points: vec![vec![Point3H::new(SCALE, 2 * SCALE, 3 * SCALE)]],
        control_points: vec![vec![Point3H::new(-SCALE, 0, 5)]],
    };
    let m = compose(&vec![Op::Translate { x: 10 * SCALE, y: -SCALE, z: 0 }]).unwrap();
    fig.transform(&m).unwrap();
    let s = &fig.surface_points[0][0];
    assert_eq!((s.x, s.y, s.z), (11 * SCALE, SCALE, 3 * SCALE));
    let c = &fig.control_points[0][0];
    assert_eq!((c.x, c.y, c.z), (9 * SCALE, -SCALE, 5));
}

#[test]
fn oversized_zoom_is_rejected_and_changes_nothing() {
    // The largest storable zoom overflows when scaled by 2.5, so the
    // frame must fail before touching any state.
    let mut s = State::new(4, 4, 274877906944);
    let before = s.control_points.clone();
    let r = handle_draw(600, 600, &no_rotation(), &mut s);
    assert_eq!(r, Err(GeomError::RangeExceeded));
    for i in 0..SURFACE_ORDER {
        for j in 0..SURFACE_ORDER {
            assert_eq!(s.control_points[i][j], before[i][j]);
            assert_eq!(s.transformed_control_points[i][j], before[i][j]);
        }
    }
}

#[test]
fn figure_transform_overflow_is_rejected_and_changes_nothing() {
    // Translating a point at the storable bound by the bound again
    // leaves the range, so the figure must stay untouched.
    let p = Point3H::new(274877906944, 0, 0);
    let mut fig = Figure {
        surface_points: vec![vec![p]],
        control_points: vec![vec![p]],
    };
    let m = compose(&vec![Op::Translate { x: 274877906944, y: 0, z: 0 }]).unwrap();
    let r = fig.transform(&m);
    assert_eq!(r, Err(GeomError::RangeExceeded));
    assert_eq!(fig.surface_points[0][0], p);
    assert_eq!(fig.control_points[0][0], p);
}
