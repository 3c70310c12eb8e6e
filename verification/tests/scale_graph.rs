use shot_profile::graph::{Axis, Direction, Graph};
use shot_profile::num::Num;
use shot_profile::parser::steps;
use shot_profile::profile::analyze;
use shot_profile::scale::{scale, Dec, Rat};

fn d(mantissa: i64) -> Dec {
    Dec { mantissa, scale: 0 }
}

fn d1(mantissa: i64) -> Dec {
    Dec { mantissa, scale: 1 }
}

fn rat_f64(r: Rat) -> f64 {
    r.num as f64 / r.den as f64
}

fn rat_is(r: Rat, num: i128, den: i128) -> bool {
    r.num * den == num * r.den
}

#[test]
fn test_scale() {
    let x = |input: Dec| scale((d(0), d(100)), (d(100), d(400)), input);
    assert_eq!(rat_f64(x(d(0))), 100.);
    assert_eq!(rat_f64(x(d(100))), 400.);

    assert!(rat_is(x(d(25)), 175, 1));
    assert!(rat_is(x(d(50)), 250, 1));
    assert!(rat_is(x(d(75)), 325, 1));

    assert_eq!(rat_f64(x(d1(-12))), 100.);
    assert_eq!(rat_f64(x(d(101))), 400.);
}

#[test]
fn test_scale_inverted() {
    let y = |input: Dec| scale((d(0), d(100)), (d(370), d(20)), input);
    assert_eq!(rat_f64(y(d(0))), 370.);
    assert_eq!(rat_f64(y(d(100))), 20.);

    assert!(rat_is(y(d(25)), 565, 2));
    assert!(rat_is(y(d(50)), 195, 1));
    assert!(rat_is(y(d(75)), 215, 2));

    assert_eq!(rat_f64(y(d(-10))), 370.);
    assert_eq!(rat_f64(y(d1(1005))), 20.);
}

#[test]
fn test_scale_exact_fraction() {
    // 30 + 974 * 10 / 100 = 127.4 exactly.
    let r = scale((d(0), d(100)), (d(30), d(1004)), d(10));
    assert!(rat_is(r, 1274, 10));
}

fn graph_fixture() -> Graph {
    let (_, sts) = steps(
        "{pump flow transition fast seconds 10 flow 5 temperature 94.0}",
        0,
    );
    Graph { data: analyze(sts.as_slice()).unwrap() }
}

#[test]
fn test_graph_view_axis() {
    let g = graph_fixture();
    let (h, v) = g.view_axis().unwrap();
    assert_eq!(h.domain, (d(0), d(10)));
    assert_eq!(h.range, (d(0), d(974)));
    assert_eq!(h.dir, Direction::Horizontal);
    assert_eq!(h.min_unit, d(10));
    assert_eq!(v.domain, (d(0), d(12)));
    assert_eq!(v.range, (d(0), d(-430)));
    assert_eq!(v.dir, Direction::Vertical);
    assert_eq!(v.min_unit, d(1));
}

#[test]
fn test_graph_view_temperature() {
    let g = graph_fixture();
    let segs = g.view_graph_temperature().unwrap();
    // One horizontal run at 94 degrees across the whole time span.
    assert_eq!(segs.len(), 1);
    assert!(rat_is(segs[0].x1, 30, 1));
    assert!(rat_is(segs[0].x2, 1004, 1));
    // y(94) over domain 20..100 onto 450..20: 450 - 430 * 74 / 80 = 52.25.
    assert!(rat_is(segs[0].y1, 209, 4));
    assert!(rat_is(segs[0].y2, 209, 4));
}

#[test]
fn test_graph_view_flow() {
    let g = graph_fixture();
    let segs = g.view_graph_flow().unwrap();
    assert_eq!(segs.len(), 2);
    // The ramp from zero: y(0) = 450, y(5) over 0..12 onto 450..20:
    // 450 - 430 * 5 / 12.
    assert!(rat_is(segs[0].y1, 450, 1));
    assert!(rat_is(segs[0].y2, 450 * 12 - 430 * 5, 12));
    assert!(rat_is(segs[1].x2, 1004, 1));
}

#[test]
fn test_graph_view_pressure_empty() {
    let g = graph_fixture();
    let segs = g.view_graph_pressure().unwrap();
    assert_eq!(segs.len(), 0);
}

#[test]
fn test_axis_view_scale_ticks() {
    let axis = Axis {
        domain: (d(0), d(100)),
        range: (d(0), d(400)),
        dir: Direction::Horizontal,
        min_unit: d(25),
    };
    let ticks = axis.view_scale();
    assert_eq!(ticks.len(), 4);
    assert!(rat_is(ticks[0], 100, 1));
    assert!(rat_is(ticks[1], 200, 1));
    assert!(rat_is(ticks[2], 300, 1));
    assert!(rat_is(ticks[3], 400, 1));
}

#[test]
fn test_axis_view_scale_first_tick_always_drawn() {
    let axis = Axis {
        domain: (d(0), d(4)),
        range: (d(0), d(400)),
        dir: Direction::Horizontal,
        min_unit: d(10),
    };
    let ticks = axis.view_scale();
    // The tick spacing exceeds the domain: one clamped tick is still drawn.
    assert_eq!(ticks.len(), 1);
    assert!(rat_is(ticks[0], 400, 1));
}

#[test]
fn test_axis_view_scale_vertical_empty() {
    let axis = Axis {
        domain: (d(0), d(12)),
        range: (d(0), d(-430)),
        dir: Direction::Vertical,
        min_unit: d(1),
    };
    assert_eq!(axis.view_scale().len(), 0);
}

#[test]
fn test_elapsed_time_value() {
    let g = graph_fixture();
    assert_eq!(g.data.elapsed_time, Num { mantissa: 10, scale: 0 });
}
