use egui_rasterizer::geometry::{
    circle_path, line_path, polyline_path, rect_path, triangle_path, PathPoint, Point, Rect,
    Rounding, Segment,
};

fn pt(x: i32, y: i32) -> Point {
    Point { x, y }
}

fn pp(x: i64, y: i64) -> PathPoint {
    PathPoint { x, y }
}

fn rect(left: i32, top: i32, right: i32, bottom: i32) -> Rect {
    Rect { min: pt(left, top), max: pt(right, bottom) }
}

fn square_corners() -> Rounding {
    Rounding { nw: 0, ne: 0, sw: 0, se: 0 }
}

fn edges(segments: &[Segment]) -> usize {
    segments
        .iter()
        .filter(|s| matches!(s, Segment::LineTo(_) | Segment::QuadTo(_, _) | Segment::Close))
        .count()
}

fn points(segments: &[Segment]) -> Vec<PathPoint> {
    let mut out = Vec::new();
    for s in segments {
        match *s {
            Segment::MoveTo(p) | Segment::LineTo(p) => out.push(p),
            Segment::QuadTo(c, p) => {
                out.push(c);
                out.push(p);
            }
            Segment::Oval { left, top, right, bottom } => {
                out.push(pp(left, top));
                out.push(pp(right, bottom));
            }
            Segment::Close => {}
        }
    }
    out
}

#[test]
fn plain_rect_has_four_straight_edges() {
    let path = rect_path(rect(0, 0, 100, 50), square_corners()).unwrap();
    assert_eq!(
        path.segments,
        vec![
            Segment::MoveTo(pp(0, 0)),
            Segment::LineTo(pp(100, 0)),
            Segment::LineTo(pp(100, 50)),
            Segment::LineTo(pp(0, 50)),
            Segment::Close,
        ]
    );
    assert_eq!(edges(&path.segments), 4);
}

#[test]
fn plain_rect_at_negative_coordinates() {
    let path = rect_path(rect(-300, -200, -100, 700), square_corners()).unwrap();
    assert_eq!(edges(&path.segments), 4);
    assert_eq!(path.segments[0], Segment::MoveTo(pp(-300, -200)));
    assert_eq!(path.segments[2], Segment::LineTo(pp(-100, 700)));
}

#[test]
fn rounded_rect_has_eight_edges_and_its_own_radii() {
    let rounding = Rounding { nw: 100, ne: 200, sw: 300, se: 50 };
    let path = rect_path(rect(0, 0, 1000, 600), rounding).unwrap();
    assert_eq!(
        path.segments,
        vec![
            Segment::MoveTo(pp(0, 100)),
            Segment::QuadTo(pp(0, 0), pp(100, 0)),
            Segment::LineTo(pp(800, 0)),
            Segment::QuadTo(pp(1000, 0), pp(1000, 200)),
            Segment::LineTo(pp(1000, 550)),
            Segment::QuadTo(pp(1000, 600), pp(950, 600)),
            Segment::LineTo(pp(300, 600)),
            Segment::QuadTo(pp(0, 600), pp(0, 300)),
            Segment::Close,
        ]
    );
    assert_eq!(edges(&path.segments), 8);
}

#[test]
fn rounded_rect_is_closed_and_bounded_by_the_rect() {
    let rounding = Rounding { nw: 300, ne: 300, sw: 300, se: 300 };
    let path = rect_path(rect(-500, 200, 1500, 800), rounding).unwrap();
    assert_eq!(path.segments.last(), Some(&Segment::Close));
    let all = points(&path.segments);
    assert_eq!(all.iter().map(|p| p.x).min(), Some(-500));
    assert_eq!(all.iter().map(|p| p.x).max(), Some(1500));
    assert_eq!(all.iter().map(|p| p.y).min(), Some(200));
    assert_eq!(all.iter().map(|p| p.y).max(), Some(800));
}

#[test]
fn one_rounded_corner_is_enough_for_the_rounded_outline() {
    let rounding = Rounding { nw: 0, ne: 0, sw: 0, se: 10 };
    let path = rect_path(rect(0, 0, 100, 100), rounding).unwrap();
    assert_eq!(path.segments.len(), 9);
    assert_eq!(path.segments[5], Segment::QuadTo(pp(100, 100), pp(90, 100)));
}

#[test]
fn rect_with_a_negative_side_has_no_path() {
    assert_eq!(rect_path(rect(10, 0, 9, 50), square_corners()), None);
    assert_eq!(rect_path(rect(0, 10, 50, 9), square_corners()), None);
    assert_eq!(rect_path(rect(10, 0, 9, 50), Rounding { nw: 1, ne: 1, sw: 1, se: 1 }), None);
}

#[test]
fn rect_without_area_still_has_a_path() {
    let path = rect_path(rect(7, 7, 7, 7), square_corners()).unwrap();
    assert_eq!(path.segments.len(), 5);
}

#[test]
fn rect_at_the_ends_of_the_range_does_not_overflow() {
    let rounding = Rounding { nw: i32::MAX, ne: i32::MAX, sw: i32::MIN, se: i32::MIN };
    let path = rect_path(rect(i32::MIN, i32::MIN, i32::MAX, i32::MAX), rounding).unwrap();
    assert_eq!(
        path.segments[0],
        Segment::MoveTo(pp(i32::MIN as i64, i32::MIN as i64 + i32::MAX as i64))
    );
    assert_eq!(
        path.segments[4],
        Segment::LineTo(pp(i32::MAX as i64, i32::MAX as i64 - i32::MIN as i64))
    );
}

#[test]
fn circle_is_the_oval_in_its_bounding_square() {
    let path = circle_path(pt(100, 200), 50).unwrap();
    assert_eq!(path.segments, vec![Segment::Oval { left: 50, top: 150, right: 150, bottom: 250 }]);
}

#[test]
fn circle_of_radius_zero_has_a_path_and_negative_radius_has_none() {
    assert_eq!(
        circle_path(pt(3, 4), 0).unwrap().segments,
        vec![Segment::Oval { left: 3, top: 4, right: 3, bottom: 4 }]
    );
    assert_eq!(circle_path(pt(3, 4), -1), None);
}

#[test]
fn line_is_open() {
    let path = line_path(pt(1, 2), pt(3, 4));
    assert_eq!(path.segments, vec![Segment::MoveTo(pp(1, 2)), Segment::LineTo(pp(3, 4))]);
}

#[test]
fn polyline_goes_through_its_points_in_order() {
    let path = polyline_path(&vec![pt(0, 0), pt(10, 0), pt(10, 10)], false).unwrap();
    assert_eq!(
        path.segments,
        vec![Segment::MoveTo(pp(0, 0)), Segment::LineTo(pp(10, 0)), Segment::LineTo(pp(10, 10))]
    );
}

#[test]
fn polyline_is_closed_only_on_request() {
    let open = polyline_path(&vec![pt(0, 0), pt(10, 0), pt(10, 10)], false).unwrap();
    let closed = polyline_path(&vec![pt(0, 0), pt(10, 0), pt(10, 10)], true).unwrap();
    assert_ne!(open.segments.last(), Some(&Segment::Close));
    assert_eq!(closed.segments.last(), Some(&Segment::Close));
    assert_eq!(closed.segments.len(), open.segments.len() + 1);
}

#[test]
fn polyline_without_points_has_no_path() {
    assert_eq!(polyline_path(&vec![], false), None);
    assert_eq!(polyline_path(&vec![], true), None);
}

#[test]
fn polyline_of_one_point_needs_to_be_closed() {
    assert_eq!(polyline_path(&vec![pt(5, 5)], false), None);
    assert_eq!(
        polyline_path(&vec![pt(5, 5)], true).unwrap().segments,
        vec![Segment::MoveTo(pp(5, 5)), Segment::Close]
    );
}

#[test]
fn triangle_is_closed() {
    let path = triangle_path(pt(0, 0), pt(10, 0), pt(0, 10));
    assert_eq!(
        path.segments,
        vec![
            Segment::MoveTo(pp(0, 0)),
            Segment::LineTo(pp(10, 0)),
            Segment::LineTo(pp(0, 10)),
            Segment::Close,
        ]
    );
}
