//! Shapes to outlines: each logical shape becomes a sequence of path segments
//! in destination coordinates.

use vstd::prelude::*;

verus! {

/// Fixed-point units in one destination pixel.
pub const UNITS_PER_PIXEL: i32 = 10_000;

/// A position as a draw command carries it, in fixed-point units.
#[derive(Clone, Copy, Debug, PartialEq, Eq, Structural)]
pub struct Point {
    pub x: i32,
    pub y: i32,
}

/// An axis-aligned rectangle given by its top-left and bottom-right corners.
#[derive(Clone, Copy, Debug, PartialEq, Eq, Structural)]
pub struct Rect {
    pub min: Point,
    pub max: Point,
}

/// The four corner radii of a rectangle, in fixed-point units.
#[derive(Clone, Copy, Debug, PartialEq, Eq, Structural)]
pub struct Rounding {
    pub nw: i32,
    pub ne: i32,
    pub sw: i32,
    pub se: i32,
}

/// A point of an outline. Outline coordinates are sums of command
/// coordinates, so they are wider.
#[derive(Clone, Copy, Debug, PartialEq, Eq, Structural)]
pub struct PathPoint {
    pub x: i64,
    pub y: i64,
}

/// One step of an outline.
#[derive(Clone, Copy, Debug, PartialEq, Eq, Structural)]
pub enum Segment {
    /// Starts a contour.
    MoveTo(PathPoint),
    /// A straight edge from the current point.
    LineTo(PathPoint),
    /// A quadratic curve from the current point: control point, end point.
    QuadTo(PathPoint, PathPoint),
    /// A closed oval contour inscribed in the given box.
    Oval { left: i64, top: i64, right: i64, bottom: i64 },
    /// A straight edge back to the start of the contour.
    Close,
}

/// An outline: the segments in drawing order.
#[derive(Clone, Debug, PartialEq, Eq)]
pub struct Path {
    pub segments: Vec<Segment>,
}

impl View for Path {
    type V = Seq<Segment>;

    open spec fn view(&self) -> Seq<Segment> {
        self.segments@
    }
}

impl Rect {
    /// Neither side is negative.
    pub open spec fn valid(self) -> bool {
        self.min.x <= self.max.x && self.min.y <= self.max.y
    }

    pub open spec fn width(self) -> int {
        self.max.x - self.min.x
    }

    pub open spec fn height(self) -> int {
        self.max.y - self.min.y
    }

    /// Half of the shorter side, rounded down.
    pub open spec fn half_shorter_side(self) -> int {
        if self.width() <= self.height() {
            self.width() / 2
        } else {
            self.height() / 2
        }
    }

    pub fn is_valid(&self) -> (r: bool)
        ensures
            r == self.valid(),
    {
        self.min.x <= self.max.x && self.min.y <= self.max.y
    }
}

impl Rounding {
    pub open spec fn zero(self) -> bool {
        self.nw == 0 && self.ne == 0 && self.sw == 0 && self.se == 0
    }

    /// Every radius is positive and at most `limit`.
    pub open spec fn within(self, limit: int) -> bool {
        &&& 0 < self.nw <= limit
        &&& 0 < self.ne <= limit
        &&& 0 < self.sw <= limit
        &&& 0 < self.se <= limit
    }

    pub fn is_zero(&self) -> (r: bool)
        ensures
            r == self.zero(),
    {
        self.nw == 0 && self.ne == 0 && self.sw == 0 && self.se == 0
    }
}

/// The outline point at `(x, y)`.
pub open spec fn at(x: int, y: int) -> PathPoint {
    PathPoint { x: x as i64, y: y as i64 }
}

/// A command position as an outline point.
pub open spec fn lift(p: Point) -> PathPoint {
    at(p.x as int, p.y as int)
}

/// The points that a segment names, control points included.
pub open spec fn segment_points(s: Segment) -> Seq<PathPoint> {
    match s {
        Segment::MoveTo(p) => seq![p],
        Segment::LineTo(p) => seq![p],
        Segment::QuadTo(c, p) => seq![c, p],
        Segment::Oval { left, top, right, bottom } => seq![
            PathPoint { x: left, y: top },
            PathPoint { x: right, y: bottom },
        ],
        Segment::Close => Seq::empty(),
    }
}

/// `p` is the `j`-th point of the `i`-th segment of `path`.
pub open spec fn point_at(path: Seq<Segment>, i: int, j: int, p: PathPoint) -> bool {
    0 <= i < path.len() && 0 <= j < segment_points(path[i]).len() && segment_points(path[i])[j]
        == p
}

/// Every point of `path` lies in the box.
pub open spec fn inside_box(path: Seq<Segment>, left: int, top: int, right: int, bottom: int) -> bool {
    forall|i: int, j: int, p: PathPoint| #[trigger]
        point_at(path, i, j, p) ==> left <= p.x <= right && top <= p.y <= bottom
}

/// The box is the bounding box of `path`: every point lies in it and each of
/// its four sides is touched by some point.
pub open spec fn has_bounds(path: Seq<Segment>, left: int, top: int, right: int, bottom: int) -> bool {
    &&& inside_box(path, left, top, right, bottom)
    &&& exists|i: int, j: int, p: PathPoint| #[trigger] point_at(path, i, j, p) && p.x == left
    &&& exists|i: int, j: int, p: PathPoint| #[trigger] point_at(path, i, j, p) && p.x == right
    &&& exists|i: int, j: int, p: PathPoint| #[trigger] point_at(path, i, j, p) && p.y == top
    &&& exists|i: int, j: int, p: PathPoint| #[trigger] point_at(path, i, j, p) && p.y == bottom
}

/// Whether a segment draws one edge of the outline.
pub open spec fn draws_edge(s: Segment) -> bool {
    s is LineTo || s is QuadTo || s is Close
}

/// The number of edges (straight or curved, closing edges included) that the
/// segments of `path` draw.
pub open spec fn edge_count(path: Seq<Segment>) -> nat
    decreases path.len(),
{
    if path.len() == 0 {
        0
    } else {
        edge_count(path.drop_last()) + if draws_edge(path.last()) {
            1nat
        } else {
            0nat
        }
    }
}

/// The outline ends by closing its contour.
pub open spec fn is_closed(path: Seq<Segment>) -> bool {
    path.len() > 0 && (path.last() is Close || path.last() is Oval)
}

/// Whether anything can be drawn from `path`: it is not empty and not a
/// lone `MoveTo`.
pub open spec fn drawable(path: Seq<Segment>) -> bool {
    path.len() >= 2 || (path.len() == 1 && path[0] is Oval)
}

/// The four straight edges of a rectangle, clockwise from the top-left.
pub open spec fn plain_rect_outline(rect: Rect) -> Seq<Segment> {
    seq![
        Segment::MoveTo(at(rect.min.x as int, rect.min.y as int)),
        Segment::LineTo(at(rect.max.x as int, rect.min.y as int)),
        Segment::LineTo(at(rect.max.x as int, rect.max.y as int)),
        Segment::LineTo(at(rect.min.x as int, rect.max.y as int)),
        Segment::Close,
    ]
}

/// The outline of a rectangle with rounded corners: for each corner a curve
/// whose control point is the corner itself, joined by straight edges.
pub open spec fn rounded_rect_outline(rect: Rect, r: Rounding) -> Seq<Segment> {
    let left = rect.min.x as int;
    let top = rect.min.y as int;
    let right = rect.max.x as int;
    let bottom = rect.max.y as int;
    seq![
        Segment::MoveTo(at(left, top + r.nw)),
        Segment::QuadTo(at(left, top), at(left + r.nw, top)),
        Segment::LineTo(at(right - r.ne, top)),
        Segment::QuadTo(at(right, top), at(right, top + r.ne)),
        Segment::LineTo(at(right, bottom - r.se)),
        Segment::QuadTo(at(right, bottom), at(right - r.se, bottom)),
        Segment::LineTo(at(left + r.sw, bottom)),
        Segment::QuadTo(at(left, bottom), at(left, bottom - r.sw)),
        Segment::Close,
    ]
}

/// The outline of a rectangle: none for a rectangle with a negative side,
/// four straight edges without rounding, the rounded outline otherwise.
pub open spec fn rect_outline(rect: Rect, rounding: Rounding) -> Option<Seq<Segment>> {
    if !rect.valid() {
        None
    } else if rounding.zero() {
        Some(plain_rect_outline(rect))
    } else {
        Some(rounded_rect_outline(rect, rounding))
    }
}

/// The outline of a circle: the oval inscribed in its bounding square, none
/// for a negative radius.
pub open spec fn circle_outline(center: Point, radius: i32) -> Option<Seq<Segment>> {
    if radius < 0 {
        None
    } else {
        Some(
            seq![
                Segment::Oval {
                    left: (center.x - radius) as i64,
                    top: (center.y - radius) as i64,
                    right: (center.x + radius) as i64,
                    bottom: (center.y + radius) as i64,
                },
            ],
        )
    }
}

/// The open outline of one line segment.
pub open spec fn line_outline(a: Point, b: Point) -> Seq<Segment> {
    seq![Segment::MoveTo(lift(a)), Segment::LineTo(lift(b))]
}

/// The segments of a polyline through `points`, closed on request.
pub open spec fn polyline_segments(points: Seq<Point>, closed: bool) -> Seq<Segment> {
    Seq::new(
        points.len() + if closed { 1nat } else { 0nat },
        |i: int|
            if i == 0 {
                Segment::MoveTo(lift(points[0]))
            } else if i < points.len() {
                Segment::LineTo(lift(points[i]))
            } else {
                Segment::Close
            },
    )
}

/// The outline of a polyline: none where no point is given, or a single
/// point that is not closed.
pub open spec fn polyline_outline(points: Seq<Point>, closed: bool) -> Option<Seq<Segment>> {
    if points.len() == 0 || (points.len() == 1 && !closed) {
        None
    } else {
        Some(polyline_segments(points, closed))
    }
}

/// The closed outline of the triangle `a`, `b`, `c`.
pub open spec fn triangle_outline(a: Point, b: Point, c: Point) -> Seq<Segment> {
    seq![
        Segment::MoveTo(lift(a)),
        Segment::LineTo(lift(b)),
        Segment::LineTo(lift(c)),
        Segment::Close,
    ]
}

/// The number of triangles that a sliding window of three finds in `n`
/// vertices.
pub open spec fn window_count(n: nat) -> nat {
    if n < 3 {
        0
    } else {
        (n - 2) as nat
    }
}

/// Appending a segment adds one edge exactly when the segment draws one.
pub proof fn lemma_edge_count_push(path: Seq<Segment>, s: Segment)
    ensures
        edge_count(path.push(s)) == edge_count(path) + if draws_edge(s) {
            1nat
        } else {
            0nat
        },
{
    assert(path.push(s).drop_last() =~= path);
}

/// A rectangle without rounding and without a negative side is outlined by
/// exactly four edges, and the outline is closed.
pub proof fn lemma_plain_rect_has_four_edges(rect: Rect, rounding: Rounding)
    requires
        rect.valid(),
        rounding.zero(),
    ensures
        rect_outline(rect, rounding) == Some(plain_rect_outline(rect)),
        edge_count(plain_rect_outline(rect)) == 4,
        is_closed(plain_rect_outline(rect)),
{
    let a = Segment::MoveTo(at(rect.min.x as int, rect.min.y as int));
    let b = Segment::LineTo(at(rect.max.x as int, rect.min.y as int));
    let c = Segment::LineTo(at(rect.max.x as int, rect.max.y as int));
    let d = Segment::LineTo(at(rect.min.x as int, rect.max.y as int));
    let s0 = Seq::<Segment>::empty();
    lemma_edge_count_push(s0, a);
    lemma_edge_count_push(s0.push(a), b);
    lemma_edge_count_push(s0.push(a).push(b), c);
    lemma_edge_count_push(s0.push(a).push(b).push(c), d);
    lemma_edge_count_push(s0.push(a).push(b).push(c).push(d), Segment::Close);
    assert(plain_rect_outline(rect) =~= s0.push(a).push(b).push(c).push(d).push(Segment::Close));
}

/// The outline of a rounded rectangle has eight edges: four corner curves
/// and four straight sides, the last of which closes the contour.
pub proof fn lemma_rounded_rect_has_eight_edges(rect: Rect, r: Rounding)
    ensures
        edge_count(rounded_rect_outline(rect, r)) == 8,
        is_closed(rounded_rect_outline(rect, r)),
{
    let p = rounded_rect_outline(rect, r);
    let s0 = Seq::<Segment>::empty();
    let s1 = s0.push(p[0]);
    let s2 = s1.push(p[1]);
    let s3 = s2.push(p[2]);
    let s4 = s3.push(p[3]);
    let s5 = s4.push(p[4]);
    let s6 = s5.push(p[5]);
    let s7 = s6.push(p[6]);
    let s8 = s7.push(p[7]);
    let s9 = s8.push(p[8]);
    lemma_edge_count_push(s0, p[0]);
    lemma_edge_count_push(s1, p[1]);
    lemma_edge_count_push(s2, p[2]);
    lemma_edge_count_push(s3, p[3]);
    lemma_edge_count_push(s4, p[4]);
    lemma_edge_count_push(s5, p[5]);
    lemma_edge_count_push(s6, p[6]);
    lemma_edge_count_push(s7, p[7]);
    lemma_edge_count_push(s8, p[8]);
    assert(p =~= s9);
}

/// Where every corner radius is positive and at most half the shorter side,
/// the outline of the rectangle is closed and its bounding box, control
/// points included, is the rectangle itself.
pub proof fn lemma_rounded_rect_closed_and_bounded(rect: Rect, r: Rounding)
    requires
        rect.valid(),
        r.within(rect.half_shorter_side()),
    ensures
        rect_outline(rect, r) == Some(rounded_rect_outline(rect, r)),
        is_closed(rounded_rect_outline(rect, r)),
        has_bounds(
            rounded_rect_outline(rect, r),
            rect.min.x as int,
            rect.min.y as int,
            rect.max.x as int,
            rect.max.y as int,
        ),
{
    let p = rounded_rect_outline(rect, r);
    let left = rect.min.x as int;
    let top = rect.min.y as int;
    let right = rect.max.x as int;
    let bottom = rect.max.y as int;
    assert forall|i: int, j: int, q: PathPoint| #[trigger] point_at(p, i, j, q) implies left <= q.x
        <= right && top <= q.y <= bottom by {
        if i == 0 {
        } else if i == 1 {
        } else if i == 2 {
        } else if i == 3 {
        } else if i == 4 {
        } else if i == 5 {
        } else if i == 6 {
        } else if i == 7 {
        } else {
        }
    }
    assert(point_at(p, 1, 0, at(left, top)));
    assert(point_at(p, 5, 0, at(right, bottom)));
}

/// The outline of a rectangle without rounding has the rectangle as its
/// bounding box.
pub proof fn lemma_plain_rect_bounded(rect: Rect)
    requires
        rect.valid(),
    ensures
        has_bounds(
            plain_rect_outline(rect),
            rect.min.x as int,
            rect.min.y as int,
            rect.max.x as int,
            rect.max.y as int,
        ),
{
    let p = plain_rect_outline(rect);
    assert forall|i: int, j: int, q: PathPoint| #[trigger] point_at(p, i, j, q) implies rect.min.x
        <= q.x <= rect.max.x && rect.min.y <= q.y <= rect.max.y by {
        if i == 0 {
        } else if i == 1 {
        } else if i == 2 {
        } else if i == 3 {
        } else {
        }
    }
    assert(point_at(p, 0, 0, at(rect.min.x as int, rect.min.y as int)));
    assert(point_at(p, 2, 0, at(rect.max.x as int, rect.max.y as int)));
}

fn to_path_point(p: Point) -> (r: PathPoint)
    ensures
        r == lift(p),
{
    PathPoint { x: p.x as i64, y: p.y as i64 }
}

/// Builds the outline of a rectangle with the given corner radii.
pub fn rect_path(rect: Rect, rounding: Rounding) -> (path: Option<Path>)
    ensures
        path is Some <==> rect.valid(),
        path matches Some(p) ==> Some(p@) == rect_outline(rect, rounding) && drawable(p@),
{
    if !rect.is_valid() {
        return None;
    }
    let left: i64 = rect.min.x as i64;
    let top: i64 = rect.min.y as i64;
    let right: i64 = rect.max.x as i64;
    let bottom: i64 = rect.max.y as i64;
    let mut segments: Vec<Segment> = Vec::new();
    if rounding.is_zero() {
        segments.push(Segment::MoveTo(PathPoint { x: left, y: top }));
        segments.push(Segment::LineTo(PathPoint { x: right, y: top }));
        segments.push(Segment::LineTo(PathPoint { x: right, y: bottom }));
        segments.push(Segment::LineTo(PathPoint { x: left, y: bottom }));
        segments.push(Segment::Close);
        assert(segments@ =~= plain_rect_outline(rect));
    } else {
        let nw: i64 = rounding.nw as i64;
        let ne: i64 = rounding.ne as i64;
        let sw: i64 = rounding.sw as i64;
        let se: i64 = rounding.se as i64;
        segments.push(Segment::MoveTo(PathPoint { x: left, y: top + nw }));
        segments.push(
            Segment::QuadTo(PathPoint { x: left, y: top }, PathPoint { x: left + nw, y: top }),
        );
        segments.push(Segment::LineTo(PathPoint { x: right - ne, y: top }));
        segments.push(
            Segment::QuadTo(PathPoint { x: right, y: top }, PathPoint { x: right, y: top + ne }),
        );
        segments.push(Segment::LineTo(PathPoint { x: right, y: bottom - se }));
        segments.push(
            Segment::QuadTo(
                PathPoint { x: right, y: bottom },
                PathPoint { x: right - se, y: bottom },
            ),
        );
        segments.push(Segment::LineTo(PathPoint { x: left + sw, y: bottom }));
        segments.push(
            Segment::QuadTo(PathPoint { x: left, y: bottom }, PathPoint { x: left, y: bottom - sw }),
        );
        segments.push(Segment::Close);
        assert(segments@ =~= rounded_rect_outline(rect, rounding));
    }
    Some(Path { segments })
}

/// Builds the outline of a circle.
pub fn circle_path(center: Point, radius: i32) -> (path: Option<Path>)
    ensures
        path is Some <==> radius >= 0,
        path matches Some(p) ==> Some(p@) == circle_outline(center, radius) && drawable(p@),
{
    if radius < 0 {
        return None;
    }
    let cx: i64 = center.x as i64;
    let cy: i64 = center.y as i64;
    let r: i64 = radius as i64;
    let mut segments: Vec<Segment> = Vec::new();
    segments.push(Segment::Oval { left: cx - r, top: cy - r, right: cx + r, bottom: cy + r });
    assert(Some(segments@) =~= circle_outline(center, radius));
    Some(Path { segments })
}

/// Builds the open outline from `a` to `b`.
pub fn line_path(a: Point, b: Point) -> (path: Path)
    ensures
        path@ == line_outline(a, b),
{
    let mut segments: Vec<Segment> = Vec::new();
    segments.push(Segment::MoveTo(to_path_point(a)));
    segments.push(Segment::LineTo(to_path_point(b)));
    assert(segments@ =~= line_outline(a, b));
    Path { segments }
}

/// Builds the polyline through `points`, in order, closed only on request.
pub fn polyline_path(points: &Vec<Point>, closed: bool) -> (path: Option<Path>)
    ensures
        path is Some <==> !(points.len() == 0 || (points.len() == 1 && !closed)),
        path matches Some(p) ==> Some(p@) == polyline_outline(points@, closed) && drawable(p@),
{
    let n = points.len();
    if n == 0 || (n == 1 && !closed) {
        return None;
    }
    let mut segments: Vec<Segment> = Vec::new();
    segments.push(Segment::MoveTo(to_path_point(points[0])));
    let mut i: usize = 1;
    while i < n
        invariant
            1 <= i <= n,
            n == points.len(),
            segments.len() == i,
            forall|k: int|
                0 <= k < i ==> segments[k] == #[trigger] polyline_segments(points@, closed)[k],
        decreases n - i,
    {
        segments.push(Segment::LineTo(to_path_point(points[i])));
        i += 1;
    }
    if closed {
        segments.push(Segment::Close);
    }
    assert(segments@ =~= polyline_segments(points@, closed));
    Some(Path { segments })
}

/// Builds the closed outline of one triangle.
pub fn triangle_path(a: Point, b: Point, c: Point) -> (path: Path)
    ensures
        path@ == triangle_outline(a, b, c),
{
    let mut segments: Vec<Segment> = Vec::new();
    segments.push(Segment::MoveTo(to_path_point(a)));
    segments.push(Segment::LineTo(to_path_point(b)));
    segments.push(Segment::LineTo(to_path_point(c)));
    segments.push(Segment::Close);
    assert(segments@ =~= triangle_outline(a, b, c));
    Path { segments }
}

} // verus!
