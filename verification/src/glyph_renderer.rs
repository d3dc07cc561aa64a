//! Glyph rendering: the drawing commands of a glyph contour, read from its
//! UFO point types.
//!
//! Point positions are carried as an opaque value `P`; the host turns the
//! commands into a Bézier path.

use vstd::prelude::*;

verus! {

/// The UFO point type of a contour point.
#[derive(Debug, Clone, Copy, PartialEq, Eq, Structural)]
pub enum PointType {
    Move,
    Line,
    OffCurve,
    Curve,
    QCurve,
    Hyper,
    HyperCorner,
}

/// A contour point: its position and UFO point type.
#[derive(Debug, Clone, Copy)]
pub struct ContourPoint<P> {
    pub point: P,
    pub point_type: PointType,
}

/// A drawing command of a Bézier path.
#[derive(Debug, Clone, Copy, PartialEq)]
pub enum PathCommand<P> {
    MoveTo(P),
    LineTo(P),
    QuadTo(P, P),
    CurveTo(P, P, P),
    ClosePath,
}

/// Whether a point is an off-curve point.
pub open spec fn is_off<P>(p: ContourPoint<P>) -> bool {
    p.point_type == PointType::OffCurve
}

/// Whether a point belongs to a hyperbezier contour.
pub open spec fn is_hyper<P>(p: ContourPoint<P>) -> bool {
    p.point_type == PointType::Hyper || p.point_type == PointType::HyperCorner
}

/// Whether a point can start a contour's drawing: a move, line or curve point.
pub open spec fn starts_drawing<P>(p: ContourPoint<P>) -> bool {
    p.point_type == PointType::Move || p.point_type == PointType::Line || p.point_type == PointType::Curve
}

/// The first index from `i` on whose point can start the drawing; the
/// length when there is none.
pub open spec fn first_start_from<P>(pts: Seq<ContourPoint<P>>, i: int) -> int
    decreases pts.len() - i,
{
    if i >= pts.len() {
        pts.len() as int
    } else if starts_drawing(pts[i]) {
        i
    } else {
        first_start_from(pts, i + 1)
    }
}

/// Where the drawing starts: the first move, line or curve point, else the
/// first point.
pub open spec fn start_index<P>(pts: Seq<ContourPoint<P>>) -> int {
    let k = first_start_from(pts, 0);
    if k < pts.len() {
        k
    } else {
        0
    }
}

/// The points rotated to begin at index `k`.
pub open spec fn rotated<P>(pts: Seq<ContourPoint<P>>, k: int) -> Seq<ContourPoint<P>> {
    pts.subrange(k, pts.len() as int) + pts.subrange(0, k)
}

/// The start of the run of off-curve points just before index `i`; the run
/// never takes in the first point.
pub open spec fn off_run_start<P>(r: Seq<ContourPoint<P>>, i: int) -> int
    decreases i,
{
    if i - 1 > 0 && is_off(r[i - 1]) {
        off_run_start(r, i - 1)
    } else {
        i
    }
}

/// The segment to `end` through the off-curve points `offs`: a line with
/// none, a quadratic curve with one, else a cubic curve through the last two.
pub open spec fn curve_command<P>(offs: Seq<ContourPoint<P>>, end: P) -> PathCommand<P> {
    if offs.len() == 0 {
        PathCommand::LineTo(end)
    } else if offs.len() == 1 {
        PathCommand::QuadTo(offs[0].point, end)
    } else {
        PathCommand::CurveTo(offs[offs.len() - 2].point, offs[offs.len() - 1].point, end)
    }
}

/// The commands that point `i` (not the first) of a rotated contour draws.
pub open spec fn point_commands<P>(r: Seq<ContourPoint<P>>, i: int) -> Seq<PathCommand<P>> {
    let p = r[i].point;
    match r[i].point_type {
        PointType::Move => seq![PathCommand::MoveTo(p)],
        PointType::Line => seq![PathCommand::LineTo(p)],
        PointType::Curve => seq![curve_command(r.subrange(off_run_start(r, i), i), p)],
        PointType::OffCurve => seq![],
        PointType::QCurve => if is_off(r[i - 1]) {
            seq![PathCommand::QuadTo(r[i - 1].point, p)]
        } else {
            seq![PathCommand::LineTo(p)]
        },
        PointType::Hyper | PointType::HyperCorner => seq![PathCommand::LineTo(p)],
    }
}

/// The commands points `1..upto` of a rotated contour draw.
pub open spec fn body_commands<P>(r: Seq<ContourPoint<P>>, upto: int) -> Seq<PathCommand<P>>
    decreases upto,
{
    if upto <= 1 {
        seq![]
    } else {
        body_commands(r, upto - 1) + point_commands(r, upto - 1)
    }
}

/// The command that ends a rotated contour: a curve back to the first point
/// through the trailing off-curve points when the first point is a curve
/// point (or a quadratic curve point with trailing handles), else a close.
pub open spec fn closing_commands<P>(r: Seq<ContourPoint<P>>) -> Seq<PathCommand<P>> {
    let trailing = r.subrange(off_run_start(r, r.len() as int), r.len() as int);
    if trailing.len() == 0 {
        seq![PathCommand::ClosePath]
    } else {
        match r[0].point_type {
            PointType::Curve => seq![curve_command(trailing, r[0].point)],
            PointType::QCurve => seq![PathCommand::QuadTo(trailing[0].point, r[0].point)],
            _ => seq![PathCommand::ClosePath],
        }
    }
}

/// The drawing commands of a contour: none for an empty contour; `None` for
/// a hyperbezier contour, which the spline solver draws from
/// [`hyper_input`]; else a move to the starting point, each later point's
/// commands and the closing command.
pub open spec fn contour_drawing<P>(pts: Seq<ContourPoint<P>>) -> Option<Seq<PathCommand<P>>> {
    if pts.len() == 0 {
        Some(seq![])
    } else if exists|i: int| 0 <= i < pts.len() && is_hyper(#[trigger] pts[i]) {
        None
    } else {
        let r = rotated(pts, start_index(pts));
        Some(seq![PathCommand::MoveTo(r[0].point)] + body_commands(r, r.len() as int) + closing_commands(r))
    }
}

/// A point of a hyperbezier contour as the spline solver takes it: its
/// position and whether the curve is smooth through it.
#[derive(Debug, Clone, Copy, PartialEq)]
pub struct HyperPoint<P> {
    pub point: P,
    pub smooth: bool,
}

/// How a contour is drawn: by Bézier commands, or by the hyperbezier spline
/// solver from its points and whether it is closed.
#[derive(Debug, Clone, PartialEq)]
pub enum ContourDrawing<P> {
    Bezier(Vec<PathCommand<P>>),
    Hyper(Vec<HyperPoint<P>>, bool),
}

/// The solver's point for a contour point: smooth unless it is a hyper
/// corner point.
pub open spec fn hyper_point<P>(p: ContourPoint<P>) -> HyperPoint<P> {
    HyperPoint { point: p.point, smooth: p.point_type != PointType::HyperCorner }
}

/// The solver's points for a hyperbezier contour, in order.
pub open spec fn hyper_input<P>(pts: Seq<ContourPoint<P>>) -> Seq<HyperPoint<P>> {
    pts.map_values(|p: ContourPoint<P>| hyper_point(p))
}

/// Whether a hyperbezier contour is closed: it does not start with a move
/// point.
pub open spec fn hyper_closed<P>(pts: Seq<ContourPoint<P>>) -> bool {
    !(pts.len() > 0 && pts[0].point_type == PointType::Move)
}

fn hyper_points<P: Copy>(points: &Vec<ContourPoint<P>>) -> (r: Vec<HyperPoint<P>>)
    ensures
        r@ == hyper_input(points@),
{
    let mut out: Vec<HyperPoint<P>> = Vec::new();
    let mut i: usize = 0;
    while i < points.len()
        invariant
            i <= points@.len(),
            out@ == hyper_input(points@).take(i as int),
        decreases points@.len() - i,
    {
        let smooth = match points[i].point_type {
            PointType::HyperCorner => false,
            _ => true,
        };
        out.push(HyperPoint { point: points[i].point, smooth });
        assert(out@ =~= hyper_input(points@).take(i as int + 1));
        i = i + 1;
    }
    assert(hyper_input(points@).take(i as int) =~= hyper_input(points@));
    out
}

fn is_off_curve<P>(p: &ContourPoint<P>) -> (r: bool)
    ensures
        r == is_off(*p),
{
    match p.point_type {
        PointType::OffCurve => true,
        _ => false,
    }
}

/// The off-curve points just before index `current` (never the first).
pub fn collect_preceding_off_curve_points<P: Copy>(rotated: &Vec<ContourPoint<P>>, current: usize) -> (r: Vec<
    ContourPoint<P>,
>)
    requires
        current <= rotated@.len(),
    ensures
        r@ == rotated@.subrange(off_run_start(rotated@, current as int), current as int),
{
    let mut j: usize = if current == 0 {
        0
    } else {
        current - 1
    };
    while j > 0 && is_off_curve(&rotated[j])
        invariant
            j < current || (j == 0 && current == 0),
            current <= rotated@.len(),
            current > 0 ==> off_run_start(rotated@, current as int) == off_run_start(rotated@, j as int + 1),
        decreases j,
    {
        j = j - 1;
    }
    let start = if current == 0 { 0 } else { j + 1 };
    assert(off_run_start(rotated@, current as int) == start) by {
        if current > 0 {
            assert(off_run_start(rotated@, j as int + 1) == j + 1);
        }
    }
    let mut out: Vec<ContourPoint<P>> = Vec::new();
    let mut k: usize = start;
    while k < current
        invariant
            start <= k <= current,
            current <= rotated@.len(),
            out@ == rotated@.subrange(start as int, k as int),
        decreases current - k,
    {
        out.push(rotated[k]);
        assert(out@ =~= rotated@.subrange(start as int, k as int + 1));
        k = k + 1;
    }
    out
}

/// The off-curve points at the end of a contour (never the first point).
pub fn collect_trailing_off_curve_points<P: Copy>(rotated: &Vec<ContourPoint<P>>) -> (r: Vec<ContourPoint<P>>)
    ensures
        r@ == rotated@.subrange(off_run_start(rotated@, rotated@.len() as int), rotated@.len() as int),
{
    collect_preceding_off_curve_points(rotated, rotated.len())
}

fn starts_drawing_at<P>(points: &Vec<ContourPoint<P>>, i: usize) -> (r: bool)
    requires
        i < points@.len(),
    ensures
        r == starts_drawing(points@[i as int]),
{
    match points[i].point_type {
        PointType::Move | PointType::Line | PointType::Curve => true,
        _ => false,
    }
}

fn curve_segment<P: Copy>(offs: &Vec<ContourPoint<P>>, end: P) -> (r: PathCommand<P>)
    ensures
        r == curve_command(offs@, end),
{
    let n = offs.len();
    if n == 0 {
        PathCommand::LineTo(end)
    } else if n == 1 {
        PathCommand::QuadTo(offs[0].point, end)
    } else {
        PathCommand::CurveTo(offs[n - 2].point, offs[n - 1].point, end)
    }
}

/// How a contour is drawn (see [`contour_drawing`]): its Bézier commands,
/// or, for a hyperbezier contour, the spline solver's points and whether the
/// contour is closed.
pub fn contour_commands<P: Copy>(points: &Vec<ContourPoint<P>>) -> (r: ContourDrawing<P>)
    ensures
        match contour_drawing(points@) {
            None => r matches ContourDrawing::Hyper(h, closed) && h@ == hyper_input(points@) && closed
                == hyper_closed(points@),
            Some(c) => r matches ContourDrawing::Bezier(v) && v@ == c,
        },
{
    let n = points.len();
    let mut out: Vec<PathCommand<P>> = Vec::new();
    if n == 0 {
        assert(out@ =~= Seq::<PathCommand<P>>::empty());
        return ContourDrawing::Bezier(out);
    }
    let mut h: usize = 0;
    while h < n
        invariant
            n == points@.len(),
            h <= n,
            forall|i: int| 0 <= i < h ==> !is_hyper(#[trigger] points@[i]),
        decreases n - h,
    {
        match points[h].point_type {
            PointType::Hyper | PointType::HyperCorner => {
                let closed = match points[0].point_type {
                    PointType::Move => false,
                    _ => true,
                };
                return ContourDrawing::Hyper(hyper_points(points), closed);
            },
            _ => {},
        }
        h = h + 1;
    }
    let mut start: usize = 0;
    while start < n && !starts_drawing_at(points, start)
        invariant
            n == points@.len(),
            start <= n,
            first_start_from(points@, 0) == first_start_from(points@, start as int),
        decreases n - start,
    {
        start = start + 1;
    }
    if start == n {
        start = 0;
    }
    assert(start == start_index(points@));
    let ghost r = rotated(points@, start as int);
    let mut rot: Vec<ContourPoint<P>> = Vec::new();
    let mut k: usize = start;
    while k < n
        invariant
            n == points@.len(),
            start <= k <= n,
            rot@ == points@.subrange(start as int, k as int),
        decreases n - k,
    {
        rot.push(points[k]);
        assert(rot@ =~= points@.subrange(start as int, k as int + 1));
        k = k + 1;
    }
    let mut k: usize = 0;
    while k < start
        invariant
            n == points@.len(),
            k <= start < n,
            rot@ == points@.subrange(start as int, n as int) + points@.subrange(0, k as int),
        decreases start - k,
    {
        rot.push(points[k]);
        assert(rot@ =~= points@.subrange(start as int, n as int) + points@.subrange(0, k as int + 1));
        k = k + 1;
    }
    assert(rot@ == r);
    out.push(PathCommand::MoveTo(rot[0].point));
    let mut i: usize = 1;
    assert(out@ =~= seq![PathCommand::MoveTo(r[0].point)] + body_commands(r, 1));
    while i < n
        invariant
            n == rot@.len(),
            rot@ == r,
            1 <= i <= n,
            out@ == seq![PathCommand::MoveTo(r[0].point)] + body_commands(r, i as int),
        decreases n - i,
    {
        let pt = rot[i];
        let ghost before = out@;
        match pt.point_type {
            PointType::Move => {
                out.push(PathCommand::MoveTo(pt.point));
            },
            PointType::Line => {
                out.push(PathCommand::LineTo(pt.point));
            },
            PointType::Curve => {
                let offs = collect_preceding_off_curve_points(&rot, i);
                out.push(curve_segment(&offs, pt.point));
            },
            PointType::OffCurve => {},
            PointType::QCurve => {
                if is_off_curve(&rot[i - 1]) {
                    out.push(PathCommand::QuadTo(rot[i - 1].point, pt.point));
                } else {
                    out.push(PathCommand::LineTo(pt.point));
                }
            },
            PointType::Hyper | PointType::HyperCorner => {
                out.push(PathCommand::LineTo(pt.point));
            },
        }
        assert(out@ =~= before + point_commands(r, i as int));
        i = i + 1;
    }
    let trailing = collect_trailing_off_curve_points(&rot);
    let ghost body = out@;
    if trailing.len() == 0 {
        out.push(PathCommand::ClosePath);
    } else {
        match rot[0].point_type {
            PointType::Curve => {
                out.push(curve_segment(&trailing, rot[0].point));
            },
            PointType::QCurve => {
                out.push(PathCommand::QuadTo(trailing[0].point, rot[0].point));
            },
            _ => {
                out.push(PathCommand::ClosePath);
            },
        }
    }
    assert(out@ =~= body + closing_commands(r));
    ContourDrawing::Bezier(out)
}

} // verus!

verus! {

proof fn lemma_no_start_from<P>(pts: Seq<ContourPoint<P>>, i: int)
    requires
        0 <= i <= pts.len(),
        forall|j: int| i <= j < pts.len() ==> !starts_drawing(#[trigger] pts[j]),
    ensures
        first_start_from(pts, i) == pts.len(),
    decreases pts.len() - i,
{
    if i < pts.len() {
        lemma_no_start_from(pts, i + 1);
    }
}

proof fn lemma_off_run_start<P>(r: Seq<ContourPoint<P>>, i: int)
    requires
        1 <= i <= r.len(),
    ensures
        1 <= off_run_start(r, i) <= i,
        forall|j: int| off_run_start(r, i) <= j < i ==> is_off(#[trigger] r[j]),
        off_run_start(r, i) == 1 || !is_off(r[off_run_start(r, i) - 1]),
    decreases i,
{
    if i - 1 > 0 && is_off(r[i - 1]) {
        lemma_off_run_start(r, i - 1);
    }
}

/// When a contour's drawing starts at a quadratic curve point (it has no
/// move, line or curve point) and it ends with off-curve points, its last
/// command is a quadratic curve through the first of those trailing
/// off-curve points back to the starting point; its first command moves to
/// that starting point.
pub proof fn law_qcurve_start_closes_with_quadratic<P>(pts: Seq<ContourPoint<P>>, k: int)
    requires
        pts.len() >= 2,
        forall|j: int| 0 <= j < pts.len() ==> !starts_drawing(#[trigger] pts[j]) && !is_hyper(pts[j]),
        pts[0].point_type == PointType::QCurve,
        1 <= k < pts.len(),
        forall|j: int| k <= j < pts.len() ==> is_off(#[trigger] pts[j]),
        k == 1 || !is_off(pts[k - 1]),
    ensures
        contour_drawing(pts) is Some,
        contour_drawing(pts).unwrap().len() >= 2,
        contour_drawing(pts).unwrap()[0] == PathCommand::MoveTo(pts[0].point),
        contour_drawing(pts).unwrap().last() == PathCommand::QuadTo(pts[k].point, pts[0].point),
{
    let n = pts.len() as int;
    lemma_no_start_from(pts, 0);
    assert(start_index(pts) == 0);
    let r = rotated(pts, 0);
    assert(r =~= pts);
    lemma_off_run_start(pts, n);
    let s = off_run_start(pts, n);
    if s < k {
        assert(is_off(pts[k - 1]));
    }
    if k < s {
        assert(is_off(pts[s - 1]));
    }
    assert(s == k);
    assert(!(exists|i: int| 0 <= i < pts.len() && is_hyper(#[trigger] pts[i])));
    let trailing = pts.subrange(s, n);
    assert(trailing[0] == pts[k]);
    assert(closing_commands(pts) == seq![PathCommand::QuadTo(pts[k].point, pts[0].point)]);
}

} // verus!
