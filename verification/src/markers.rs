//! Edit-control markers: which marker each point of a contour is drawn
//! with, which geometry batch the marker joins, and which point carries the
//! start arrow. Marker sizes and positions are the host's.

use vstd::prelude::*;
use crate::editor::PathKind;
use crate::outline::{PathPoint, PointType};

verus! {

/// The shape a point is marked with.
#[derive(Debug, Clone, Copy, PartialEq, Eq, Structural)]
pub enum MarkerShape {
    /// An on-curve point of a hyperbezier contour.
    HyperCircle,
    /// A smooth on-curve point.
    SmoothCircle,
    /// A corner on-curve point.
    CornerSquare,
    /// An off-curve handle.
    OffCurveCircle,
}

/// The marker of a point: its shape, and whether it is drawn selected.
#[derive(Debug, Clone, Copy, PartialEq, Eq, Structural)]
pub struct PointMarker {
    pub shape: MarkerShape,
    pub selected: bool,
}

/// The geometry batch a marker is drawn in.
#[derive(Debug, Clone, Copy, PartialEq, Eq, Structural)]
pub enum MarkerBatch {
    SmoothCircles,
    CornerSquares,
    OffCurveCircles,
    HyperCircles,
    SelectedCircles,
    SelectedSquares,
}

/// The marker of a point: on-curve points of a hyperbezier contour are hyper
/// circles; otherwise smooth points are circles, corners squares and
/// handles small circles.
pub open spec fn marker_of(kind: PathKind, typ: PointType, selected: bool) -> PointMarker {
    let shape = if kind == PathKind::Hyper && typ is OnCurve {
        MarkerShape::HyperCircle
    } else {
        match typ {
            PointType::OnCurve { smooth } => if smooth {
                MarkerShape::SmoothCircle
            } else {
                MarkerShape::CornerSquare
            },
            PointType::OffCurve { .. } => MarkerShape::OffCurveCircle,
        }
    };
    PointMarker { shape, selected }
}

/// The batch of a marker: selected markers join the selected circles (or,
/// for corners, the selected squares); the others the batch of their shape.
pub open spec fn batch_of(m: PointMarker) -> MarkerBatch {
    match m.shape {
        MarkerShape::CornerSquare => if m.selected {
            MarkerBatch::SelectedSquares
        } else {
            MarkerBatch::CornerSquares
        },
        MarkerShape::HyperCircle => if m.selected {
            MarkerBatch::SelectedCircles
        } else {
            MarkerBatch::HyperCircles
        },
        MarkerShape::SmoothCircle => if m.selected {
            MarkerBatch::SelectedCircles
        } else {
            MarkerBatch::SmoothCircles
        },
        MarkerShape::OffCurveCircle => if m.selected {
            MarkerBatch::SelectedCircles
        } else {
            MarkerBatch::OffCurveCircles
        },
    }
}

/// The marker a point of a contour of `kind` is drawn with.
pub fn point_marker(kind: PathKind, typ: PointType, selected: bool) -> (r: PointMarker)
    ensures
        r == marker_of(kind, typ, selected),
{
    let hyper = match kind {
        PathKind::Hyper => true,
        _ => false,
    };
    let shape = match typ {
        PointType::OnCurve { smooth } => if hyper {
            MarkerShape::HyperCircle
        } else if smooth {
            MarkerShape::SmoothCircle
        } else {
            MarkerShape::CornerSquare
        },
        PointType::OffCurve { .. } => MarkerShape::OffCurveCircle,
    };
    PointMarker { shape, selected }
}

/// The batch a marker is drawn in.
pub fn marker_batch(m: PointMarker) -> (r: MarkerBatch)
    ensures
        r == batch_of(m),
{
    match m.shape {
        MarkerShape::CornerSquare => if m.selected {
            MarkerBatch::SelectedSquares
        } else {
            MarkerBatch::CornerSquares
        },
        MarkerShape::HyperCircle => if m.selected {
            MarkerBatch::SelectedCircles
        } else {
            MarkerBatch::HyperCircles
        },
        MarkerShape::SmoothCircle => if m.selected {
            MarkerBatch::SelectedCircles
        } else {
            MarkerBatch::SmoothCircles
        },
        MarkerShape::OffCurveCircle => if m.selected {
            MarkerBatch::SelectedCircles
        } else {
            MarkerBatch::OffCurveCircles
        },
    }
}

/// The point that carries the start arrow: the first on-curve point of a
/// closed contour; an open contour has none.
pub fn start_arrow_index<P>(points: &[PathPoint<P>], closed: bool) -> (r: Option<usize>)
    ensures
        !closed ==> r is None,
        closed ==> match r {
            Some(i) => i < points@.len() && points@[i as int].on_curve() && forall|j: int|
                0 <= j < i ==> !(#[trigger] points@[j]).on_curve(),
            None => forall|j: int| 0 <= j < points@.len() ==> !(#[trigger] points@[j]).on_curve(),
        },
{
    if !closed {
        return None;
    }
    let mut i: usize = 0;
    while i < points.len()
        invariant
            i <= points@.len(),
            closed,
            forall|j: int| 0 <= j < i ==> !(#[trigger] points@[j]).on_curve(),
        decreases points@.len() - i,
    {
        if points[i].is_on_curve() {
            return Some(i);
        }
        i = i + 1;
    }
    None
}

} // verus!

verus! {

/// Every selected marker is drawn in a selected batch (the selected squares
/// for a corner square, the selected circles for every other shape), and no
/// unselected marker is.
pub proof fn law_selected_markers_use_selected_batches(kind: PathKind, typ: PointType)
    ensures
        batch_of(marker_of(kind, typ, true)) == (if kind != PathKind::Hyper && typ == (PointType::OnCurve {
            smooth: false,
        }) {
            MarkerBatch::SelectedSquares
        } else {
            MarkerBatch::SelectedCircles
        }),
        batch_of(marker_of(kind, typ, false)) != MarkerBatch::SelectedSquares,
        batch_of(marker_of(kind, typ, false)) != MarkerBatch::SelectedCircles,
{
}

} // verus!

verus! {

/// Each point's marker keeps its selection and is shaped by its type: an
/// off-curve handle is a small circle in every kind of contour; an on-curve
/// point of a hyperbezier contour is a hyper circle; any other on-curve
/// point is a circle when smooth and a square when a corner.
pub proof fn law_marker_shapes(kind: PathKind, typ: PointType, selected: bool)
    ensures
        marker_of(kind, typ, selected).selected == selected,
        typ is OffCurve ==> marker_of(kind, typ, selected).shape == MarkerShape::OffCurveCircle,
        typ is OnCurve && kind == PathKind::Hyper ==> marker_of(kind, typ, selected).shape == MarkerShape::HyperCircle,
        typ == (PointType::OnCurve { smooth: true }) && kind != PathKind::Hyper ==> marker_of(kind, typ, selected).shape
            == MarkerShape::SmoothCircle,
        typ == (PointType::OnCurve { smooth: false }) && kind != PathKind::Hyper ==> marker_of(kind, typ, selected).shape
            == MarkerShape::CornerSquare,
{
}

} // verus!
