use runebender_web::editor::PathKind;
use runebender_web::markers::{marker_batch, point_marker, start_arrow_index, MarkerBatch, MarkerShape};
use runebender_web::outline::{EntityId, PathPoint, PointType};

#[test]
fn markers_follow_point_type_and_selection() {
    let smooth = PointType::OnCurve { smooth: true };
    let corner = PointType::OnCurve { smooth: false };
    let handle = PointType::OffCurve { auto: false };
    assert_eq!(point_marker(PathKind::Cubic, smooth, false).shape, MarkerShape::SmoothCircle);
    assert_eq!(point_marker(PathKind::Cubic, corner, true).shape, MarkerShape::CornerSquare);
    assert_eq!(point_marker(PathKind::Hyper, corner, false).shape, MarkerShape::HyperCircle);
    assert_eq!(point_marker(PathKind::Hyper, handle, false).shape, MarkerShape::OffCurveCircle);
    assert_eq!(marker_batch(point_marker(PathKind::Cubic, corner, true)), MarkerBatch::SelectedSquares);
    assert_eq!(marker_batch(point_marker(PathKind::Cubic, corner, false)), MarkerBatch::CornerSquares);
    assert_eq!(marker_batch(point_marker(PathKind::Quadratic, smooth, true)), MarkerBatch::SelectedCircles);
    assert_eq!(marker_batch(point_marker(PathKind::Hyper, smooth, false)), MarkerBatch::HyperCircles);
    assert_eq!(marker_batch(point_marker(PathKind::Cubic, handle, false)), MarkerBatch::OffCurveCircles);
}

#[test]
fn start_arrow_sits_on_first_on_curve_point_of_closed_contours() {
    let points = vec![
        PathPoint { id: EntityId(1), point: (0, 0), typ: PointType::OffCurve { auto: false } },
        PathPoint { id: EntityId(2), point: (1, 0), typ: PointType::OnCurve { smooth: false } },
    ];
    assert_eq!(start_arrow_index(&points, true), Some(1));
    assert_eq!(start_arrow_index(&points, false), None);
    assert_eq!(start_arrow_index(&points[..1], true), None);
}
