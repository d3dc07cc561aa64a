use runebender_web::glyph_renderer::{
    collect_preceding_off_curve_points, collect_trailing_off_curve_points, contour_commands, ContourDrawing,
    ContourPoint, HyperPoint, PathCommand, PointType,
};

fn bezier(drawing: ContourDrawing<(i32, i32)>) -> Vec<PathCommand<(i32, i32)>> {
    match drawing {
        ContourDrawing::Bezier(commands) => commands,
        ContourDrawing::Hyper(..) => panic!("expected Bézier commands"),
    }
}

fn pt(x: i32, y: i32, point_type: PointType) -> ContourPoint<(i32, i32)> {
    ContourPoint { point: (x, y), point_type }
}

#[test]
fn line_contour_moves_lines_and_closes() {
    let contour = vec![
        pt(0, 0, PointType::Line),
        pt(100, 0, PointType::Line),
        pt(100, 100, PointType::Line),
    ];
    let commands = bezier(contour_commands(&contour));
    assert_eq!(
        commands,
        vec![
            PathCommand::MoveTo((0, 0)),
            PathCommand::LineTo((100, 0)),
            PathCommand::LineTo((100, 100)),
            PathCommand::ClosePath,
        ]
    );
}

#[test]
fn cubic_contour_curves_back_to_its_start() {
    let contour = vec![
        pt(0, 0, PointType::Curve),
        pt(0, 50, PointType::OffCurve),
        pt(50, 100, PointType::OffCurve),
        pt(100, 100, PointType::Curve),
        pt(100, 50, PointType::OffCurve),
        pt(50, 0, PointType::OffCurve),
    ];
    let commands = bezier(contour_commands(&contour));
    assert_eq!(
        commands,
        vec![
            PathCommand::MoveTo((0, 0)),
            PathCommand::CurveTo((0, 50), (50, 100), (100, 100)),
            PathCommand::CurveTo((100, 50), (50, 0), (0, 0)),
        ]
    );
}

#[test]
fn drawing_starts_at_first_on_curve_point() {
    let contour = vec![
        pt(5, 5, PointType::OffCurve),
        pt(0, 0, PointType::QCurve),
        pt(10, 0, PointType::Line),
        pt(10, 10, PointType::Curve),
    ];
    // the first move, line or curve point is (10, 0); the qcurve point
    // after the handle (5, 5) becomes a quadratic segment
    let commands = bezier(contour_commands(&contour));
    assert_eq!(
        commands,
        vec![
            PathCommand::MoveTo((10, 0)),
            PathCommand::LineTo((10, 10)),
            PathCommand::QuadTo((5, 5), (0, 0)),
            PathCommand::ClosePath,
        ]
    );
}

#[test]
fn open_contour_and_empty_and_hyper_contours() {
    assert_eq!(contour_commands::<(i32, i32)>(&vec![]), ContourDrawing::Bezier(vec![]));
    let hyper = vec![pt(0, 0, PointType::Hyper), pt(10, 0, PointType::HyperCorner), pt(5, 5, PointType::Line)];
    assert_eq!(
        contour_commands(&hyper),
        ContourDrawing::Hyper(
            vec![
                HyperPoint { point: (0, 0), smooth: true },
                HyperPoint { point: (10, 0), smooth: false },
                HyperPoint { point: (5, 5), smooth: true },
            ],
            true,
        )
    );
    let open_hyper = vec![pt(0, 0, PointType::Move), pt(10, 0, PointType::Hyper)];
    assert!(matches!(contour_commands(&open_hyper), ContourDrawing::Hyper(_, false)));
    let open = vec![pt(0, 0, PointType::Move), pt(10, 0, PointType::Line)];
    assert_eq!(
        contour_commands(&open),
        ContourDrawing::Bezier(vec![PathCommand::MoveTo((0, 0)), PathCommand::LineTo((10, 0)), PathCommand::ClosePath])
    );
}

#[test]
fn long_handle_runs_use_the_last_two_handles() {
    let contour = vec![
        pt(0, 0, PointType::Line),
        pt(1, 1, PointType::OffCurve),
        pt(2, 2, PointType::OffCurve),
        pt(3, 3, PointType::OffCurve),
        pt(4, 4, PointType::Curve),
        pt(5, 5, PointType::OffCurve),
        pt(6, 6, PointType::QCurve),
    ];
    let commands = bezier(contour_commands(&contour));
    assert_eq!(
        commands,
        vec![
            PathCommand::MoveTo((0, 0)),
            PathCommand::CurveTo((2, 2), (3, 3), (4, 4)),
            PathCommand::QuadTo((5, 5), (6, 6)),
            PathCommand::ClosePath,
        ]
    );
}

#[test]
fn off_curve_runs_stop_before_the_first_point() {
    let rotated = vec![
        pt(0, 0, PointType::OffCurve),
        pt(1, 1, PointType::OffCurve),
        pt(2, 2, PointType::Curve),
        pt(3, 3, PointType::OffCurve),
    ];
    let before = collect_preceding_off_curve_points(&rotated, 2);
    assert_eq!(before.len(), 1);
    assert_eq!(before[0].point, (1, 1));
    let trailing = collect_trailing_off_curve_points(&rotated);
    assert_eq!(trailing.len(), 1);
    assert_eq!(trailing[0].point, (3, 3));
    assert!(collect_preceding_off_curve_points(&rotated, 0).is_empty());
}
