use runebender_web::compat::{check_compat, point_types_compatible, CompatErrorKind, PointType};

/// One contour whose points sit 100 units apart on the x axis.
fn glyph_with_point_types(types: &[PointType]) -> Vec<Vec<(PointType, (f64, f64))>> {
    vec![types.iter().enumerate().map(|(i, t)| (*t, (i as f64 * 100.0, 0.0))).collect()]
}

/// The point types of a glyph's contours, as another master holds them.
fn types(glyph: Vec<Vec<(PointType, (f64, f64))>>) -> Vec<Vec<PointType>> {
    glyph.into_iter().map(|contour| contour.into_iter().map(|(t, _)| t).collect()).collect()
}

#[test]
fn compatible_matching_glyphs_have_no_errors() {
    let reference = glyph_with_point_types(&[PointType::Move, PointType::Line]);
    let other = types(glyph_with_point_types(&[PointType::Move, PointType::Curve]));

    let errors = check_compat("A", &reference, &[("Bold".to_string(), Some(other))]);

    assert!(errors.is_empty());
}

#[test]
fn reports_point_type_mismatch_with_reference_position() {
    let reference = glyph_with_point_types(&[PointType::Move, PointType::Line]);
    let other = types(glyph_with_point_types(&[PointType::Move, PointType::OffCurve]));

    let errors = check_compat("A", &reference, &[("Bold".to_string(), Some(other))]);

    assert_eq!(errors.len(), 1);
    assert!(matches!(errors[0].kind, CompatErrorKind::PointTypeMismatch));
    assert_eq!(errors[0].contour_index, Some(0));
    assert_eq!(errors[0].point_index, Some(1));
    assert_eq!(errors[0].position.map(|(x, _)| x), Some(100.0));
    assert_eq!(errors[0].position, Some((100.0, 0.0)));
    assert_eq!(
        errors[0].message,
        "Contour 0, point 1: expected Line, got OffCurve in 'Bold'"
    );
}

#[test]
fn reports_missing_glyph() {
    let reference = glyph_with_point_types(&[PointType::Move]);

    let errors = check_compat("A", &reference, &[("Bold".to_string(), None)]);

    assert_eq!(errors.len(), 1);
    assert_eq!(errors[0].position, None);
    assert!(matches!(errors[0].kind, CompatErrorKind::MissingGlyph));
    assert_eq!(errors[0].message, "Glyph 'A' missing from 'Bold'");
}

#[test]
fn reports_count_mismatches_in_master_order() {
    let reference = vec![
        vec![(PointType::Move, (5.0, 6.0)), (PointType::Line, (7.0, 8.0))],
        vec![(PointType::Curve, (9.0, 1.0))],
    ];
    let errors = check_compat(
        "B",
        &reference,
        &[
            ("Light".to_string(), Some(vec![vec![PointType::Move]])),
            (
                "Bold".to_string(),
                Some(vec![vec![PointType::Move], vec![PointType::QCurve]]),
            ),
        ],
    );
    assert_eq!(errors.len(), 3);
    assert!(matches!(errors[0].kind, CompatErrorKind::ContourCountMismatch));
    assert_eq!(errors[0].message, "Contour count: expected 2, got 1 in 'Light'");
    assert_eq!(errors[0].expected.as_deref(), Some("2"));
    assert_eq!(errors[0].actual.as_deref(), Some("1"));
    assert!(matches!(errors[1].kind, CompatErrorKind::PointCountMismatch));
    assert_eq!(errors[1].message, "Contour 0: expected 2 points, got 1 in 'Bold'");
    assert_eq!(errors[1].contour_index, Some(0));
    assert_eq!(errors[1].position, Some((5.0, 6.0)));
    assert_eq!(errors[0].position, None);
    assert!(matches!(errors[2].kind, CompatErrorKind::PointTypeMismatch));
    assert_eq!(errors[2].expected.as_deref(), Some("Curve"));
    assert_eq!(errors[2].actual.as_deref(), Some("QCurve"));
    assert_eq!(errors[2].position, Some((9.0, 1.0)));
}

#[test]
fn point_type_compatibility_table() {
    assert!(point_types_compatible(&PointType::Line, &PointType::Curve));
    assert!(point_types_compatible(&PointType::Curve, &PointType::Line));
    assert!(point_types_compatible(&PointType::QCurve, &PointType::QCurve));
    assert!(!point_types_compatible(&PointType::Line, &PointType::OffCurve));
    assert!(!point_types_compatible(&PointType::Move, &PointType::Line));
}
