use runebender_web::editor::{EditorState, Path, PathKind, SegmentSplit};
use runebender_web::outline::{EntityId, PathPoint, PointType};

type Pt = (f64, f64);

fn on_curve(id: u64, x: f64, y: f64, smooth: bool) -> PathPoint<Pt> {
    PathPoint { id: EntityId(id), point: (x, y), typ: PointType::OnCurve { smooth } }
}

fn off_curve(id: u64, x: f64, y: f64) -> PathPoint<Pt> {
    PathPoint { id: EntityId(id), point: (x, y), typ: PointType::OffCurve { auto: false } }
}

fn cubic(points: Vec<PathPoint<Pt>>, closed: bool) -> Path<Pt> {
    Path { kind: PathKind::Cubic, closed, points }
}

#[test]
fn toggle_point_type_flips_selected_on_curve_points() {
    let mut state = EditorState::new();
    let selected = on_curve(1, 0.0, 0.0, false);
    state.paths.push(cubic(vec![selected, on_curve(2, 100.0, 0.0, false)], false));
    state.selection.insert(EntityId(1));

    assert!(state.toggle_point_type());

    let point = state.paths[0].points[0];
    assert!(matches!(point.typ, PointType::OnCurve { smooth: true }));
    assert!(matches!(state.paths[0].points[1].typ, PointType::OnCurve { smooth: false }));
    assert_eq!(state.edit_revision(), 1);
}

#[test]
fn toggle_point_type_without_selected_on_curve_changes_nothing() {
    let mut state = EditorState::new();
    state.paths.push(cubic(vec![on_curve(1, 0.0, 0.0, false), off_curve(2, 5.0, 5.0)], false));
    assert!(!state.toggle_point_type());
    state.selection.insert(EntityId(2));
    assert!(!state.toggle_point_type());
    assert_eq!(state.edit_revision(), 0);
}

#[test]
fn cycle_selected_point_moves_forward_in_outline_order() {
    let mut state = EditorState::new();
    state.paths.push(cubic(
        vec![on_curve(1, 0.0, 0.0, false), off_curve(2, 50.0, 50.0), on_curve(3, 100.0, 0.0, false)],
        false,
    ));
    state.selection.insert(EntityId(1));

    assert!(state.cycle_selected_point(false));
    assert!(!state.selection.contains(&EntityId(1)));
    assert!(state.selection.contains(&EntityId(2)));

    assert!(state.cycle_selected_point(false));
    assert!(!state.selection.contains(&EntityId(2)));
    assert!(state.selection.contains(&EntityId(3)));
}

#[test]
fn cycle_selected_point_moves_backward_and_wraps() {
    let mut state = EditorState::new();
    state.paths.push(cubic(vec![on_curve(1, 0.0, 0.0, false), on_curve(2, 100.0, 0.0, false)], false));
    state.selection.insert(EntityId(1));

    assert!(state.cycle_selected_point(true));
    assert!(!state.selection.contains(&EntityId(1)));
    assert!(state.selection.contains(&EntityId(2)));
}

#[test]
fn cycle_crosses_contours_and_round_trips() {
    let mut state = EditorState::new();
    assert!(!state.cycle_selected_point(false));
    state.paths.push(cubic(vec![on_curve(1, 0.0, 0.0, false), on_curve(2, 1.0, 0.0, false)], false));
    state.paths.push(cubic(vec![on_curve(3, 0.0, 5.0, false)], false));
    // nothing selected: forward picks the first point, backwards the last
    assert!(state.cycle_selected_point(true));
    assert!(state.selection.contains(&EntityId(3)));
    assert!(state.cycle_selected_point(false));
    assert!(state.selection.contains(&EntityId(1)));
    assert_eq!(state.selection.len(), 1);
    state.selection.insert(EntityId(2));
    assert!(state.cycle_selected_point(false));
    assert!(state.selection.contains(&EntityId(3)));
    assert!(state.cycle_selected_point(true));
    assert!(state.selection.contains(&EntityId(2)));
    assert_eq!(state.selection.len(), 1);
    assert_eq!(state.edit_revision(), 0);
}

#[test]
fn delete_selection_removes_paired_cubic_offcurve_handle() {
    let mut state = EditorState::new();
    state.paths.push(cubic(
        vec![
            on_curve(1, 0.0, 0.0, false),
            off_curve(2, 30.0, 0.0),
            off_curve(3, 70.0, 0.0),
            on_curve(4, 100.0, 0.0, false),
        ],
        false,
    ));
    state.selection.insert(EntityId(2));

    assert!(state.delete_selection());

    let remaining = &state.paths[0].points;
    assert_eq!(remaining.len(), 2);
    assert!(remaining.iter().all(|point| point.is_on_curve()));
    assert_eq!(state.selection.len(), 0);
}

#[test]
fn delete_selection_drops_short_contours_and_reports_no_change() {
    let mut state = EditorState::new();
    assert!(!state.delete_selection());
    state.paths.push(cubic(vec![on_curve(1, 0.0, 0.0, false), on_curve(2, 1.0, 0.0, false)], false));
    state.paths.push(cubic(
        vec![on_curve(3, 0.0, 0.0, false), on_curve(4, 1.0, 0.0, false), on_curve(5, 1.0, 1.0, false)],
        true,
    ));
    state.selection.insert(EntityId(99));
    assert!(!state.delete_selection());
    assert_eq!(state.paths.len(), 2);
    assert!(state.selection.contains(&EntityId(99)));
    state.selection.insert(EntityId(1));
    state.selection.insert(EntityId(5));
    assert!(state.delete_selection());
    assert_eq!(state.paths.len(), 1);
    assert_eq!(state.paths[0].points.len(), 2);
    assert_eq!(state.paths[0].points[0].id, EntityId(3));
    assert!(state.selection.is_empty());
    assert_eq!(state.edit_revision(), 1);
}

#[test]
fn reverse_contours_reverses_path_order() {
    let mut state = EditorState::new();
    state.paths.push(cubic(
        vec![on_curve(1, 0.0, 0.0, false), on_curve(2, 100.0, 0.0, false), on_curve(3, 100.0, 100.0, false)],
        true,
    ));

    assert!(state.reverse_contours());

    let points = &state.paths[0].points;
    assert_eq!(points[0].point, (100.0, 100.0));
    assert_eq!(points[2].point, (0.0, 0.0));
    assert!(state.reverse_contours());
    assert_eq!(state.paths[0].points[0].point, (0.0, 0.0));
    assert!(state.reverse_contour(0));
    assert_eq!(state.paths[0].points[0].id, EntityId(3));
    assert!(!state.reverse_contour(1));
    assert!(!EditorState::<Pt>::new().reverse_contours());
}

#[test]
fn selected_contour_count_counts_contours_not_points() {
    let mut state = EditorState::new();
    state.paths.push(cubic(
        vec![on_curve(1, 0.0, 0.0, false), on_curve(2, 100.0, 0.0, false), on_curve(3, 100.0, 100.0, false)],
        true,
    ));
    state.paths.push(cubic(
        vec![on_curve(4, 200.0, 0.0, false), on_curve(5, 300.0, 0.0, false), on_curve(6, 300.0, 100.0, false)],
        true,
    ));

    state.selection.insert(EntityId(1));
    state.selection.insert(EntityId(2));
    assert_eq!(state.selected_contour_count(), 1);

    state.selection.insert(EntityId(4));
    assert_eq!(state.selected_contour_count(), 2);
    assert_eq!(state.selected_point_path_indices(), vec![0, 1]);
}

#[test]
fn selected_point_path_move_indices_follow_handles() {
    let mut state = EditorState::new();
    state.paths.push(cubic(
        vec![on_curve(1, 0.0, 0.0, false), off_curve(2, 0.0, 10.0), off_curve(3, 10.0, 10.0), on_curve(4, 10.0, 0.0, false)],
        false,
    ));
    state.paths.push(cubic(vec![on_curve(5, 0.0, 0.0, false), on_curve(6, 1.0, 0.0, false)], false));
    assert!(state.selected_point_path_move_indices(false).is_empty());
    state.selection.insert(EntityId(4));
    assert_eq!(state.selected_point_path_move_indices(false), vec![(0, vec![3, 2])]);
    assert_eq!(state.selected_point_path_move_indices(true), vec![(0, vec![3])]);
    state.selection.insert(EntityId(6));
    assert_eq!(state.selected_point_path_indices(), vec![0, 1]);
}

#[test]
fn move_contour_swaps_order_and_clears_selection() {
    let mut state = EditorState::new();
    state.paths.push(cubic(vec![on_curve(1, 0.0, 0.0, false)], false));
    state.paths.push(cubic(vec![on_curve(2, 200.0, 0.0, false)], false));
    state.selection.insert(EntityId(1));

    assert!(state.move_contour(1, -1));

    let first = state.paths[0].points[0];
    assert_eq!(first.point, (200.0, 0.0));
    assert!(state.selection.is_empty());
    assert!(!state.move_contour(0, -1));
    assert!(!state.move_contour(1, 1));
    assert!(state.move_contour(0, 1));
    assert_eq!(state.paths[0].points[0].id, EntityId(1));
}

#[test]
fn set_start_point_at_rotates_closed_contour() {
    let mut state = EditorState::new();
    state.paths.push(cubic(
        vec![on_curve(1, 0.0, 0.0, false), on_curve(2, 100.0, 0.0, false), on_curve(3, 100.0, 100.0, false)],
        true,
    ));

    // the on-curve point at (100, 0) is the contour's second point
    assert!(state.set_start_point(0, 1));

    let points = &state.paths[0].points;
    assert_eq!(points[0].point, (100.0, 0.0));
    assert_eq!(points[2].point, (0.0, 0.0));
    assert!(!state.set_start_point(0, 0));
    assert!(!state.set_start_point(0, 3));
}

#[test]
fn contour_context_falls_back_to_selected_on_curve_point() {
    let mut state = EditorState::new();
    state.paths.push(cubic(
        vec![on_curve(1, 0.0, 0.0, false), on_curve(2, 100.0, 0.0, false), on_curve(3, 100.0, 100.0, false)],
        true,
    ));
    state.selection.insert(EntityId(2));

    let target = state
        .first_selected_on_curve_point()
        .expect("selected on-curve point should provide context");

    assert_eq!(target.path_index, 0);
    assert_eq!(target.point, (100.0, 0.0));
    assert!(target.can_set_start);
}

#[test]
fn copy_paste_selection_appends_fresh_selected_path() {
    let mut state = EditorState::new();
    state.paths.push(cubic(vec![on_curve(1, 0.0, 0.0, false), on_curve(2, 100.0, 0.0, false)], false));
    state.selection.insert(EntityId(1));
    state.selection.insert(EntityId(2));

    let clipboard = state.copy_selection().expect("selection copies");
    assert!(state.paste_paths(&clipboard, &[EntityId(10), EntityId(11)]));

    assert_eq!(state.paths.len(), 2);
    assert_eq!(state.selection.len(), 2);
    let pasted = &state.paths[1].points;
    assert!(pasted.iter().all(|point| state.selection.contains(&point.id)));
    assert!(pasted.iter().all(|point| point.id != EntityId(1) && point.id != EntityId(2)));
    assert!(state.paths[1].closed);
}

#[test]
fn copy_selection_takes_the_selected_span() {
    let mut state = EditorState::new();
    assert!(state.copy_selection().is_none());
    state.paths.push(cubic(
        vec![on_curve(1, 0.0, 0.0, false), off_curve(2, 0.0, 10.0), off_curve(3, 10.0, 10.0), on_curve(4, 10.0, 0.0, false)],
        true,
    ));
    state.selection.insert(EntityId(4));
    let copied = state.copy_selection().expect("span copies");
    assert_eq!(copied.len(), 1);
    assert!(!copied[0].closed);
    let ids: Vec<EntityId> = copied[0].points.iter().map(|p| p.id).collect();
    assert_eq!(ids, vec![EntityId(3), EntityId(4)]);
    assert!(!state.paste_paths(&[], &[]));
}

#[test]
fn select_segment_at_point_selects_curve_endpoints_and_handles() {
    let mut state = EditorState::new();
    state.paths.push(cubic(
        vec![
            on_curve(1, 0.0, 0.0, false),
            off_curve(2, 0.0, 100.0),
            off_curve(3, 100.0, 100.0),
            on_curve(4, 100.0, 0.0, false),
        ],
        false,
    ));

    // the curve segment nearest (50, 75) runs from point 0 to point 3
    assert_eq!(state.select_segment(0, 0, 3, false), Some(true));

    for id in [1, 2, 3, 4] {
        assert!(state.selection.contains(&EntityId(id)));
    }
    assert_eq!(state.selection.len(), 4);
}

#[test]
fn shift_clicking_selected_segment_removes_it_from_selection() {
    let mut state = EditorState::new();
    state.paths.push(cubic(vec![on_curve(1, 0.0, 0.0, false), on_curve(2, 100.0, 0.0, false)], false));

    assert_eq!(state.select_segment(0, 0, 1, false), Some(true));
    assert_eq!(state.select_segment(0, 0, 1, true), Some(false));

    assert!(state.selection.is_empty());
    assert_eq!(state.select_segment(0, 0, 1, true), Some(true));
    assert_eq!(state.selection.len(), 2);
    assert_eq!(state.select_segment(3, 0, 1, true), None);
}

#[test]
fn select_contour_selects_every_point() {
    let mut state = EditorState::new();
    state.paths.push(cubic(vec![on_curve(1, 0.0, 0.0, false), off_curve(2, 0.0, 1.0)], false));
    state.paths.push(cubic(vec![], false));
    assert!(state.select_contour(0));
    assert_eq!(state.selection.len(), 2);
    assert!(!state.select_contour(1));
    assert!(!state.select_contour(2));
    assert_eq!(state.selection.len(), 2);
}

#[test]
fn convert_line_segment_inserts_selected_cubic_handles() {
    let mut state = EditorState::new();
    state.paths.push(cubic(vec![on_curve(1, 0.0, 0.0, false), on_curve(2, 90.0, 0.0, false)], false));

    // the handles at a third and two thirds along the line from (0,0) to (90,0)
    assert!(state.convert_line_to_curve(0, 0, 1, (EntityId(10), EntityId(11)), ((30.0, 0.0), (60.0, 0.0))));

    let points = &state.paths[0].points;
    assert_eq!(points.len(), 4);
    assert!(points[1].is_off_curve());
    assert!(points[2].is_off_curve());
    assert_eq!(points[1].point, (30.0, 0.0));
    assert_eq!(points[2].point, (60.0, 0.0));
    assert!(state.selection.contains(&points[1].id));
    assert!(state.selection.contains(&points[2].id));
}

#[test]
fn insert_point_on_line_segment_selects_new_point() {
    let mut state = EditorState::new();
    state.paths.push(cubic(vec![on_curve(1, 0.0, 0.0, false), on_curve(2, 100.0, 0.0, false)], false));

    assert!(state.insert_point_on_segment(0, 0, 1, SegmentSplit::Line(EntityId(10), (50.0, 0.0))));

    let points = &state.paths[0].points;
    assert_eq!(points.len(), 3);
    assert_eq!(points[1].point, (50.0, 0.0));
    assert!(points[1].is_on_curve());
    assert!(state.selection.contains(&points[1].id));
}

#[test]
fn insert_point_on_cubic_segment_subdivides_handles() {
    let mut state = EditorState::new();
    state.paths.push(cubic(
        vec![
            on_curve(1, 0.0, 0.0, false),
            off_curve(2, 0.0, 100.0),
            off_curve(3, 100.0, 100.0),
            on_curve(4, 100.0, 0.0, false),
        ],
        false,
    ));

    let split = SegmentSplit::Cubic([
        (EntityId(10), (0.0, 50.0)),
        (EntityId(11), (26.0, 76.0)),
        (EntityId(12), (50.0, 76.0)),
        (EntityId(13), (76.0, 76.0)),
        (EntityId(14), (100.0, 50.0)),
    ]);
    assert!(state.insert_point_on_segment(0, 0, 3, split));

    let points = &state.paths[0].points;
    assert_eq!(points.len(), 7);
    assert!(points[1].is_off_curve());
    assert!(points[2].is_off_curve());
    assert!(points[3].is_on_curve());
    assert!(points[4].is_off_curve());
    assert!(points[5].is_off_curve());
    assert!(state.selection.contains(&points[3].id));
    assert_eq!(points[6].id, EntityId(4));
}

#[test]
fn insert_point_on_quadratic_segment_subdivides_handle() {
    let mut state = EditorState::new();
    state.paths.push(Path {
        kind: PathKind::Quadratic,
        closed: false,
        points: vec![on_curve(1, 0.0, 0.0, false), off_curve(2, 50.0, 100.0), on_curve(3, 100.0, 0.0, false)],
    });

    let split = SegmentSplit::Quadratic([
        (EntityId(10), (26.0, 50.0)),
        (EntityId(11), (50.0, 50.0)),
        (EntityId(12), (76.0, 50.0)),
    ]);
    assert!(state.insert_point_on_segment(0, 0, 2, split));

    let points = &state.paths[0].points;
    assert_eq!(points.len(), 5);
    assert!(points[1].is_off_curve());
    assert!(points[2].is_on_curve());
    assert!(points[3].is_off_curve());
    assert!(state.selection.contains(&points[2].id));
    // a cubic split does not fit a quadratic contour
    let cubic_split = SegmentSplit::Cubic([(EntityId(20), (0.0, 0.0)); 5]);
    assert!(!state.insert_point_on_segment(0, 0, 1, cubic_split));
}

#[test]
fn pen_tool_builds_and_closes_a_contour() {
    let mut state = EditorState::new();
    let index = state.start_pen_path(EntityId(1), (0.0, 0.0));
    assert_eq!(index, 0);
    assert_eq!(state.pen_path_len(0), Some(1));
    assert_eq!(state.append_pen_point(0, EntityId(2), (10.0, 0.0)), Some(EntityId(2)));
    assert!(state.selection.contains(&EntityId(2)));
    assert_eq!(state.selection.len(), 1);
    assert!(!state.close_pen_path(0));
    assert_eq!(state.append_pen_point(0, EntityId(3), (10.0, 10.0)), Some(EntityId(3)));
    assert_eq!(state.pen_path_start(0), Some((0.0, 0.0)));
    assert_eq!(state.pen_path_last_on_curve(0), Some((10.0, 10.0)));
    assert!(state.close_pen_path(0));
    assert_eq!(state.selection.len(), 3);
    assert_eq!(state.append_pen_point(0, EntityId(4), (5.0, 5.0)), None);
    assert_eq!(state.pen_path_len(1), None);
    assert_eq!(state.edit_revision(), 4);
    assert!(state.remove_tool_path(0));
    assert!(!state.remove_tool_path(0));
    assert!(state.paths.is_empty());
}

#[test]
fn smooth_pen_points_extend_open_contours() {
    let mut state = EditorState::new();
    let ids = (EntityId(1), EntityId(2), EntityId(3));
    let index = state.append_smooth_pen_point(None, ids, ((-5.0, 0.0), (0.0, 0.0), (5.0, 0.0)));
    assert_eq!(index, 0);
    assert_eq!(state.paths[0].points.len(), 2);
    assert_eq!(state.paths[0].points[0].id, EntityId(2));
    assert!(matches!(state.paths[0].points[0].typ, PointType::OnCurve { smooth: true }));
    assert_eq!(state.selection.len(), 2);
    let ids = (EntityId(4), EntityId(5), EntityId(6));
    assert_eq!(state.append_smooth_pen_point(Some(0), ids, ((15.0, 5.0), (20.0, 5.0), (25.0, 5.0))), 0);
    assert_eq!(state.paths[0].points.len(), 5);
    assert_eq!(state.selection.len(), 3);
    assert!(state.update_last_smooth_pen_handles(0, ((14.0, 4.0), (21.0, 6.0), (28.0, 8.0))));
    assert_eq!(state.paths[0].points[2].point, (14.0, 4.0));
    assert_eq!(state.paths[0].points[4].point, (28.0, 8.0));
    assert_eq!(state.pen_path_last_on_curve(0), Some((21.0, 6.0)));
    assert!(!state.update_last_smooth_pen_handles(3, ((0.0, 0.0), (0.0, 0.0), (0.0, 0.0))));
}

#[test]
fn tool_paths_replace_and_push() {
    let mut state = EditorState::new();
    assert!(!state.replace_paths_from_tool(vec![]));
    state.push_path_and_select(cubic(vec![on_curve(1, 0.0, 0.0, false), on_curve(2, 1.0, 0.0, false)], false));
    assert_eq!(state.selection.len(), 2);
    assert!(state.replace_paths_from_tool(vec![cubic(vec![on_curve(3, 0.0, 0.0, false)], true)]));
    assert_eq!(state.paths.len(), 1);
    assert!(state.selection.is_empty());
    assert_eq!(state.edit_revision(), 2);
}

#[test]
fn snap_targets_take_in_adjacent_handles() {
    let mut state = EditorState::new();
    state.paths.push(cubic(
        vec![off_curve(1, -5.0, 0.0), on_curve(2, 0.0, 0.0, true), off_curve(3, 5.0, 0.0), on_curve(4, 9.0, 0.0, false)],
        true,
    ));
    state.selection.insert(EntityId(2));
    let bare = state.snap_target_ids(false);
    assert_eq!(bare.len(), 1);
    let with_handles = state.snap_target_ids(true);
    assert_eq!(with_handles.len(), 3);
    assert!(with_handles.contains(&EntityId(1)));
    assert!(with_handles.contains(&EntityId(3)));
    assert!(!with_handles.contains(&EntityId(4)));
}

#[test]
fn default_state_is_empty() {
    let state: EditorState<Pt> = EditorState::default();
    assert!(state.paths.is_empty());
    assert!(state.selection.is_empty());
    assert_eq!(state.edit_revision(), 0);
    assert_eq!(state.selected_contour_count(), 0);
    assert!(state.first_selected_on_curve_point().is_none());
}
