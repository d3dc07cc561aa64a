use runebender_web::outline::{
    all_distinct, cubic_partner_offcurve_ids, extract_selected_points, fix_on_curve_smoothness,
    next_index, points_between_indices, previous_index, push_unique_index,
    replace_segment_interior, retain_points_after_deletion, reverse_points,
    segment_point_indices, selected_and_adjacent_handle_indices, selected_move_indices,
    toggle_point_type_in_points, EntityId, PathPoint, PointType, Selection,
};
use runebender_web::editor::{Path, PathKind};
use runebender_web::signature::{
    path_outline_signature, FNV_OFFSET, hash_outline_part, path_selection_signature, point_type_signature, EditControlsGeometryCapacity,
};

fn on(id: u64, x: i32) -> PathPoint<i32> {
    PathPoint { id: EntityId(id), point: x, typ: PointType::OnCurve { smooth: false } }
}

fn off(id: u64, x: i32) -> PathPoint<i32> {
    PathPoint { id: EntityId(id), point: x, typ: PointType::OffCurve { auto: false } }
}

fn select(ids: &[u64]) -> Selection {
    let mut selection = Selection::new();
    for id in ids {
        selection.insert(EntityId(*id));
    }
    selection
}

#[test]
fn neighbour_indices_wrap_only_when_closed() {
    assert_eq!(previous_index(0, 4, false), None);
    assert_eq!(previous_index(0, 4, true), Some(3));
    assert_eq!(next_index(3, 4, false), None);
    assert_eq!(next_index(3, 4, true), Some(0));
    assert_eq!(next_index(1, 4, false), Some(2));
    assert_eq!(previous_index(0, 0, true), None);
}

#[test]
fn segment_indices_walk_forward_around_the_contour() {
    assert_eq!(segment_point_indices(6, 1, 4), vec![1, 2, 3, 4]);
    assert_eq!(segment_point_indices(6, 4, 1), vec![4, 5, 0, 1]);
    assert_eq!(segment_point_indices(6, 2, 2), vec![2]);
    assert_eq!(segment_point_indices(6, 6, 1), Vec::<usize>::new());
    assert_eq!(points_between_indices(1, 4, 6), 2);
    assert_eq!(points_between_indices(4, 1, 6), 2);
    assert_eq!(points_between_indices(0, 0, 0), 0);
}

#[test]
fn distinct_and_unique_indices() {
    assert!(all_distinct(&[3, 1, 2]));
    assert!(!all_distinct(&[3, 1, 3]));
    let mut v = vec![1, 2];
    push_unique_index(&mut v, 2);
    push_unique_index(&mut v, 5);
    assert_eq!(v, vec![1, 2, 5]);
}

#[test]
fn moving_a_selected_on_curve_point_takes_its_handles() {
    let points = vec![on(1, 0), off(2, 1), off(3, 2), on(4, 3), off(5, 4), off(6, 5)];
    let selection = select(&[4]);
    let (moves, selected) =
        selected_and_adjacent_handle_indices(&points, &selection, true).expect("selection");
    assert_eq!(moves, vec![3, 2, 4]);
    assert_eq!(selected, vec![3]);
    assert_eq!(selected_move_indices(&points, &selection, true, true), vec![3]);
    let first = select(&[1]);
    assert_eq!(selected_move_indices(&points, &first, true, false), vec![0, 5, 1]);
    assert_eq!(selected_move_indices(&points, &first, false, false), vec![0, 1]);
    assert!(selected_and_adjacent_handle_indices(&points, &select(&[]), true).is_none());
}

#[test]
fn deleting_a_handle_takes_its_partner() {
    let points = vec![on(1, 0), off(2, 1), off(3, 2), on(4, 3)];
    let selection = select(&[2]);
    assert_eq!(cubic_partner_offcurve_ids(&points, &selection), vec![EntityId(3)]);
    let mut cubic = points.clone();
    assert!(retain_points_after_deletion(&mut cubic, &selection, true));
    assert_eq!(cubic.iter().map(|p| p.id.0).collect::<Vec<_>>(), vec![1, 4]);
    let mut quadratic = points.clone();
    assert!(retain_points_after_deletion(&mut quadratic, &selection, false));
    assert_eq!(quadratic.len(), 3);
    let mut tiny = vec![on(1, 0), on(2, 1)];
    assert!(!retain_points_after_deletion(&mut tiny, &select(&[1]), true));
}

#[test]
fn toggling_flips_only_selected_on_curve_points() {
    let mut points = vec![on(1, 0), off(2, 1), on(3, 2)];
    assert!(toggle_point_type_in_points(&mut points, &select(&[1, 2])));
    assert_eq!(points[0].typ, PointType::OnCurve { smooth: true });
    assert_eq!(points[1].typ, PointType::OffCurve { auto: false });
    assert_eq!(points[2].typ, PointType::OnCurve { smooth: false });
    assert!(!toggle_point_type_in_points(&mut points, &select(&[2])));
}

#[test]
fn smoothness_follows_neighbouring_handles() {
    let mut points = vec![on(1, 0), off(2, 1), on(3, 2), off(4, 3)];
    fix_on_curve_smoothness(&mut points, true);
    assert_eq!(points[0].typ, PointType::OnCurve { smooth: true });
    assert_eq!(points[2].typ, PointType::OnCurve { smooth: true });
    fix_on_curve_smoothness(&mut points, false);
    assert_eq!(points[0].typ, PointType::OnCurve { smooth: false });
    assert_eq!(points[2].typ, PointType::OnCurve { smooth: true });
}

#[test]
fn extracting_the_selected_span() {
    let points = vec![on(1, 0), off(2, 1), off(3, 2), on(4, 3), off(5, 4), off(6, 5)];
    let span = extract_selected_points(&points, &select(&[1]), true).expect("span");
    assert_eq!(span.iter().map(|p| p.id.0).collect::<Vec<_>>(), vec![1, 2, 6]);
    assert!(extract_selected_points(&points, &select(&[2]), true).is_none());
}

#[test]
fn replacing_segment_interiors() {
    let mut points = vec![on(1, 0), off(2, 1), off(3, 2), on(4, 3)];
    replace_segment_interior(&mut points, 0, 3, vec![off(7, 7), on(8, 8), off(9, 9)]);
    assert_eq!(points.iter().map(|p| p.id.0).collect::<Vec<_>>(), vec![1, 7, 8, 9, 4]);
    let mut closing = vec![on(1, 0), on(2, 1), off(3, 2), off(4, 3)];
    replace_segment_interior(&mut closing, 1, 0, vec![off(9, 9)]);
    assert_eq!(closing.iter().map(|p| p.id.0).collect::<Vec<_>>(), vec![1, 2, 9]);
}

#[test]
fn reversing_points() {
    let mut points = vec![on(1, 0), off(2, 1), on(3, 2)];
    reverse_points(&mut points);
    assert_eq!(points.iter().map(|p| p.id.0).collect::<Vec<_>>(), vec![3, 2, 1]);
}

#[test]
fn signatures_follow_fnv() {
    assert_eq!(hash_outline_part(0, 1), 0x100000001b3);
    assert_eq!(
        hash_outline_part(0xcbf29ce484222325, 2),
        (0xcbf29ce484222325u64 ^ 2).wrapping_mul(0x100000001b3)
    );
    assert_eq!(point_type_signature(PointType::OnCurve { smooth: true }), 0x101);
    assert_eq!(point_type_signature(PointType::OffCurve { auto: true }), 1);
    let points = vec![on(1, 0), on(2, 1)];
    let none = path_selection_signature(&points, &select(&[]));
    let one = path_selection_signature(&points, &select(&[2]));
    assert_ne!(none, one);
    assert_eq!(one, path_selection_signature(&points, &select(&[2])));
    let mut capacity = EditControlsGeometryCapacity::new();
    let mut other = EditControlsGeometryCapacity::new();
    other.outline = 3;
    other.selected_squares = 2;
    capacity.add(other);
    capacity.add(other);
    assert_eq!(capacity.outline, 6);
    assert_eq!(capacity.selected_squares, 4);
}

#[test]
fn selection_is_a_set() {
    let mut selection = Selection::new();
    assert!(selection.insert(EntityId(4)));
    assert!(!selection.insert(EntityId(4)));
    assert!(selection.contains(&EntityId(4)));
    selection.clear();
    assert!(!selection.contains(&EntityId(4)));
}

#[test]
fn outline_signature_folds_kind_count_and_points() {
    let empty: Path<(u64, u64)> = Path { kind: PathKind::Quadratic, closed: true, points: vec![] };
    let expected = ((FNV_OFFSET ^ 2).wrapping_mul(0x100000001b3) ^ 0).wrapping_mul(0x100000001b3);
    let expected = (expected ^ 1).wrapping_mul(0x100000001b3);
    assert_eq!(path_outline_signature(&empty), expected);
    assert_eq!(hash_outline_part(FNV_OFFSET, 2), (FNV_OFFSET ^ 2).wrapping_mul(0x100000001b3));

    let point = PathPoint { id: EntityId(7), point: (1.5f64.to_bits(), 2.0f64.to_bits()), typ: PointType::OnCurve { smooth: true } };
    let a: Path<(u64, u64)> = Path { kind: PathKind::Cubic, closed: false, points: vec![point] };
    let moved = PathPoint { point: (1.5f64.to_bits(), 3.0f64.to_bits()), ..point };
    let b: Path<(u64, u64)> = Path { kind: PathKind::Cubic, closed: false, points: vec![moved] };
    assert_eq!(path_outline_signature(&a), path_outline_signature(&a.clone()));
    assert_ne!(path_outline_signature(&a), path_outline_signature(&b));
}
