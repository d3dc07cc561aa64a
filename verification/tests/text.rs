use runebender_web::text::{shaped_glyph_name, TextBuffer, TextDirection, TextSort, TextSortKind};

fn active_indices(buffer: &TextBuffer<f64>) -> Vec<usize> {
    buffer
        .sorts()
        .iter()
        .enumerate()
        .filter_map(|(index, sort)| sort.active.then_some(index))
        .collect()
}

#[test]
fn insert_glyph_moves_cursor_and_sets_active_sort() {
    let mut buffer = TextBuffer::new();
    buffer.insert_glyph("A", Some('A'), 600.0);
    buffer.insert_glyph("B", Some('B'), 610.0);

    assert_eq!(buffer.len(), 2);
    assert_eq!(buffer.cursor(), 2);
    assert_eq!(buffer.active_sort(), Some(1));
    assert_eq!(
        buffer.sorts().iter().last().and_then(TextSort::glyph_name),
        Some("B")
    );
}

#[test]
fn insert_inactive_glyph_preserves_active_sort() {
    let mut buffer = TextBuffer::new();
    buffer.insert_glyph("A", Some('A'), 600.0);
    buffer.set_cursor(0);
    buffer.insert_inactive_glyph("B", Some('B'), 610.0);

    assert_eq!(buffer.len(), 2);
    assert_eq!(buffer.cursor(), 1);
    assert_eq!(buffer.active_sort(), Some(1));
    assert_eq!(buffer.sort(0).and_then(TextSort::glyph_name), Some("B"));
    assert_eq!(buffer.sort(1).and_then(TextSort::glyph_name), Some("A"));
}

#[test]
fn activate_sort_preserves_cursor_position() {
    let mut buffer = TextBuffer::new();
    buffer.insert_glyph("A", Some('A'), 600.0);
    buffer.insert_glyph("B", Some('B'), 610.0);
    buffer.set_cursor(0);

    assert!(buffer.activate_sort(1));

    assert_eq!(buffer.active_sort(), Some(1));
    assert_eq!(buffer.cursor(), 0);
}

#[test]
fn active_sort_flags_remain_unique_after_switch_and_insert() {
    let mut buffer = TextBuffer::new();
    buffer.insert_glyph("A", Some('A'), 600.0);
    buffer.insert_glyph("B", Some('B'), 610.0);
    buffer.insert_glyph("C", Some('C'), 620.0);

    assert!(buffer.activate_sort(0));
    assert_eq!(active_indices(&buffer), vec![0]);

    assert!(buffer.activate_sort(2));
    assert_eq!(active_indices(&buffer), vec![2]);

    buffer.set_cursor(0);
    buffer.insert_glyph("D", Some('D'), 630.0);
    assert_eq!(active_indices(&buffer), vec![0]);
}

#[test]
fn clear_resets_direction_like_fresh_xilem_session() {
    let mut buffer = TextBuffer::new();
    buffer.set_direction(TextDirection::RightToLeft);
    buffer.insert_glyph("A", Some('A'), 600.0);

    buffer.clear();

    assert_eq!(buffer.direction(), TextDirection::LeftToRight);
    assert_eq!(buffer.len(), 0);
    assert_eq!(buffer.cursor(), 0);
    assert_eq!(buffer.active_sort(), None);
}

#[test]
fn delete_before_cursor_updates_active_sort() {
    let mut buffer = TextBuffer::new();
    buffer.insert_glyph("A", Some('A'), 600.0);
    buffer.insert_glyph("B", Some('B'), 610.0);
    buffer.activate_sort(1);
    buffer.set_cursor(1);

    let deleted = buffer.delete_before_cursor();

    assert_eq!(deleted.as_ref().and_then(TextSort::glyph_name), Some("A"));
    assert_eq!(buffer.cursor(), 0);
    assert_eq!(buffer.active_sort(), Some(0));
}

#[test]
fn delete_before_cursor_clears_deleted_active_sort_like_xilem() {
    let mut buffer = TextBuffer::new();
    buffer.insert_glyph("A", Some('A'), 600.0);
    buffer.insert_glyph("B", Some('B'), 610.0);
    buffer.insert_glyph("C", Some('C'), 620.0);
    buffer.activate_sort(1);
    buffer.set_cursor(2);

    let deleted = buffer.delete_before_cursor();

    assert_eq!(deleted.as_ref().and_then(TextSort::glyph_name), Some("B"));
    assert_eq!(buffer.cursor(), 1);
    assert_eq!(buffer.active_sort(), None);
    assert_eq!(buffer.sort(0).and_then(TextSort::glyph_name), Some("A"));
    assert_eq!(buffer.sort(1).and_then(TextSort::glyph_name), Some("C"));
    assert!(!buffer.sorts().iter().any(|sort| sort.active));
}

#[test]
fn delete_after_cursor_clears_deleted_active_sort_like_xilem() {
    let mut buffer = TextBuffer::new();
    buffer.insert_glyph("A", Some('A'), 600.0);
    buffer.insert_glyph("B", Some('B'), 610.0);
    buffer.insert_glyph("C", Some('C'), 620.0);
    buffer.activate_sort(1);
    buffer.set_cursor(1);

    let deleted = buffer.delete_after_cursor();

    assert_eq!(deleted.as_ref().and_then(TextSort::glyph_name), Some("B"));
    assert_eq!(buffer.cursor(), 1);
    assert_eq!(buffer.active_sort(), None);
    assert_eq!(buffer.sort(0).and_then(TextSort::glyph_name), Some("A"));
    assert_eq!(buffer.sort(1).and_then(TextSort::glyph_name), Some("C"));
    assert!(!buffer.sorts().iter().any(|sort| sort.active));
}

#[test]
fn line_break_preserves_active_sort() {
    let mut buffer = TextBuffer::new();
    buffer.insert_glyph("A", Some('A'), 600.0);
    buffer.insert_line_break();

    assert_eq!(buffer.len(), 2);
    assert_eq!(buffer.cursor(), 2);
    assert_eq!(buffer.active_sort(), Some(0));
}

#[test]
fn line_break_before_active_shifts_active_sort_like_xilem() {
    let mut buffer = TextBuffer::new();
    buffer.insert_glyph("A", Some('A'), 600.0);
    buffer.insert_glyph("B", Some('B'), 610.0);
    buffer.activate_sort(1);
    buffer.set_cursor(1);

    buffer.insert_line_break();

    assert_eq!(buffer.cursor(), 2);
    assert_eq!(buffer.active_sort(), Some(2));
    assert_eq!(buffer.sort(0).and_then(TextSort::glyph_name), Some("A"));
    assert!(matches!(
        buffer.sort(1).map(|sort| &sort.kind),
        Some(TextSortKind::LineBreak)
    ));
    assert_eq!(buffer.sort(2).and_then(TextSort::glyph_name), Some("B"));
    assert!(buffer.sort(2).is_some_and(|sort| sort.active));
}

#[test]
fn visual_cursor_movement_respects_direction() {
    let mut buffer = TextBuffer::new();
    buffer.insert_glyph("A", Some('A'), 600.0);
    buffer.insert_glyph("B", Some('B'), 600.0);

    buffer.move_cursor_visual_left();
    assert_eq!(buffer.cursor(), 1);

    buffer.set_direction(TextDirection::RightToLeft);
    buffer.move_cursor_visual_left();
    assert_eq!(buffer.cursor(), 2);
    buffer.move_cursor_visual_right();
    assert_eq!(buffer.cursor(), 1);
}

#[test]
fn update_glyph_changes_existing_sort_metadata() {
    let mut buffer = TextBuffer::new();
    buffer.insert_glyph("beh-ar", Some('\u{0628}'), 500.0);

    assert!(buffer.update_glyph(0, "beh-ar.init", Some('\u{0628}'), 480.0));

    let sort = buffer.sort(0).expect("sort exists");
    let TextSortKind::Glyph {
        name,
        advance_width,
        ..
    } = &sort.kind
    else {
        panic!("expected glyph sort");
    };
    assert_eq!(name, "beh-ar.init");
    assert_eq!(*advance_width, 480.0);
    assert!(sort.active);
}

#[test]
fn set_direction_only_changes_direction_like_xilem() {
    let mut buffer = TextBuffer::new();
    buffer.insert_glyph("A", Some('A'), 500.0);
    buffer.set_direction(TextDirection::RightToLeft);

    assert_eq!(buffer.direction(), TextDirection::RightToLeft);
    assert_eq!(buffer.len(), 1);
    assert_eq!(buffer.active_sort(), Some(0));
}

#[test]
fn manual_kerning_enters_noop_session_after_line_break_like_xilem() {
    let mut buffer = TextBuffer::new();
    buffer.insert_glyph("A", Some('A'), 500.0);
    buffer.insert_line_break();
    buffer.insert_glyph("B", Some('B'), 500.0);

    assert!(buffer.begin_manual_kerning(2));
    assert_eq!(buffer.manual_kerning_sort(), Some(2));
    assert_eq!(buffer.active_sort(), Some(2));
    assert!(!buffer.begin_manual_kerning(0));
    assert!(!buffer.begin_manual_kerning(1));
    assert!(buffer.end_manual_kerning());
}

#[test]
fn structural_text_edits_cancel_manual_kerning() {
    let mut buffer = TextBuffer::new();
    buffer.insert_glyph("A", Some('A'), 500.0);
    buffer.insert_glyph("V", Some('V'), 500.0);

    assert!(buffer.begin_manual_kerning(1));
    assert_eq!(buffer.manual_kerning_sort(), Some(1));
    buffer.set_cursor(1);
    assert!(buffer.delete_after_cursor().is_some());
    assert_eq!(buffer.manual_kerning_sort(), None);

    buffer.insert_glyph("V", Some('V'), 500.0);
    assert!(buffer.begin_manual_kerning(1));
    buffer.clear();
    assert_eq!(buffer.manual_kerning_sort(), None);
}

#[test]
fn update_glyph_keeps_manual_kerning_like_xilem_width_edit() {
    let mut buffer = TextBuffer::new();
    buffer.insert_glyph("A", Some('A'), 500.0);
    buffer.insert_glyph("V", Some('V'), 500.0);

    assert!(buffer.begin_manual_kerning(1));
    assert!(buffer.update_glyph(1, "V", Some('V'), 520.0));

    assert_eq!(buffer.manual_kerning_sort(), Some(1));
    let TextSortKind::Glyph { advance_width, .. } = &buffer.sort(1).expect("sort exists").kind else {
        panic!("expected glyph sort");
    };
    assert_eq!(*advance_width, 520.0);
}

#[test]
fn line_breaks_backspaces_and_inserts_cancel_manual_kerning() {
    let mut buffer = TextBuffer::new();
    buffer.insert_glyph("A", Some('A'), 500.0);
    buffer.insert_glyph("B", Some('B'), 500.0);

    assert!(buffer.begin_manual_kerning(1));
    buffer.insert_line_break();
    assert_eq!(buffer.manual_kerning_sort(), None);

    assert!(buffer.begin_manual_kerning(1));
    buffer.delete_before_cursor();
    assert_eq!(buffer.manual_kerning_sort(), None);

    assert!(buffer.begin_manual_kerning(1));
    buffer.insert_inactive_glyph("C", Some('C'), 500.0);
    assert_eq!(buffer.manual_kerning_sort(), None);
    assert!(!buffer.end_manual_kerning());
}

#[test]
fn insert_then_backspace_restores_the_buffer() {
    let mut buffer = TextBuffer::new();
    buffer.insert_glyph("A", Some('A'), 500.0);
    buffer.insert_glyph("B", Some('B'), 510.0);
    buffer.set_cursor(1);
    let before = buffer.clone();
    buffer.insert_inactive_glyph("C", Some('C'), 520.0);
    buffer.delete_before_cursor();
    assert_eq!(buffer, before);
}

#[test]
fn cursor_moves_stop_at_the_ends() {
    let mut buffer: TextBuffer<f64> = TextBuffer::new();
    buffer.move_cursor_left();
    assert_eq!(buffer.cursor(), 0);
    buffer.insert_line_break();
    buffer.move_cursor_right();
    assert_eq!(buffer.cursor(), 1);
    buffer.set_cursor(99);
    assert_eq!(buffer.cursor(), 1);
    assert!(buffer.delete_after_cursor().is_none());
    buffer.set_cursor(0);
    assert!(buffer.delete_before_cursor().is_none());
    assert!(!buffer.activate_sort(0), "a line break cannot be active");
}

#[test]
fn line_ranges_and_character_indices() {
    let mut buffer = TextBuffer::new();
    buffer.insert_glyph("A", Some('A'), 500.0);
    buffer.insert_glyph("B", None, 500.0);
    buffer.insert_line_break();
    buffer.insert_glyph("C", Some('C'), 500.0);

    assert_eq!(buffer.next_line_end(0), 2);
    assert_eq!(buffer.next_line_end(3), 4);
    assert_eq!(buffer.line_range_for_number(0), (0, 2));
    assert_eq!(buffer.line_range_for_number(1), (3, 4));
    assert_eq!(buffer.line_range_for_number(7), (3, 4));
    assert_eq!(buffer.char_index_for_sort_index(3), 1);
    assert_eq!(buffer.char_index_for_sort_index(4), 2);
    assert_eq!(buffer.glyph_chars(), vec!['A', 'C']);
}

#[test]
fn shaping_neighbours_around_an_edit() {
    let mut buffer = TextBuffer::new();
    for name in ["a", "b", "c", "d", "e"] {
        buffer.insert_glyph(name, None, 500.0);
    }
    let joining = [true, false, true, true, true];
    assert_eq!(buffer.shape_indices_around(2, &joining), vec![0, 2, 3]);
    assert_eq!(buffer.shape_indices_around(0, &joining), vec![0, 2]);
    assert_eq!(buffer.shape_indices_around(5, &joining), vec![4]);
}

#[test]
fn shaped_names_take_positional_suffixes_only_in_rtl_arabic() {
    assert_eq!(shaped_glyph_name("beh-ar", TextDirection::RightToLeft, true, ".init", true), "beh-ar.init");
    assert_eq!(shaped_glyph_name("beh-ar", TextDirection::RightToLeft, true, ".init", false), "beh-ar");
    assert_eq!(shaped_glyph_name("beh-ar", TextDirection::LeftToRight, true, ".init", true), "beh-ar");
    assert_eq!(shaped_glyph_name("A", TextDirection::RightToLeft, false, ".init", true), "A");
    assert_eq!(shaped_glyph_name("beh-ar", TextDirection::RightToLeft, true, "", true), "beh-ar");
}
