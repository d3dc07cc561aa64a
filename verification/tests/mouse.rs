use runebender_web::mouse::{Modifiers, Mouse, MouseButton, MouseCall, MouseEvent};

fn names(calls: &[MouseCall<(i32, i32)>]) -> Vec<&'static str> {
    calls
        .iter()
        .map(|call| match call {
            MouseCall::ButtonDown(..) => "down",
            MouseCall::ButtonUp(..) => "up",
            MouseCall::Click(..) => "click",
            MouseCall::DragBegan(..) => "drag_began",
            MouseCall::DragChanged(..) => "drag_changed",
            MouseCall::DragEnded(..) => "drag_ended",
            MouseCall::Moved(..) => "moved",
            MouseCall::Cancel => "cancel",
        })
        .collect()
}

#[test]
fn press_and_release_is_a_click() {
    let mut mouse = Mouse::new((0, 0));
    let down = MouseEvent::new((5, 5), Some(MouseButton::Left));
    assert_eq!(names(&mouse.mouse_down(down)), vec!["down"]);
    assert!(mouse.is_active());
    assert!(mouse.track_pending_drag_move((6, 5), MouseButton::Left, false));
    assert_eq!(names(&mouse.mouse_moved(MouseEvent::new((6, 5), Some(MouseButton::Left)), false)), Vec::<&str>::new());
    let up = MouseEvent::new((6, 5), Some(MouseButton::Left));
    assert_eq!(names(&mouse.mouse_up(up)), vec!["up", "click"]);
    assert!(!mouse.is_active());
}

#[test]
fn drag_reports_start_previous_and_current_positions() {
    let mut mouse = Mouse::new((0, 0));
    mouse.mouse_down(MouseEvent::new((1, 1), Some(MouseButton::Right)));
    assert!(mouse.will_start_drag(MouseButton::Right, true));
    assert!(!mouse.will_start_drag(MouseButton::Left, true));
    let began = mouse.mouse_moved(MouseEvent::new((9, 1), None), true);
    match began.as_slice() {
        [MouseCall::DragBegan(MouseButton::Right, _, drag)] => {
            assert_eq!((drag.start, drag.prev, drag.current), ((1, 1), (1, 1), (9, 1)));
        }
        _ => panic!("expected drag began"),
    }
    let changed = mouse.mouse_moved(MouseEvent::new((12, 4), None), true);
    match changed.as_slice() {
        [MouseCall::DragChanged(MouseButton::Right, _, drag)] => {
            assert_eq!((drag.start, drag.prev, drag.current), ((1, 1), (9, 1), (12, 4)));
        }
        _ => panic!("expected drag changed"),
    }
    let ended = mouse.mouse_up(MouseEvent::new((13, 4), None));
    assert_eq!(names(&ended), vec!["drag_ended", "up"]);
    assert!(!mouse.is_active());
}

#[test]
fn moves_without_button_and_cancel() {
    let mut mouse = Mouse::new((0, 0));
    assert_eq!(names(&mouse.mouse_moved(MouseEvent::new((3, 3), None), true)), vec!["moved"]);
    assert_eq!(names(&mouse.mouse_up(MouseEvent::new((3, 3), Some(MouseButton::Left)))), Vec::<&str>::new());
    mouse.mouse_down(MouseEvent::with_modifiers((3, 3), Some(MouseButton::Other), Modifiers::default()));
    assert_eq!(names(&mouse.mouse_down(MouseEvent::new((4, 4), Some(MouseButton::Left)))), Vec::<&str>::new());
    assert_eq!(names(&mouse.cancel()), vec!["cancel"]);
    assert!(!mouse.is_active());
    assert!(!mouse.track_pending_drag_move((1, 1), MouseButton::Other, false));
}

#[test]
fn press_small_move_far_move_release_is_a_drag() {
    let mut mouse = Mouse::new((0, 0));
    let down = mouse.mouse_down(MouseEvent::new((0, 0), Some(MouseButton::Left)));
    assert_eq!(names(&down), vec!["down"]);
    assert!(mouse.mouse_moved(MouseEvent::new((1, 0), Some(MouseButton::Left)), false).is_empty());
    let began = mouse.mouse_moved(MouseEvent::new((5, 0), Some(MouseButton::Left)), true);
    match began.as_slice() {
        [MouseCall::DragBegan(MouseButton::Left, _, drag)] => {
            assert_eq!((drag.start, drag.prev, drag.current), ((0, 0), (1, 0), (5, 0)));
        }
        _ => panic!("expected drag began"),
    }
    let ended = mouse.mouse_up(MouseEvent::new((6, 0), Some(MouseButton::Left)));
    match ended.as_slice() {
        [MouseCall::DragEnded(MouseButton::Left, _, drag), MouseCall::ButtonUp(MouseButton::Left, _)] => {
            assert_eq!((drag.start, drag.prev, drag.current), ((0, 0), (5, 0), (6, 0)));
        }
        _ => panic!("expected drag ended then button up"),
    }
    assert!(!mouse.is_active());
}
