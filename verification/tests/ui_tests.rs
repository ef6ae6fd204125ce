use exec_runtime::ui::{
    layout_clamped, test_log_line, u64_to_string, FocusActions, FocusState, UIPos, UIRect,
    UISize, UISizeConstraint,
};

#[test]
fn layout_clamps_each_dimension_into_the_constraint() {
    let constraint = UISizeConstraint {
        min: UISize::new(10, 20),
        max: UISize::new(100, 50),
    };
    assert_eq!(layout_clamped(UISize::new(3, 200), &constraint), UISize::new(10, 50));
    assert_eq!(layout_clamped(UISize::new(40, 30), &constraint), UISize::new(40, 30));
    assert_eq!(layout_clamped(UISize::new(640, 5), &constraint), UISize::new(100, 20));
}

#[test]
fn first_focus_request_wins_the_press() {
    let mut focus = FocusState::new();
    let actions = focus.set_focus_widget(Some(4));
    assert_eq!(
        actions,
        FocusActions { unfocus: None, focus: Some(4), refused: false }
    );
    let refused = focus.set_focus_widget(Some(9));
    assert!(refused.refused);
    assert_eq!(focus.focused, Some(4));
}

#[test]
fn refocusing_the_previous_widget_notifies_nobody() {
    let mut focus = FocusState { focused: None, prev_focused: Some(4) };
    let actions = focus.set_focus_widget(Some(4));
    assert_eq!(
        actions,
        FocusActions { unfocus: None, focus: None, refused: false }
    );
    assert_eq!(focus.focused, Some(4));
    assert_eq!(focus.prev_focused, Some(4));
}

#[test]
fn moving_focus_unfocuses_the_previous_widget() {
    let mut focus = FocusState { focused: None, prev_focused: Some(4) };
    let actions = focus.set_focus_widget(Some(9));
    assert_eq!(
        actions,
        FocusActions { unfocus: Some(4), focus: Some(9), refused: false }
    );
    assert_eq!(focus.prev_focused, None);
}

#[test]
fn numbers_spell_in_decimal() {
    assert_eq!(u64_to_string(0), "0");
    assert_eq!(u64_to_string(7), "7");
    assert_eq!(u64_to_string(907), "907");
    assert_eq!(u64_to_string(18_446_744_073_709_551_615), "18446744073709551615");
}

#[test]
fn widget_log_lines_have_the_fixed_shape() {
    assert_eq!(test_log_line("cursor - ", None, 5), "cursor - 5\n");
    assert_eq!(
        test_log_line("propagating - ", Some("MouseReleased"), 12),
        "propagating - MouseReleased - 12\n"
    );
    assert_eq!(test_log_line("focus - ", None, 0), "focus - 0\n");
}

#[test]
fn rect_carries_position_and_size() {
    let rect = UIRect { pos: UIPos { x: -3, y: 8 }, size: UISize::new(2, 4) };
    assert_eq!(rect.pos.x, -3);
    assert_eq!(rect.size.height, 4);
}
