use notation::pages::score_editing_page::ScoreEditingMessage;
use notation::pitch::{Pitch, PitchClass};
use notation::staff::{
    cursor_moved_message, left_click_message, StaffIndex, StaffInteractionMsg, StaffInteractionState,
};

fn i(b: usize, n: usize) -> StaffIndex {
    StaffIndex { bar_index: b, note_index: n }
}

#[test]
fn clicking_the_new_bar_button_adds_a_bar() {
    let p = Some(Pitch::new(PitchClass::C, 4, None));
    for s in [
        StaffInteractionState::Idle,
        StaffInteractionState::Hovering(i(0, 0)),
        StaffInteractionState::Selected(i(0, 0), Pitch::new(PitchClass::D, 4, None)),
    ] {
        assert!(matches!(left_click_message(&s, true, p), Some(ScoreEditingMessage::AddBarButtonClick)));
    }
}

#[test]
fn clicking_a_hovered_note_previews_the_pitch() {
    let p = Pitch::new(PitchClass::G, 4, None);
    let r = left_click_message(&StaffInteractionState::Hovering(i(1, 2)), false, Some(p));
    assert!(matches!(
        r,
        Some(ScoreEditingMessage::StaffInteractionMsg(StaffInteractionMsg::SetPreviewNotePitch(j, q)))
            if j == i(1, 2) && q == p
    ));
    assert!(left_click_message(&StaffInteractionState::Hovering(i(1, 2)), false, None).is_none());
    assert!(left_click_message(&StaffInteractionState::Idle, false, Some(p)).is_none());
}

#[test]
fn clicking_while_selected_commits() {
    let s = StaffInteractionState::Selected(i(0, 1), Pitch::new(PitchClass::A, 4, None));
    assert!(matches!(
        left_click_message(&s, false, None),
        Some(ScoreEditingMessage::StaffInteractionMsg(StaffInteractionMsg::CommitPreviewNote))
    ));
}

#[test]
fn moving_the_cursor() {
    let p = Pitch::new(PitchClass::E, 4, None);
    assert!(matches!(
        cursor_moved_message(&StaffInteractionState::Idle, Some(i(2, 3)), Some(p)),
        Some(StaffInteractionMsg::StartHovering(j)) if j == i(2, 3)
    ));
    assert!(matches!(
        cursor_moved_message(&StaffInteractionState::Hovering(i(0, 0)), None, Some(p)),
        Some(StaffInteractionMsg::StopHovering)
    ));
    let sel = StaffInteractionState::Selected(i(0, 1), Pitch::new(PitchClass::A, 4, None));
    assert!(matches!(
        cursor_moved_message(&sel, Some(i(2, 3)), Some(p)),
        Some(StaffInteractionMsg::SetPreviewNotePitch(j, q)) if j == i(0, 1) && q == p
    ));
    assert!(cursor_moved_message(&sel, Some(i(2, 3)), None).is_none());
}
