use notation::bar::{Bar, BarInteraction};
use notation::note_or_rest::{BaseDuration, NoteOrRest};
use notation::pitch::{Accidental, Pitch, PitchClass};
use notation::staff::{
    handle_staff_interaction_msg, Staff, StaffIndex, StaffInteractionMsg, StaffInteractionState,
};

fn idx(bar_index: usize, note_index: usize) -> StaffIndex {
    StaffIndex { bar_index, note_index }
}

/// The staff the editor opens with.
fn opening_staff() -> Staff {
    Staff {
        bars: vec![
            Bar::new(vec![
                NoteOrRest::new(Some(Pitch::new(PitchClass::E, 5, Some(Accidental::Sharp))), BaseDuration(1)),
                NoteOrRest::new(Some(Pitch::new(PitchClass::G, 4, Some(Accidental::Flat))), BaseDuration(1)),
            ]),
            Bar::new(vec![
                NoteOrRest::new(Some(Pitch::new(PitchClass::F, 4, Some(Accidental::Natural))), BaseDuration(2)),
                NoteOrRest::new(Some(Pitch::new(PitchClass::G, 4, None)), BaseDuration(2)),
                NoteOrRest::new(Some(Pitch::new(PitchClass::A, 4, None)), BaseDuration(1)),
            ]),
            Bar::new(vec![
                NoteOrRest::new(Some(Pitch::new(PitchClass::F, 4, None)), BaseDuration(3)),
                NoteOrRest::new(Some(Pitch::new(PitchClass::E, 5, None)), BaseDuration(4)),
                NoteOrRest::new(Some(Pitch::new(PitchClass::F, 4, None)), BaseDuration(4)),
                NoteOrRest::new(None, BaseDuration(2)),
            ]),
            Bar::new(vec![NoteOrRest::new(None, BaseDuration(0))]),
            Bar::new(vec![
                NoteOrRest::new(None, BaseDuration(1)),
                NoteOrRest::new(None, BaseDuration(2)),
                NoteOrRest::new(None, BaseDuration(3)),
                NoteOrRest::new(None, BaseDuration(4)),
                NoteOrRest::new(None, BaseDuration(5)),
                NoteOrRest::new(None, BaseDuration(5)),
            ]),
        ],
    }
}

#[test]
fn contains_index() {
    let staff = opening_staff();
    assert!(staff.contains_index(&idx(0, 1)));
    assert!(!staff.contains_index(&idx(0, 2)));
    assert!(staff.contains_index(&idx(4, 5)));
    assert!(!staff.contains_index(&idx(5, 0)));
}

#[test]
fn add_bar_appends_a_half_rest() {
    let mut staff = Staff::default();
    assert_eq!(staff.bars.len(), 0);
    staff.add_bar();
    staff.add_bar();
    assert_eq!(staff.bars.len(), 2);
    let notes = staff.bars[1].get_notes();
    assert_eq!(notes.len(), 1);
    assert_eq!(notes[0].get_pitch(), None);
    assert_eq!(notes[0].get_base_duration(), BaseDuration(1));
}

#[test]
fn staff_set_note_pitch_and_duration() {
    let mut staff = opening_staff();
    staff.set_note_pitch(&idx(3, 0), Some(Pitch::new(PitchClass::C, 5, None)));
    assert_eq!(staff.bars[3].get_notes()[0].get_pitch(), Some(Pitch::new(PitchClass::C, 5, None)));
    staff.set_note_base_duration(&idx(3, 0), BaseDuration(1));
    let notes = staff.bars[3].get_notes();
    assert_eq!(notes.len(), 2);
    assert_eq!(notes[0].get_base_duration(), BaseDuration(1));
    assert_eq!(notes[1].get_pitch(), None);
    assert_eq!(notes[1].get_base_duration(), BaseDuration(1));
    // other bars are untouched
    assert_eq!(staff.bars[4].get_notes().len(), 6);
}

#[test]
fn bar_interactions_of_a_staff() {
    let p = Pitch::new(PitchClass::C, 4, None);
    assert!(matches!(StaffInteractionState::default().bar_interaction(0), BarInteraction::Idle));
    assert!(matches!(StaffInteractionState::Hovering(idx(1, 2)).bar_interaction(1), BarInteraction::Hovering(2)));
    assert!(matches!(StaffInteractionState::Hovering(idx(1, 2)).bar_interaction(0), BarInteraction::Idle));
    assert!(matches!(
        StaffInteractionState::Selected(idx(2, 0), p).bar_interaction(2),
        BarInteraction::Selected(0, q) if q == p
    ));
    assert!(matches!(StaffInteractionState::Selected(idx(2, 0), p).bar_interaction(3), BarInteraction::Idle));
}

#[test]
fn hovering_and_selecting() {
    let mut staff = opening_staff();
    let mut state = StaffInteractionState::default();
    assert!(handle_staff_interaction_msg(StaffInteractionMsg::StartHovering(idx(1, 1)), &mut staff, &mut state));
    assert_eq!(state, StaffInteractionState::Hovering(idx(1, 1)));
    // hovering the same note again needs no redraw
    assert!(!handle_staff_interaction_msg(StaffInteractionMsg::StartHovering(idx(1, 1)), &mut staff, &mut state));
    // committing without a selection does nothing
    assert!(!handle_staff_interaction_msg(StaffInteractionMsg::CommitPreviewNote, &mut staff, &mut state));
    assert_eq!(state, StaffInteractionState::Hovering(idx(1, 1)));
    assert!(handle_staff_interaction_msg(StaffInteractionMsg::StopHovering, &mut staff, &mut state));
    assert_eq!(state, StaffInteractionState::Idle);
    assert!(!handle_staff_interaction_msg(StaffInteractionMsg::StopHovering, &mut staff, &mut state));
}

#[test]
fn preview_then_commit_sets_the_pitch() {
    let mut staff = opening_staff();
    let mut state = StaffInteractionState::Hovering(idx(1, 2));
    let preview = Pitch::new(PitchClass::D, 5, None);
    assert!(handle_staff_interaction_msg(
        StaffInteractionMsg::SetPreviewNotePitch(idx(1, 2), preview),
        &mut staff,
        &mut state
    ));
    assert_eq!(state, StaffInteractionState::Selected(idx(1, 2), preview));
    assert!(!handle_staff_interaction_msg(
        StaffInteractionMsg::SetPreviewNotePitch(idx(1, 2), preview),
        &mut staff,
        &mut state
    ));
    assert!(handle_staff_interaction_msg(StaffInteractionMsg::CommitPreviewNote, &mut staff, &mut state));
    assert_eq!(state, StaffInteractionState::Idle);
    let notes = staff.bars[1].get_notes();
    assert_eq!(notes[2].get_pitch(), Some(preview));
    assert_eq!(notes[2].get_base_duration(), BaseDuration(1));
    assert_eq!(notes[1].get_pitch(), Some(Pitch::new(PitchClass::G, 4, None)));
}

#[test]
fn duration_change_past_the_last_note_of_a_bar() {
    let mut staff = opening_staff();
    staff.set_note_base_duration(&idx(3, 1), BaseDuration(2));
    let notes = staff.bars[3].get_notes();
    assert_eq!(notes.len(), 1);
    assert_eq!(notes[0].get_base_duration(), BaseDuration(0));
}

#[test]
fn preview_and_hover_store_any_index() {
    let mut staff = opening_staff();
    let mut state = StaffInteractionState::Idle;
    assert!(handle_staff_interaction_msg(StaffInteractionMsg::StartHovering(idx(9, 9)), &mut staff, &mut state));
    assert_eq!(state, StaffInteractionState::Hovering(idx(9, 9)));
    let p = Pitch::new(PitchClass::C, 4, None);
    assert!(handle_staff_interaction_msg(
        StaffInteractionMsg::SetPreviewNotePitch(idx(9, 9), p),
        &mut staff,
        &mut state
    ));
    assert_eq!(state, StaffInteractionState::Selected(idx(9, 9), p));
    assert_eq!(staff.bars.len(), 5);
}
