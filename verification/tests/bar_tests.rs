use notation::bar::{Bar, BarInteraction};
use notation::note_or_rest::{BaseDuration, NoteInteraction, NoteOrRest};
use notation::pitch::{Pitch, PitchClass};

fn p(pc: PitchClass, octave: u8) -> Option<Pitch> {
    Some(Pitch::new(pc, octave, None))
}

fn bar(notes: &[(Option<Pitch>, u8)]) -> Bar {
    Bar::new(notes.iter().map(|(pitch, d)| NoteOrRest::new(*pitch, BaseDuration(*d))).collect())
}

fn contents(bar: &Bar) -> Vec<(Option<Pitch>, u8)> {
    bar.get_notes().iter().map(|n| (n.get_pitch(), n.get_base_duration().0)).collect()
}

fn total_ticks(bar: &Bar) -> u32 {
    bar.get_notes().iter().map(|n| n.get_base_duration().get_duration_ticks()).sum()
}

#[test]
fn shortening_fills_with_rests() {
    let mut b = bar(&[(p(PitchClass::C, 4), 1), (p(PitchClass::D, 4), 1)]);
    b.set_note_base_duration(0, BaseDuration(2));
    assert_eq!(
        contents(&b),
        vec![(p(PitchClass::C, 4), 2), (None, 2), (p(PitchClass::D, 4), 1)]
    );
}

#[test]
fn shortening_fills_with_aligned_rests() {
    let mut b = bar(&[(p(PitchClass::E, 4), 0)]);
    b.set_note_base_duration(0, BaseDuration(3));
    assert_eq!(contents(&b), vec![(p(PitchClass::E, 4), 3), (None, 3), (None, 2), (None, 1)]);
    assert_eq!(total_ticks(&b), 128);
}

#[test]
fn lengthening_removes_following_notes() {
    let mut b = bar(&[(p(PitchClass::C, 4), 2), (p(PitchClass::D, 4), 2), (p(PitchClass::E, 4), 1)]);
    b.set_note_base_duration(0, BaseDuration(1));
    assert_eq!(contents(&b), vec![(p(PitchClass::C, 4), 1), (p(PitchClass::E, 4), 1)]);
}

#[test]
fn lengthening_replenishes_with_last_removed_pitch() {
    let mut b = bar(&[(p(PitchClass::C, 4), 2), (p(PitchClass::D, 4), 1), (p(PitchClass::E, 4), 2)]);
    b.set_note_base_duration(0, BaseDuration(1));
    assert_eq!(
        contents(&b),
        vec![(p(PitchClass::C, 4), 1), (p(PitchClass::D, 4), 2), (p(PitchClass::E, 4), 2)]
    );
    assert_eq!(total_ticks(&b), 128);
}

#[test]
fn lengthening_over_several_notes() {
    let mut b = bar(&[
        (None, 3),
        (p(PitchClass::A, 4), 3),
        (p(PitchClass::B, 4), 2),
        (p(PitchClass::C, 5), 1),
    ]);
    b.set_note_base_duration(0, BaseDuration(1));
    // 48 extra ticks: the eighth and the quarter are removed (48 ticks), nothing is left over
    assert_eq!(contents(&b), vec![(None, 1), (p(PitchClass::C, 5), 1)]);
}

#[test]
fn change_refused_when_the_bar_is_too_short() {
    let mut b = bar(&[(p(PitchClass::C, 4), 1), (p(PitchClass::D, 4), 1)]);
    b.set_note_base_duration(1, BaseDuration(0));
    assert_eq!(contents(&b), vec![(p(PitchClass::C, 4), 1), (p(PitchClass::D, 4), 1)]);
}

#[test]
fn same_duration_leaves_the_bar_unchanged() {
    let notes = [(p(PitchClass::C, 4), 2), (None, 3), (p(PitchClass::G, 3), 3), (p(PitchClass::D, 4), 1)];
    let mut b = bar(&notes);
    b.set_note_base_duration(2, BaseDuration(3));
    assert_eq!(contents(&b), notes.to_vec());
}

#[test]
fn total_length_is_kept() {
    let notes = [(None, 1), (None, 2), (None, 3), (None, 4), (None, 5), (None, 5)];
    for i in 0..notes.len() {
        for d in 0..=7u8 {
            let mut b = bar(&notes);
            b.set_note_base_duration(i, BaseDuration(d));
            assert_eq!(total_ticks(&b), 128);
            assert_eq!(contents(&b)[..i], notes[..i]);
        }
    }
}

#[test]
fn set_note_pitch_changes_only_that_note() {
    let mut b = bar(&[(p(PitchClass::C, 4), 2), (p(PitchClass::D, 4), 2)]);
    b.set_note_pitch(1, None);
    assert_eq!(contents(&b), vec![(p(PitchClass::C, 4), 2), (None, 2)]);
    b.set_note_pitch(1, p(PitchClass::F, 4));
    assert_eq!(contents(&b), vec![(p(PitchClass::C, 4), 2), (p(PitchClass::F, 4), 2)]);
}

#[test]
fn note_interactions_of_a_bar() {
    assert!(matches!(BarInteraction::Idle.note_interaction(0), NoteInteraction::Idle));
    assert!(matches!(BarInteraction::Hovering(2).note_interaction(2), NoteInteraction::Hovering));
    assert!(matches!(BarInteraction::Hovering(2).note_interaction(1), NoteInteraction::Idle));
    let sel = BarInteraction::Selected(1, Pitch::new(PitchClass::C, 4, None));
    assert!(matches!(sel.note_interaction(1), NoteInteraction::Selected));
    assert!(matches!(sel.note_interaction(0), NoteInteraction::Idle));
}

#[test]
fn change_past_the_last_note_does_nothing() {
    let notes = [(p(PitchClass::C, 4), 1), (p(PitchClass::D, 4), 1)];
    let mut b = bar(&notes);
    b.set_note_base_duration(2, BaseDuration(0));
    assert_eq!(contents(&b), notes.to_vec());
    b.set_note_base_duration(2, BaseDuration(9));
    assert_eq!(contents(&b), notes.to_vec());
}

#[test]
fn bars_stay_non_empty() {
    let mut b = bar(&[(p(PitchClass::C, 4), 3)]);
    b.set_note_base_duration(0, BaseDuration(0));
    assert_eq!(contents(&b), vec![(p(PitchClass::C, 4), 3)]);
    b.set_note_base_duration(0, BaseDuration(7));
    assert!(!b.get_notes().is_empty());
    assert_eq!(total_ticks(&b), 16);
}
