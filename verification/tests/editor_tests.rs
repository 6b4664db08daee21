use notation::bar::Bar;
use notation::note_or_rest::{BaseDuration, NoteOrRest};
use notation::pages::score_editing_page::{
    PlayingStatus, ScoreEditingEffect, ScoreEditingMessage, ScoreEditingState,
};
use notation::pitch::{Pitch, PitchClass};
use notation::staff::{Staff, StaffIndex, StaffInteractionMsg, StaffInteractionState};

fn editor() -> ScoreEditingState<u32> {
    ScoreEditingState::new(Staff {
        bars: vec![Bar::new(vec![
            NoteOrRest::new(Some(Pitch::new(PitchClass::C, 4, None)), BaseDuration(1)),
            NoteOrRest::new(Some(Pitch::new(PitchClass::D, 4, None)), BaseDuration(1)),
        ])],
    })
}

fn select(e: &mut ScoreEditingState<u32>, note_index: usize) {
    let i = StaffIndex { bar_index: 0, note_index };
    let msg = StaffInteractionMsg::SetPreviewNotePitch(i, Pitch::new(PitchClass::A, 4, None));
    assert_eq!(e.update(ScoreEditingMessage::StaffInteractionMsg(msg)), ScoreEditingEffect::Redraw);
}

#[test]
fn add_bar_button() {
    let mut e = editor();
    assert_eq!(e.update(ScoreEditingMessage::AddBarButtonClick), ScoreEditingEffect::Redraw);
    assert_eq!(e.staff.bars.len(), 2);
    assert_eq!(e.staff.bars[1].get_notes()[0].get_base_duration(), BaseDuration(1));
}

#[test]
fn duration_button_needs_a_selection() {
    let mut e = editor();
    assert_eq!(e.update(ScoreEditingMessage::BaseDurationButtonClick(BaseDuration(2))), ScoreEditingEffect::Nothing);
    assert_eq!(e.staff.bars[0].get_notes().len(), 2);
    select(&mut e, 0);
    assert_eq!(e.update(ScoreEditingMessage::BaseDurationButtonClick(BaseDuration(2))), ScoreEditingEffect::Redraw);
    assert_eq!(e.staff_interaction, StaffInteractionState::Idle);
    let notes = e.staff.bars[0].get_notes();
    assert_eq!(notes.len(), 3);
    assert_eq!(notes[0].get_pitch(), Some(Pitch::new(PitchClass::C, 4, None)));
    assert_eq!(notes[0].get_base_duration(), BaseDuration(2));
    assert_eq!(notes[1].get_pitch(), None);
    assert_eq!(notes[1].get_base_duration(), BaseDuration(2));
}

#[test]
fn toggle_rest_button() {
    let mut e = editor();
    assert_eq!(e.update(ScoreEditingMessage::ToggleRestButtonClick), ScoreEditingEffect::Nothing);
    select(&mut e, 1);
    assert_eq!(e.update(ScoreEditingMessage::ToggleRestButtonClick), ScoreEditingEffect::Redraw);
    assert_eq!(e.staff_interaction, StaffInteractionState::Idle);
    let notes = e.staff.bars[0].get_notes();
    assert_eq!(notes[1].get_pitch(), None);
    assert_eq!(notes[1].get_base_duration(), BaseDuration(1));
    assert_eq!(notes[0].get_pitch(), Some(Pitch::new(PitchClass::C, 4, None)));
}

#[test]
fn playback_controls() {
    let mut e = editor();
    assert!(matches!(e.playback_status, PlayingStatus::PlaybackNotStarted));
    assert_eq!(e.update(ScoreEditingMessage::PauseButtonClick), ScoreEditingEffect::Nothing);
    assert_eq!(e.update(ScoreEditingMessage::PlayButtonClick), ScoreEditingEffect::StartPlayback);
    e.begin_playback(7);
    assert!(matches!(e.playback_status, PlayingStatus::Playing(7)));
    assert_eq!(e.update(ScoreEditingMessage::PlayButtonClick), ScoreEditingEffect::Nothing);
    assert_eq!(e.update(ScoreEditingMessage::PauseButtonClick), ScoreEditingEffect::SendPause);
    assert_eq!(e.update(ScoreEditingMessage::PlayingPlayback), ScoreEditingEffect::Nothing);
    assert!(matches!(e.playback_status, PlayingStatus::Playing(7)));
    assert_eq!(e.update(ScoreEditingMessage::PausedPlayback), ScoreEditingEffect::Nothing);
    assert!(matches!(e.playback_status, PlayingStatus::Paused(7)));
    assert_eq!(e.update(ScoreEditingMessage::PauseButtonClick), ScoreEditingEffect::Nothing);
    assert_eq!(e.update(ScoreEditingMessage::PlayButtonClick), ScoreEditingEffect::SendResume);
    assert_eq!(e.update(ScoreEditingMessage::PlayingPlayback), ScoreEditingEffect::Nothing);
    assert!(matches!(e.playback_status, PlayingStatus::Playing(7)));
    assert_eq!(e.update(ScoreEditingMessage::PlaybackDone), ScoreEditingEffect::Nothing);
    assert!(matches!(e.playback_status, PlayingStatus::PlaybackNotStarted));
}

#[test]
fn toggle_playing_twice() {
    let mut s: PlayingStatus<u8> = PlayingStatus::Playing(3);
    s.toggle_playing();
    assert!(matches!(s, PlayingStatus::Paused(3)));
    s.toggle_playing();
    assert!(matches!(s, PlayingStatus::Playing(3)));
    let mut n: PlayingStatus<u8> = PlayingStatus::default();
    n.toggle_playing();
    assert!(matches!(n, PlayingStatus::PlaybackNotStarted));
}

#[test]
fn duration_click_without_selection_is_ignored_whatever_the_duration() {
    let mut e = editor();
    assert_eq!(e.update(ScoreEditingMessage::BaseDurationButtonClick(BaseDuration(9))), ScoreEditingEffect::Nothing);
    assert_eq!(e.staff.bars[0].get_notes().len(), 2);
}

#[test]
fn buttons_follow_the_state() {
    let mut e = editor();
    assert!(!e.edit_note_buttons_active());
    assert!(matches!(e.play_pause_message(), ScoreEditingMessage::PlayButtonClick));
    select(&mut e, 0);
    assert!(e.edit_note_buttons_active());
    e.begin_playback(1);
    assert!(matches!(e.play_pause_message(), ScoreEditingMessage::PauseButtonClick));
    e.update(ScoreEditingMessage::PausedPlayback);
    assert!(matches!(e.play_pause_message(), ScoreEditingMessage::PlayButtonClick));
}
