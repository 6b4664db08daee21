use vstd::prelude::*;

use crate::bar::with_base_duration;
use crate::note_or_rest::{BaseDuration, NoteValue};
use crate::staff::{
    commit_valid, handle_staff_interaction_msg, interaction_valid, msg_valid, next_interaction, new_bar_notes,
    Staff, StaffIndex, StaffInteractionMsg, StaffInteractionState,
};

verus! {

/// Messages when the app is in the score editing state
#[derive(Debug, Clone, Copy)]
pub enum ScoreEditingMessage {
    StaffInteractionMsg(StaffInteractionMsg),
    BaseDurationButtonClick(BaseDuration),
    ToggleRestButtonClick,
    PlayButtonClick,
    PauseButtonClick,
    PausedPlayback,
    PlayingPlayback,
    PlaybackDone,
    AddBarButtonClick,
}

/// Whether playback runs; a running or paused playback holds the sender `S` through
/// which it is controlled.
#[derive(Debug)]
pub enum PlayingStatus<S> {
    PlaybackNotStarted,
    Playing(S),
    Paused(S),
}

impl<S> Default for PlayingStatus<S> {
    fn default() -> (r: Self)
        ensures
            r is PlaybackNotStarted,
    {
        PlayingStatus::PlaybackNotStarted
    }
}

/// The status after toggling between playing and paused.
pub open spec fn toggled_status<S>(status: PlayingStatus<S>) -> PlayingStatus<S> {
    match status {
        PlayingStatus::Playing(s) => PlayingStatus::Paused(s),
        PlayingStatus::Paused(s) => PlayingStatus::Playing(s),
        PlayingStatus::PlaybackNotStarted => PlayingStatus::PlaybackNotStarted,
    }
}

impl<S> PlayingStatus<S> {
    /// Toggle between `Playing` and `Paused`, does nothing if the state is not `Playing` or `Paused`
    pub fn toggle_playing(&mut self)
        ensures
            *final(self) == toggled_status(*old(self)),
    {
        let mut tmp = PlayingStatus::PlaybackNotStarted;
        core::mem::swap(self, &mut tmp);
        match tmp {
            PlayingStatus::Playing(val) => {
                *self = PlayingStatus::Paused(val);
            },
            PlayingStatus::Paused(val) => {
                *self = PlayingStatus::Playing(val);
            },
            PlayingStatus::PlaybackNotStarted => {},
        }
    }
}

/// Toggling pauses a running playback with the same sender, resumes a paused one with
/// the same sender, and leaves a playback that has not started as it is.
pub proof fn lemma_toggle_switches<S>(status: PlayingStatus<S>, sender: S)
    ensures
        status == PlayingStatus::Playing(sender) ==> toggled_status(status) == PlayingStatus::Paused(
            sender,
        ),
        status == PlayingStatus::Paused(sender) ==> toggled_status(status) == PlayingStatus::Playing(
            sender,
        ),
        status is PlaybackNotStarted ==> toggled_status(status) is PlaybackNotStarted,
{
}

/// Toggling twice between playing and paused gives back the status toggled from.
pub proof fn lemma_toggle_twice<S>(status: PlayingStatus<S>)
    ensures
        toggled_status(toggled_status(status)) == status,
{
}

/// What the editor asks its surroundings to do after handling a message.
#[derive(Debug, PartialEq, Eq, Structural, Clone, Copy)]
pub enum ScoreEditingEffect {
    /// Nothing to do.
    Nothing,
    /// The staff (its notes or its interaction state) changed: lay it out and draw it again.
    Redraw,
    /// Start playing the staff and hand the sender that controls playback to `begin_playback`.
    StartPlayback,
    /// Ask the running playback to resume; `PlayingPlayback` follows once it has.
    SendResume,
    /// Ask the running playback to pause; `PausedPlayback` follows once it has.
    SendPause,
}

/// The note the user has selected, if any.
pub open spec fn selected_note(state: StaffInteractionState) -> Option<StaffIndex> {
    match state {
        StaffInteractionState::Selected(i, _) => Some(i),
        _ => None,
    }
}

/// The state of the score editing page: the staff, how the user interacts with it,
/// and playback.
pub struct ScoreEditingState<S> {
    pub staff: Staff,
    pub staff_interaction: StaffInteractionState,
    pub playback_status: PlayingStatus<S>,
}

/// A message that refers only to notes of `staff`.
pub open spec fn message_valid(staff: &Staff, msg: ScoreEditingMessage) -> bool {
    match msg {
        ScoreEditingMessage::StaffInteractionMsg(m) => msg_valid(staff, m),
        _ => true,
    }
}

impl<S> ScoreEditingState<S> {
    /// Every note has an implemented duration and the interaction state refers
    /// only to notes of the staff.
    pub open spec fn is_consistent(&self) -> bool {
        &&& self.staff.is_supported()
        &&& interaction_valid(&self.staff, self.staff_interaction)
    }

    /// The messages the page can handle in this state: those that change the selected
    /// note name a note of the staff (a duration change may also name the position just
    /// past the last note of a bar, where it does nothing), and a duration given to a
    /// note is an implemented one.
    pub open spec fn accepts(&self, msg: ScoreEditingMessage) -> bool {
        match msg {
            ScoreEditingMessage::StaffInteractionMsg(m) => commit_valid(
                &self.staff,
                self.staff_interaction,
                m,
            ),
            ScoreEditingMessage::BaseDurationButtonClick(d) => match self.staff_interaction {
                StaffInteractionState::Selected(i, _) => {
                    &&& self.staff.has_position(i)
                    &&& self.staff.has_note(i) ==> d.0 <= 7
                },
                _ => true,
            },
            ScoreEditingMessage::ToggleRestButtonClick => match self.staff_interaction {
                StaffInteractionState::Selected(i, _) => self.staff.has_note(i),
                _ => true,
            },
            _ => true,
        }
    }

    /// Whether the buttons that edit the selected note are active: a note is selected.
    pub fn edit_note_buttons_active(&self) -> (r: bool)
        ensures
            r == self.staff_interaction is Selected,
    {
        match self.staff_interaction {
            StaffInteractionState::Selected(..) => true,
            _ => false,
        }
    }

    /// The message of the play/pause button: pause while playing, play otherwise.
    pub fn play_pause_message(&self) -> (r: ScoreEditingMessage)
        ensures
            if self.playback_status is Playing {
                r is PauseButtonClick
            } else {
                r is PlayButtonClick
            },
    {
        match self.playback_status {
            PlayingStatus::Paused(..) | PlayingStatus::PlaybackNotStarted => {
                ScoreEditingMessage::PlayButtonClick
            },
            PlayingStatus::Playing(..) => ScoreEditingMessage::PauseButtonClick,
        }
    }

    pub fn new(staff: Staff) -> (r: Self)
        requires
            staff.is_supported(),
        ensures
            r.staff == staff,
            r.staff_interaction == StaffInteractionState::Idle,
            r.playback_status is PlaybackNotStarted,
            r.is_consistent(),
    {
        ScoreEditingState {
            staff,
            staff_interaction: StaffInteractionState::Idle,
            playback_status: PlayingStatus::PlaybackNotStarted,
        }
    }

    /// Playback has been started and is controlled through `sender`.
    pub fn begin_playback(&mut self, sender: S)
        ensures
            final(self).playback_status == PlayingStatus::Playing(sender),
            final(self).staff == old(self).staff,
            final(self).staff_interaction == old(self).staff_interaction,
    {
        self.playback_status = PlayingStatus::Playing(sender);
    }

    /// Handles one message of the score editing page.
    pub fn update(&mut self, score_editing_message: ScoreEditingMessage) -> (effect:
        ScoreEditingEffect)
        requires
            old(self).staff.is_supported(),
            old(self).accepts(score_editing_message),
        ensures
            final(self).staff.is_supported(),
            old(self).is_consistent() && message_valid(&old(self).staff, score_editing_message)
                ==> final(self).is_consistent(),
            old(self).staff.bars_nonempty() ==> final(self).staff.bars_nonempty(),
            match score_editing_message {
                ScoreEditingMessage::AddBarButtonClick => {
                    &&& final(self).staff.bar_notes() == old(self).staff.bar_notes().push(
                        new_bar_notes(),
                    )
                    &&& final(self).staff_interaction == old(self).staff_interaction
                    &&& final(self).playback_status == old(self).playback_status
                    &&& effect == ScoreEditingEffect::Redraw
                },
                ScoreEditingMessage::StaffInteractionMsg(m) => {
                    &&& final(self).staff_interaction == next_interaction(
                        old(self).staff_interaction,
                        m,
                    )
                    &&& final(self).playback_status == old(self).playback_status
                    &&& (effect == ScoreEditingEffect::Redraw) == (final(self).staff_interaction
                        != old(self).staff_interaction)
                    &&& (effect == ScoreEditingEffect::Redraw || effect
                        == ScoreEditingEffect::Nothing)
                    &&& match (m, old(self).staff_interaction) {
                        (
                            StaffInteractionMsg::CommitPreviewNote,
                            StaffInteractionState::Selected(i, p),
                        ) => final(self).staff.bar_notes() == old(self).staff.bar_notes().update(
                            i.bar_index as int,
                            old(self).staff.bar_notes()[i.bar_index as int].update(
                                i.note_index as int,
                                NoteValue {
                                    pitch: Some(p),
                                    base_duration: old(self).staff.bar_notes()[i.bar_index as int][i.note_index as int].base_duration,
                                },
                            ),
                        ),
                        _ => final(self).staff == old(self).staff,
                    }
                },
                ScoreEditingMessage::BaseDurationButtonClick(d) => match selected_note(
                    old(self).staff_interaction,
                ) {
                    Some(i) => {
                        &&& final(self).staff.bar_notes() == old(self).staff.bar_notes().update(
                            i.bar_index as int,
                            with_base_duration(
                                old(self).staff.bar_notes()[i.bar_index as int],
                                i.note_index as int,
                                d,
                            ),
                        )
                        &&& final(self).staff_interaction == StaffInteractionState::Idle
                        &&& final(self).playback_status == old(self).playback_status
                        &&& effect == ScoreEditingEffect::Redraw
                    },
                    None => {
                        &&& final(self).staff.bar_notes() == old(self).staff.bar_notes()
                        &&& final(self).staff_interaction == old(self).staff_interaction
                        &&& final(self).playback_status == old(self).playback_status
                        &&& effect == ScoreEditingEffect::Nothing
                    },
                },
                ScoreEditingMessage::ToggleRestButtonClick => match selected_note(
                    old(self).staff_interaction,
                ) {
                    Some(i) => {
                        &&& final(self).staff.bar_notes() == old(self).staff.bar_notes().update(
                            i.bar_index as int,
                            old(self).staff.bar_notes()[i.bar_index as int].update(
                                i.note_index as int,
                                NoteValue {
                                    pitch: None,
                                    base_duration: old(
                                        self,
                                    ).staff.bar_notes()[i.bar_index as int][i.note_index as int].base_duration,
                                },
                            ),
                        )
                        &&& final(self).staff_interaction == StaffInteractionState::Idle
                        &&& final(self).playback_status == old(self).playback_status
                        &&& effect == ScoreEditingEffect::Redraw
                    },
                    None => {
                        &&& final(self).staff.bar_notes() == old(self).staff.bar_notes()
                        &&& final(self).staff_interaction == old(self).staff_interaction
                        &&& final(self).playback_status == old(self).playback_status
                        &&& effect == ScoreEditingEffect::Nothing
                    },
                },
                ScoreEditingMessage::PlaybackDone => {
                    &&& final(self).staff == old(self).staff
                    &&& final(self).staff_interaction == old(self).staff_interaction
                    &&& final(self).playback_status is PlaybackNotStarted
                    &&& effect == ScoreEditingEffect::Nothing
                },
                ScoreEditingMessage::PlayButtonClick => {
                    &&& final(self).staff == old(self).staff
                    &&& final(self).staff_interaction == old(self).staff_interaction
                    &&& final(self).playback_status == old(self).playback_status
                    &&& effect == match old(self).playback_status {
                        PlayingStatus::PlaybackNotStarted => ScoreEditingEffect::StartPlayback,
                        PlayingStatus::Paused(_) => ScoreEditingEffect::SendResume,
                        PlayingStatus::Playing(_) => ScoreEditingEffect::Nothing,
                    }
                },
                ScoreEditingMessage::PauseButtonClick => {
                    &&& final(self).staff == old(self).staff
                    &&& final(self).staff_interaction == old(self).staff_interaction
                    &&& final(self).playback_status == old(self).playback_status
                    &&& effect == if old(self).playback_status is Playing {
                        ScoreEditingEffect::SendPause
                    } else {
                        ScoreEditingEffect::Nothing
                    }
                },
                ScoreEditingMessage::PausedPlayback => {
                    &&& final(self).staff == old(self).staff
                    &&& final(self).staff_interaction == old(self).staff_interaction
                    &&& final(self).playback_status == if old(self).playback_status is Playing {
                        toggled_status(old(self).playback_status)
                    } else {
                        old(self).playback_status
                    }
                    &&& effect == ScoreEditingEffect::Nothing
                },
                ScoreEditingMessage::PlayingPlayback => {
                    &&& final(self).staff == old(self).staff
                    &&& final(self).staff_interaction == old(self).staff_interaction
                    &&& final(self).playback_status == if old(self).playback_status is Paused {
                        toggled_status(old(self).playback_status)
                    } else {
                        old(self).playback_status
                    }
                    &&& effect == ScoreEditingEffect::Nothing
                },
            },
    {
        match score_editing_message {
            ScoreEditingMessage::AddBarButtonClick => {
                self.staff.add_bar();
                proof {
                    assert(self.staff.bar_notes() =~= old(self).staff.bar_notes().push(
                        new_bar_notes(),
                    ));
                    assert(crate::bar::all_supported(new_bar_notes()));
                }
                ScoreEditingEffect::Redraw
            },
            ScoreEditingMessage::StaffInteractionMsg(staff_interaction_msg) => {
                let staff_modified = handle_staff_interaction_msg(
                    staff_interaction_msg,
                    &mut self.staff,
                    &mut self.staff_interaction,
                );
                proof {
                    if let (
                        StaffInteractionMsg::CommitPreviewNote,
                        StaffInteractionState::Selected(i, p),
                    ) = (staff_interaction_msg, old(self).staff_interaction) {
                        let b = i.bar_index as int;
                        assert(self.staff.bar_notes() =~= old(self).staff.bar_notes().update(
                            b,
                            old(self).staff.bar_notes()[b].update(
                                i.note_index as int,
                                NoteValue {
                                    pitch: Some(p),
                                    base_duration: old(self).staff.bar_notes()[b][i.note_index as int].base_duration,
                                },
                            ),
                        ));
                    }
                }
                if staff_modified {
                    ScoreEditingEffect::Redraw
                } else {
                    ScoreEditingEffect::Nothing
                }
            },
            ScoreEditingMessage::BaseDurationButtonClick(base_duration) => {
                match self.staff_interaction {
                    StaffInteractionState::Selected(staff_idx, _) => {
                        self.staff.set_note_base_duration(&staff_idx, base_duration);
                        self.staff_interaction = StaffInteractionState::Idle;
                        proof {
                            assert(self.staff.bar_notes() =~= old(self).staff.bar_notes().update(
                                staff_idx.bar_index as int,
                                with_base_duration(
                                    old(self).staff.bar_notes()[staff_idx.bar_index as int],
                                    staff_idx.note_index as int,
                                    base_duration,
                                ),
                            ));
                        }
                        ScoreEditingEffect::Redraw
                    },
                    _ => ScoreEditingEffect::Nothing,
                }
            },
            ScoreEditingMessage::ToggleRestButtonClick => {
                match self.staff_interaction {
                    StaffInteractionState::Selected(staff_idx, _) => {
                        self.staff.set_note_pitch(&staff_idx, None);
                        self.staff_interaction = StaffInteractionState::Idle;
                        proof {
                            let b = staff_idx.bar_index as int;
                            assert(self.staff.bar_notes() =~= old(self).staff.bar_notes().update(
                                b,
                                old(self).staff.bar_notes()[b].update(
                                    staff_idx.note_index as int,
                                    NoteValue {
                                        pitch: None,
                                        base_duration: old(
                                            self,
                                        ).staff.bar_notes()[b][staff_idx.note_index as int].base_duration,
                                    },
                                ),
                            ));
                            assert(crate::bar::all_supported(old(self).staff.bars@[b]@));
                            assert(crate::bar::all_supported(self.staff.bars@[b]@));
                        }
                        ScoreEditingEffect::Redraw
                    },
                    _ => ScoreEditingEffect::Nothing,
                }
            },
            ScoreEditingMessage::PlaybackDone => {
                self.playback_status = PlayingStatus::PlaybackNotStarted;
                ScoreEditingEffect::Nothing
            },
            ScoreEditingMessage::PlayButtonClick => match &self.playback_status {
                PlayingStatus::PlaybackNotStarted => ScoreEditingEffect::StartPlayback,
                PlayingStatus::Paused(..) => ScoreEditingEffect::SendResume,
                PlayingStatus::Playing(..) => ScoreEditingEffect::Nothing,
            },
            ScoreEditingMessage::PauseButtonClick => match &self.playback_status {
                PlayingStatus::Playing(..) => ScoreEditingEffect::SendPause,
                PlayingStatus::PlaybackNotStarted | PlayingStatus::Paused(..) => {
                    ScoreEditingEffect::Nothing
                },
            },
            ScoreEditingMessage::PausedPlayback => {
                let playing = match &self.playback_status {
                    PlayingStatus::Playing(_) => true,
                    _ => false,
                };
                if playing {
                    self.playback_status.toggle_playing();
                }
                ScoreEditingEffect::Nothing
            },
            ScoreEditingMessage::PlayingPlayback => {
                let paused = match &self.playback_status {
                    PlayingStatus::Paused(_) => true,
                    _ => false,
                };
                if paused {
                    self.playback_status.toggle_playing();
                }
                ScoreEditingEffect::Nothing
            },
        }
    }
}

} // verus!
