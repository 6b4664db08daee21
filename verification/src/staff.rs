use vstd::prelude::*;

use crate::bar::{all_supported, with_base_duration, Bar, BarInteraction};
use crate::note_or_rest::{BaseDuration, NoteOrRest, NoteValue};
use crate::pages::score_editing_page::ScoreEditingMessage;
use crate::pitch::Pitch;

verus! {

#[derive(Debug)]
pub struct Staff {
    // The bars should be sorted by the order they come in the music
    pub bars: Vec<Bar>,
}

/// Position of a note in a staff: the bar, then the note within the bar.
#[derive(Copy, Clone, Debug, PartialEq, Eq, Structural)]
pub struct StaffIndex {
    pub bar_index: usize,
    pub note_index: usize,
}

/// The notes of a freshly added bar: a single half rest.
pub open spec fn new_bar_notes() -> Seq<NoteValue> {
    seq![NoteValue { pitch: None, base_duration: BaseDuration(1) }]
}

impl Staff {
    /// The notes of each bar, in order.
    pub open spec fn bar_notes(&self) -> Seq<Seq<NoteValue>> {
        self.bars@.map_values(|b: Bar| b@)
    }

    /// Every note of the staff has an implemented base duration.
    pub open spec fn is_supported(&self) -> bool {
        forall|b: int| 0 <= b < self.bars@.len() ==> all_supported(#[trigger] self.bars@[b]@)
    }

    /// Every bar holds at least one note or rest.
    pub open spec fn bars_nonempty(&self) -> bool {
        forall|b: int| 0 <= b < self.bars@.len() ==> (#[trigger] self.bars@[b]@).len() > 0
    }

    /// `idx` names a bar of this staff and a position in it up to just past its
    /// last note.
    pub open spec fn has_position(&self, idx: StaffIndex) -> bool {
        &&& idx.bar_index < self.bars@.len()
        &&& idx.note_index <= self.bars@[idx.bar_index as int]@.len()
    }

    /// `idx` names a note of this staff.
    pub open spec fn has_note(&self, idx: StaffIndex) -> bool {
        &&& idx.bar_index < self.bars@.len()
        &&& idx.note_index < self.bars@[idx.bar_index as int]@.len()
    }

    /// Whether `staff_index` names a note of this staff.
    pub fn contains_index(&self, staff_index: &StaffIndex) -> (r: bool)
        ensures
            r == self.has_note(*staff_index),
    {
        staff_index.bar_index < self.bars.len() && staff_index.note_index
            < self.bars[staff_index.bar_index].get_notes().len()
    }

    /// Appends a bar holding a single half rest.
    pub fn add_bar(&mut self)
        ensures
            final(self).bars@.len() == old(self).bars@.len() + 1,
            forall|b: int|
                0 <= b < old(self).bars@.len() ==> #[trigger] final(self).bars@[b]@ == old(self).bars@[b]@,
            final(self).bars@[old(self).bars@.len() as int]@ == new_bar_notes(),
            old(self).bars_nonempty() ==> final(self).bars_nonempty(),
    {
        let new_bar = Bar::new(vec![NoteOrRest::new(None, BaseDuration(1))]);
        proof {
            assert(new_bar@ =~= new_bar_notes());
        }
        self.bars.push(new_bar);
    }

    /// Setting to None changes the note to a rest
    pub fn set_note_pitch(&mut self, staff_index: &StaffIndex, pitch: Option<Pitch>)
        requires
            old(self).has_note(*staff_index),
        ensures
            final(self).bars@.len() == old(self).bars@.len(),
            forall|b: int|
                0 <= b < old(self).bars@.len() && b != staff_index.bar_index ==> #[trigger] final(self).bars@[b]@ == old(self).bars@[b]@,
            final(self).bars@[staff_index.bar_index as int]@ == old(self).bars@[staff_index.bar_index as int]@.update(
                staff_index.note_index as int,
                NoteValue {
                    pitch,
                    base_duration: old(self).bars@[staff_index.bar_index as int]@[staff_index.note_index as int].base_duration,
                },
            ),
            old(self).bars_nonempty() ==> final(self).bars_nonempty(),
    {
        self.bars[staff_index.bar_index].set_note_pitch(staff_index.note_index, pitch);
    }

    /// Changes the base duration of a note, see `Bar::set_note_base_duration`.
    pub fn set_note_base_duration(&mut self, staff_index: &StaffIndex, base_duration: BaseDuration)
        requires
            old(self).has_position(*staff_index),
            old(self).has_note(*staff_index) ==> base_duration.0 <= 7,
            old(self).is_supported(),
        ensures
            final(self).bars@.len() == old(self).bars@.len(),
            forall|b: int|
                0 <= b < old(self).bars@.len() && b != staff_index.bar_index ==> #[trigger] final(self).bars@[b]@ == old(self).bars@[b]@,
            final(self).bars@[staff_index.bar_index as int]@ == with_base_duration(
                old(self).bars@[staff_index.bar_index as int]@,
                staff_index.note_index as int,
                base_duration,
            ),
            final(self).is_supported(),
            old(self).bars_nonempty() ==> final(self).bars_nonempty(),
    {
        self.bars[staff_index.bar_index].set_note_base_duration(
            staff_index.note_index,
            base_duration,
        );
    }
}

impl Default for Staff {
    fn default() -> (r: Self)
        ensures
            r.bars@.len() == 0,
    {
        Staff { bars: Vec::new() }
    }
}

#[derive(PartialEq, Eq, Structural, Debug, Clone, Copy)]
pub enum StaffInteractionState {
    Idle,
    /// Hovering a note
    Hovering(StaffIndex),
    /// Selected note at `StaffIndex` and the preview note has `Pitch`
    Selected(StaffIndex, Pitch),
}

impl Default for StaffInteractionState {
    fn default() -> (r: Self)
        ensures
            r == StaffInteractionState::Idle,
    {
        StaffInteractionState::Idle
    }
}

impl StaffInteractionState {
    /// The interaction with the bar at `bar_index`.
    pub fn bar_interaction(&self, bar_index: usize) -> (r: BarInteraction)
        ensures
            match *self {
                StaffInteractionState::Idle => r is Idle,
                StaffInteractionState::Hovering(i) => if i.bar_index == bar_index {
                    r == BarInteraction::Hovering(i.note_index)
                } else {
                    r is Idle
                },
                StaffInteractionState::Selected(i, p) => if i.bar_index == bar_index {
                    r == BarInteraction::Selected(i.note_index, p)
                } else {
                    r is Idle
                },
            },
    {
        match self {
            StaffInteractionState::Idle => BarInteraction::Idle,
            StaffInteractionState::Hovering(staff_index) => {
                if staff_index.bar_index == bar_index {
                    BarInteraction::Hovering(staff_index.note_index)
                } else {
                    BarInteraction::Idle
                }
            },
            StaffInteractionState::Selected(staff_idx, selected_pitch) => {
                if staff_idx.bar_index == bar_index {
                    BarInteraction::Selected(staff_idx.note_index, *selected_pitch)
                } else {
                    BarInteraction::Idle
                }
            },
        }
    }
}

/// Every note that `state` refers to is a note of `staff`.
pub open spec fn interaction_valid(staff: &Staff, state: StaffInteractionState) -> bool {
    match state {
        StaffInteractionState::Idle => true,
        StaffInteractionState::Hovering(i) => staff.has_note(i),
        StaffInteractionState::Selected(i, _) => staff.has_note(i),
    }
}

#[derive(Clone, Copy, Debug)]
pub enum StaffInteractionMsg {
    /// Note at `StaffIndex` been selected and the preview note has `Pitch`
    SetPreviewNotePitch(StaffIndex, Pitch),
    /// Set the pitch of the selected note to that of the preview note
    CommitPreviewNote,
    /// Start hovering the note at `StaffIndex`
    StartHovering(StaffIndex),
    /// Stop hovering note
    StopHovering,
}

/// Every note that `msg` refers to is a note of `staff`.
pub open spec fn msg_valid(staff: &Staff, msg: StaffInteractionMsg) -> bool {
    match msg {
        StaffInteractionMsg::SetPreviewNotePitch(i, _) => staff.has_note(i),
        StaffInteractionMsg::StartHovering(i) => staff.has_note(i),
        _ => true,
    }
}

/// A commit of a preview note names a note of `staff` (the one message that writes
/// to the staff; the others only store the note they name).
pub open spec fn commit_valid(
    staff: &Staff,
    state: StaffInteractionState,
    msg: StaffInteractionMsg,
) -> bool {
    match (msg, state) {
        (StaffInteractionMsg::CommitPreviewNote, StaffInteractionState::Selected(i, _)) => staff.has_note(i),
        _ => true,
    }
}

/// The interaction state after handling `msg` in state `state`.
pub open spec fn next_interaction(
    state: StaffInteractionState,
    msg: StaffInteractionMsg,
) -> StaffInteractionState {
    match msg {
        StaffInteractionMsg::SetPreviewNotePitch(i, p) => StaffInteractionState::Selected(i, p),
        StaffInteractionMsg::CommitPreviewNote => match state {
            StaffInteractionState::Selected(_, _) => StaffInteractionState::Idle,
            _ => state,
        },
        StaffInteractionMsg::StartHovering(i) => StaffInteractionState::Hovering(i),
        StaffInteractionMsg::StopHovering => StaffInteractionState::Idle,
    }
}

/// Previewing a pitch for a note and then committing it leaves nothing selected
/// (and, by `handle_staff_interaction_msg`, gives the note that pitch).
pub proof fn lemma_preview_then_commit(state: StaffInteractionState, i: StaffIndex, p: Pitch)
    ensures
        next_interaction(state, StaffInteractionMsg::SetPreviewNotePitch(i, p))
            == StaffInteractionState::Selected(i, p),
        next_interaction(
            next_interaction(state, StaffInteractionMsg::SetPreviewNotePitch(i, p)),
            StaffInteractionMsg::CommitPreviewNote,
        ) == StaffInteractionState::Idle,
{
}

/// Hovering a note records that note; stopping hovering leaves nothing hovered or
/// selected; committing when no note is selected changes nothing.
pub proof fn lemma_interaction_messages(state: StaffInteractionState, i: StaffIndex)
    ensures
        next_interaction(state, StaffInteractionMsg::StartHovering(i))
            == StaffInteractionState::Hovering(i),
        next_interaction(state, StaffInteractionMsg::StopHovering) == StaffInteractionState::Idle,
        !(state is Selected) ==> next_interaction(state, StaffInteractionMsg::CommitPreviewNote)
            == state,
{
}

/// Applies `staff_interaction_msg` to the interaction state; committing a preview
/// note sets the selected note's pitch in `staff`. Returns whether the staff has to
/// be drawn again: the state changed, or a note was committed.
pub fn handle_staff_interaction_msg(
    staff_interaction_msg: StaffInteractionMsg,
    staff: &mut Staff,
    staff_interaction: &mut StaffInteractionState,
) -> (staff_modified: bool)
    requires
        commit_valid(old(staff), *old(staff_interaction), staff_interaction_msg),
    ensures
        *final(staff_interaction) == next_interaction(*old(staff_interaction), staff_interaction_msg),
        staff_modified == (*final(staff_interaction) != *old(staff_interaction)),
        match (staff_interaction_msg, *old(staff_interaction)) {
            (StaffInteractionMsg::CommitPreviewNote, StaffInteractionState::Selected(i, p)) => {
                &&& final(staff).bars@.len() == old(staff).bars@.len()
                &&& forall|b: int|
                    0 <= b < old(staff).bars@.len() && b != i.bar_index ==> #[trigger] final(staff).bars@[b]@ == old(staff).bars@[b]@
                &&& final(staff).bars@[i.bar_index as int]@ == old(staff).bars@[i.bar_index as int]@.update(
                    i.note_index as int,
                    NoteValue {
                        pitch: Some(p),
                        base_duration: old(staff).bars@[i.bar_index as int]@[i.note_index as int].base_duration,
                    },
                )
            },
            _ => *final(staff) == *old(staff),
        },
        interaction_valid(old(staff), *old(staff_interaction)) && msg_valid(
            old(staff),
            staff_interaction_msg,
        ) ==> interaction_valid(final(staff), *final(staff_interaction)),
        old(staff).is_supported() ==> final(staff).is_supported(),
        old(staff).bars_nonempty() ==> final(staff).bars_nonempty(),
{
    let mut staff_modified = false;
    match staff_interaction_msg {
        StaffInteractionMsg::SetPreviewNotePitch(staff_index, preview_pitch) => {
            let new_staff_interaction = StaffInteractionState::Selected(staff_index, preview_pitch);
            if new_staff_interaction != *staff_interaction {
                *staff_interaction = new_staff_interaction;
                staff_modified = true;
            }
        },
        StaffInteractionMsg::CommitPreviewNote => match *staff_interaction {
            StaffInteractionState::Selected(staff_index, preview_pitch) => {
                *staff_interaction = StaffInteractionState::Idle;
                staff.set_note_pitch(&staff_index, Some(preview_pitch));
                staff_modified = true;
                proof {
                    assert forall|b: int| 0 <= b < staff.bars@.len() implies all_supported(
                        #[trigger] staff.bars@[b]@,
                    ) || !old(staff).is_supported() by {
                        if old(staff).is_supported() && b == staff_index.bar_index {
                            assert(all_supported(old(staff).bars@[b]@));
                        }
                    }
                }
            },
            StaffInteractionState::Idle | StaffInteractionState::Hovering(..) => (),
        },
        StaffInteractionMsg::StartHovering(staff_index) => {
            let new_staff_interaction = StaffInteractionState::Hovering(staff_index);
            if new_staff_interaction != *staff_interaction {
                *staff_interaction = new_staff_interaction;
                staff_modified = true;
            }
        },
        StaffInteractionMsg::StopHovering => {
            let new_staff_interaction = StaffInteractionState::Idle;
            if new_staff_interaction != *staff_interaction {
                *staff_interaction = new_staff_interaction;
                staff_modified = true;
            }
        },
    }
    staff_modified
}

/// The message a left click on the staff publishes, given whether it hit the button
/// that adds a bar and the pitch at the cursor's height (none below the lowest pitch).
pub fn left_click_message(
    staff_interaction: &StaffInteractionState,
    on_new_bar_button: bool,
    pitch_at_cursor: Option<Pitch>,
) -> (r: Option<ScoreEditingMessage>)
    ensures
        on_new_bar_button ==> r == Some(ScoreEditingMessage::AddBarButtonClick),
        !on_new_bar_button ==> r == match *staff_interaction {
            StaffInteractionState::Idle => None,
            StaffInteractionState::Hovering(i) => match pitch_at_cursor {
                Some(p) => Some(
                    ScoreEditingMessage::StaffInteractionMsg(
                        StaffInteractionMsg::SetPreviewNotePitch(i, p),
                    ),
                ),
                None => None,
            },
            StaffInteractionState::Selected(_, _) => Some(
                ScoreEditingMessage::StaffInteractionMsg(StaffInteractionMsg::CommitPreviewNote),
            ),
        },
{
    if on_new_bar_button {
        return Some(ScoreEditingMessage::AddBarButtonClick);
    }
    match staff_interaction {
        StaffInteractionState::Idle => None,
        StaffInteractionState::Hovering(staff_index) => match pitch_at_cursor {
            Some(hovered_pitch) => Some(
                ScoreEditingMessage::StaffInteractionMsg(
                    StaffInteractionMsg::SetPreviewNotePitch(*staff_index, hovered_pitch),
                ),
            ),
            None => None,
        },
        StaffInteractionState::Selected(..) => Some(
            ScoreEditingMessage::StaffInteractionMsg(StaffInteractionMsg::CommitPreviewNote),
        ),
    }
}

/// The message moving the cursor over the staff publishes, given the note under the
/// cursor and the pitch at the cursor's height.
pub fn cursor_moved_message(
    staff_interaction: &StaffInteractionState,
    note_at_cursor: Option<StaffIndex>,
    pitch_at_cursor: Option<Pitch>,
) -> (r: Option<StaffInteractionMsg>)
    ensures
        r == match *staff_interaction {
            StaffInteractionState::Selected(i, _) => match pitch_at_cursor {
                Some(p) => Some(StaffInteractionMsg::SetPreviewNotePitch(i, p)),
                None => None,
            },
            _ => match note_at_cursor {
                Some(i) => Some(StaffInteractionMsg::StartHovering(i)),
                None => Some(StaffInteractionMsg::StopHovering),
            },
        },
{
    match staff_interaction {
        StaffInteractionState::Idle | StaffInteractionState::Hovering(..) => match note_at_cursor {
            Some(hovering_index) => Some(StaffInteractionMsg::StartHovering(hovering_index)),
            None => Some(StaffInteractionMsg::StopHovering),
        },
        StaffInteractionState::Selected(staff_index, _) => match pitch_at_cursor {
            Some(hovered_pitch) => Some(
                StaffInteractionMsg::SetPreviewNotePitch(*staff_index, hovered_pitch),
            ),
            None => None,
        },
    }
}

/// The messages the staff publishes name only notes of the staff, when the state and
/// the note under the cursor do.
pub proof fn lemma_published_messages_valid(
    staff: &Staff,
    state: StaffInteractionState,
    note_at_cursor: Option<StaffIndex>,
    pitch_at_cursor: Option<Pitch>,
)
    requires
        interaction_valid(staff, state),
        note_at_cursor matches Some(i) ==> staff.has_note(i),
    ensures
        match state {
            StaffInteractionState::Selected(i, _) => match pitch_at_cursor {
                Some(p) => msg_valid(staff, StaffInteractionMsg::SetPreviewNotePitch(i, p)),
                None => true,
            },
            _ => match note_at_cursor {
                Some(i) => msg_valid(staff, StaffInteractionMsg::StartHovering(i)),
                None => msg_valid(staff, StaffInteractionMsg::StopHovering),
            },
        },
        match state {
            StaffInteractionState::Hovering(i) => match pitch_at_cursor {
                Some(p) => msg_valid(staff, StaffInteractionMsg::SetPreviewNotePitch(i, p)),
                None => true,
            },
            _ => msg_valid(staff, StaffInteractionMsg::CommitPreviewNote),
        },
{
}

} // verus!
