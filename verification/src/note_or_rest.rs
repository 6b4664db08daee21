use core::cmp::Ordering;
use vstd::prelude::*;
use vstd::std_specs::cmp::PartialOrdSpecImpl;

use crate::pitch::{staff_position, Pitch};

verus! {

/// `2^k`.
pub open spec fn two_pow(k: nat) -> nat
    decreases k,
{
    if k == 0 {
        1
    } else {
        2 * two_pow((k - 1) as nat)
    }
}

/// Durations are counted in ticks: one tick is a 128th note, so a whole
/// note is 128 ticks and one beat (a quarter note) is `TICKS_PER_BEAT` ticks.
pub const TICKS_PER_BEAT: u32 = 32;

/// 0 -> Whole Note, 1 -> Half Note, 2 - Quarter Note, ...
/// Durations shorter than 128th notes note yet implemented
#[derive(PartialEq, Eq, Structural, Clone, Copy, Debug)]
pub struct BaseDuration(pub u8);

/// Length in ticks of a note with base duration `d`: `2^(7 - d)`.
pub open spec fn duration_ticks(d: BaseDuration) -> nat {
    two_pow((7 - d.0) as nat)
}

/// The lengths in ticks that a single note of some base duration can have.
pub open spec fn is_note_length(t: nat) -> bool {
    t == 1 || t == 2 || t == 4 || t == 8 || t == 16 || t == 32 || t == 64 || t == 128
}

/// The first eight powers of two, for reasoning about tick lengths.
pub proof fn lemma_small_powers()
    ensures
        two_pow(0) == 1,
        two_pow(1) == 2,
        two_pow(2) == 4,
        two_pow(3) == 8,
        two_pow(4) == 16,
        two_pow(5) == 32,
        two_pow(6) == 64,
        two_pow(7) == 128,
{
    reveal_with_fuel(two_pow, 8);
}

/// Every implemented base duration lasts a whole, positive number of ticks, at most a whole note.
pub proof fn lemma_duration_ticks_bounds(d: BaseDuration)
    requires
        d.0 <= 7,
    ensures
        is_note_length(duration_ticks(d)),
        1 <= duration_ticks(d) <= 128,
{
    lemma_small_powers();
}

/// Distinct implemented base durations last a different number of ticks.
pub proof fn lemma_duration_ticks_injective(a: BaseDuration, b: BaseDuration)
    requires
        a.0 <= 7,
        b.0 <= 7,
        duration_ticks(a) == duration_ticks(b),
    ensures
        a == b,
{
    lemma_small_powers();
}

/// A larger base duration number means a strictly shorter note.
pub proof fn lemma_duration_ticks_order(a: BaseDuration, b: BaseDuration)
    requires
        a.0 < b.0 <= 7,
    ensures
        duration_ticks(a) > duration_ticks(b),
{
    lemma_small_powers();
}

/// Each base duration lasts half as long as the one before it: a whole note lasts
/// 128 ticks and a quarter note one beat.
pub proof fn lemma_duration_halves(d: BaseDuration)
    requires
        1 <= d.0 <= 7,
    ensures
        2 * duration_ticks(d) == duration_ticks(BaseDuration((d.0 - 1) as u8)),
        duration_ticks(BaseDuration(0)) == 128,
        duration_ticks(BaseDuration(2)) == TICKS_PER_BEAT,
{
    lemma_small_powers();
    assert((7 - (d.0 - 1)) as nat == (7 - d.0) as nat + 1);
}

impl BaseDuration {
    /// Gets the duration of the note in ticks (128th notes)
    pub fn get_duration_ticks(&self) -> (r: u32)
        requires
            self.0 <= 7,
        ensures
            r as nat == duration_ticks(*self),
            is_note_length(r as nat),
    {
        proof {
            lemma_small_powers();
        }
        match self.0 {
            0 => 128,
            1 => 64,
            2 => 32,
            3 => 16,
            4 => 8,
            5 => 4,
            6 => 2,
            _ => 1,
        }
    }

    /// Construct a base duration from a number of ticks
    pub fn from_duration_ticks(ticks: u32) -> (r: Self)
        requires
            is_note_length(ticks as nat),
        ensures
            r.0 <= 7,
            duration_ticks(r) == ticks,
    {
        proof {
            lemma_small_powers();
        }
        if ticks == 128 {
            BaseDuration(0)
        } else if ticks == 64 {
            BaseDuration(1)
        } else if ticks == 32 {
            BaseDuration(2)
        } else if ticks == 16 {
            BaseDuration(3)
        } else if ticks == 8 {
            BaseDuration(4)
        } else if ticks == 4 {
            BaseDuration(5)
        } else if ticks == 2 {
            BaseDuration(6)
        } else {
            BaseDuration(7)
        }
    }

    /// The SMuFL code point of the rest with this base duration.
    pub fn rest_glyph(&self) -> (r: &'static str)
        requires
            self.0 <= 7,
        ensures
            self.0 == 0 ==> r@ == "\u{E4E3}"@,
            self.0 == 1 ==> r@ == "\u{E4E4}"@,
            self.0 == 2 ==> r@ == "\u{E4E5}"@,
            self.0 == 3 ==> r@ == "\u{E4E6}"@,
            self.0 == 4 ==> r@ == "\u{E4E7}"@,
            self.0 == 5 ==> r@ == "\u{E4E8}"@,
            self.0 == 6 ==> r@ == "\u{E4E9}"@,
            self.0 == 7 ==> r@ == "\u{E4EA}"@,
    {
        match self.0 {
            0 => "\u{E4E3}",
            1 => "\u{E4E4}",
            2 => "\u{E4E5}",
            3 => "\u{E4E6}",
            4 => "\u{E4E7}",
            5 => "\u{E4E8}",
            6 => "\u{E4E9}",
            _ => "\u{E4EA}",
        }
    }

    /// The SMuFL code point of the note head for this base duration.
    pub fn note_head_glyph(&self) -> (r: &'static str)
        ensures
            self.0 == 0 ==> r@ == "\u{E0A2}"@,
            self.0 == 1 ==> r@ == "\u{E0A3}"@,
            self.0 >= 2 ==> r@ == "\u{E0A4}"@,
    {
        match self.0 {
            0 => "\u{E0A2}",
            1 => "\u{E0A3}",
            _ => "\u{E0A4}",
        }
    }

    /// The SMuFL code point of the flag on a note with this base duration.
    pub fn flag_glyph(&self, stem_direction: StemDirection) -> (r: u32)
        requires
            3 <= self.0 <= 7,
        ensures
            r == 57920 + 2 * (self.0 - 3) + (if stem_direction == StemDirection::UP {
                0int
            } else {
                1int
            }),
    {
        let d: u32 = self.0 as u32;
        57920 + 2 * (d - 3) + match stem_direction {
            StemDirection::UP => 0,
            StemDirection::DOWN => 1,
        }
    }
}

/// Order on base durations by how long they last: a larger number is shorter.
pub open spec fn duration_order(a: BaseDuration, b: BaseDuration) -> Ordering {
    if a.0 > b.0 {
        Ordering::Less
    } else if a.0 == b.0 {
        Ordering::Equal
    } else {
        Ordering::Greater
    }
}

impl PartialOrd for BaseDuration {
    // Order is flipped
    fn partial_cmp(&self, other: &Self) -> (r: Option<Ordering>) {
        if self.0 > other.0 {
            Some(Ordering::Less)
        } else if self.0 == other.0 {
            Some(Ordering::Equal)
        } else {
            Some(Ordering::Greater)
        }
    }
}

impl PartialOrdSpecImpl for BaseDuration {
    open spec fn obeys_partial_cmp_spec() -> bool {
        true
    }

    open spec fn partial_cmp_spec(&self, other: &Self) -> Option<Ordering> {
        Some(duration_order(*self, *other))
    }
}

/// The order on base durations is the order of their lengths: a duration is at
/// most another exactly when it lasts at most as many ticks.
pub proof fn lemma_duration_order_is_length(a: BaseDuration, b: BaseDuration)
    requires
        a.0 <= 7,
        b.0 <= 7,
    ensures
        (duration_order(a, b) != Ordering::Greater) == (duration_ticks(a) <= duration_ticks(b)),
        (duration_order(a, b) == Ordering::Equal) == (duration_ticks(a) == duration_ticks(b)),
{
    lemma_small_powers();
}

/// What a note or rest denotes: its pitch (none for a rest) and its base duration.
#[derive(PartialEq, Eq, Structural, Clone, Copy, Debug)]
pub struct NoteValue {
    pub pitch: Option<Pitch>,
    pub base_duration: BaseDuration,
}

#[derive(Debug)]
pub struct NoteOrRest {
    /// When pitch is None its a rest
    pitch: Option<Pitch>,
    base_duration: BaseDuration,
}

impl View for NoteOrRest {
    type V = NoteValue;

    closed spec fn view(&self) -> NoteValue {
        NoteValue { pitch: self.pitch, base_duration: self.base_duration }
    }
}

impl NoteOrRest {
    pub fn new(pitch: Option<Pitch>, base_duration: BaseDuration) -> (r: Self)
        ensures
            r@ == (NoteValue { pitch, base_duration }),
    {
        NoteOrRest { pitch: pitch, base_duration }
    }

    pub fn get_base_duration(&self) -> (r: BaseDuration)
        ensures
            r == self@.base_duration,
    {
        self.base_duration
    }

    pub fn get_pitch(&self) -> (r: Option<Pitch>)
        ensures
            r == self@.pitch,
    {
        self.pitch
    }

    /// Setting pitch to None turns the note into a rest
    pub fn set_pitch(&mut self, pitch: Option<Pitch>)
        ensures
            final(self)@ == (NoteValue { pitch, base_duration: old(self)@.base_duration }),
    {
        self.pitch = pitch;
    }

    pub fn set_base_duration(&mut self, base_duration: BaseDuration)
        ensures
            final(self)@ == (NoteValue { pitch: old(self)@.pitch, base_duration }),
    {
        self.base_duration = base_duration;
    }
}

/// How the user is interacting with a single note or rest.
pub enum NoteInteraction {
    Idle,
    Hovering,
    Selected,
    Dragging,
}

#[derive(Debug, PartialEq, Eq, Structural, Clone, Copy)]
pub enum StemDirection {
    UP,
    DOWN,
}

/// Staff position of B4, the middle line of the treble staff.
pub open spec fn middle_line_position() -> nat {
    34
}

/// Notes above the middle line of the staff have their stem pointing down.
pub fn stem_direction(pitch: &Pitch) -> (r: StemDirection)
    requires
        staff_position(*pitch) <= 255,
    ensures
        r == (if staff_position(*pitch) > middle_line_position() {
            StemDirection::DOWN
        } else {
            StemDirection::UP
        }),
{
    let middle = Pitch::new(crate::pitch::PitchClass::B, 4, None);
    if pitch.to_staff_index().0 > middle.to_staff_index().0 {
        StemDirection::DOWN
    } else {
        StemDirection::UP
    }
}

/// The middle line of the treble staff is where B4 is written.
pub proof fn lemma_middle_line_is_b4()
    ensures
        middle_line_position() == staff_position(
            Pitch { pitch_class: crate::pitch::PitchClass::B, octave: 4, accidental: None },
        ),
{
}

} // verus!
