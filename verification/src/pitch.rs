use vstd::prelude::*;

verus! {

/// The seven natural pitch classes, in ascending order within an octave.
#[derive(PartialEq, Eq, Structural, PartialOrd, Ord, Debug, Clone, Copy)]
pub enum PitchClass {
    C,
    D,
    E,
    F,
    G,
    A,
    B,
}

/// Position of a pitch class within the octave, counted in staff steps from C.
pub open spec fn class_index(pc: PitchClass) -> nat {
    match pc {
        PitchClass::C => 0,
        PitchClass::D => 1,
        PitchClass::E => 2,
        PitchClass::F => 3,
        PitchClass::G => 4,
        PitchClass::A => 5,
        PitchClass::B => 6,
    }
}

/// The pitch class at step `i` (taken modulo 7) of the octave.
pub open spec fn class_at(i: nat) -> PitchClass {
    let r = i % 7;
    if r == 0 {
        PitchClass::C
    } else if r == 1 {
        PitchClass::D
    } else if r == 2 {
        PitchClass::E
    } else if r == 3 {
        PitchClass::F
    } else if r == 4 {
        PitchClass::G
    } else if r == 5 {
        PitchClass::A
    } else {
        PitchClass::B
    }
}

/// Semitones from C up to the natural pitch class.
pub open spec fn class_semitones(pc: PitchClass) -> int {
    match pc {
        PitchClass::C => 0,
        PitchClass::D => 2,
        PitchClass::E => 4,
        PitchClass::F => 5,
        PitchClass::G => 7,
        PitchClass::A => 9,
        PitchClass::B => 11,
    }
}

impl PitchClass {
    /// Step of this class within the octave (C is 0, B is 6).
    pub fn index(&self) -> (r: u8)
        ensures
            r as nat == class_index(*self),
            r < 7,
            *self == PitchClass::C ==> r == 0,
            *self == PitchClass::D ==> r == 1,
            *self == PitchClass::E ==> r == 2,
            *self == PitchClass::F ==> r == 3,
            *self == PitchClass::G ==> r == 4,
            *self == PitchClass::A ==> r == 5,
            *self == PitchClass::B ==> r == 6,
    {
        match self {
            PitchClass::C => 0,
            PitchClass::D => 1,
            PitchClass::E => 2,
            PitchClass::F => 3,
            PitchClass::G => 4,
            PitchClass::A => 5,
            PitchClass::B => 6,
        }
    }

    /// The pitch class at step `i % 7` of the octave.
    pub fn from_index(i: u8) -> (r: PitchClass)
        ensures
            r == class_at(i as nat),
            class_index(r) == i % 7,
            i % 7 == 0 ==> r == PitchClass::C,
            i % 7 == 1 ==> r == PitchClass::D,
            i % 7 == 2 ==> r == PitchClass::E,
            i % 7 == 3 ==> r == PitchClass::F,
            i % 7 == 4 ==> r == PitchClass::G,
            i % 7 == 5 ==> r == PitchClass::A,
            i % 7 == 6 ==> r == PitchClass::B,
    {
        let m = i % 7;
        if m == 0 {
            PitchClass::C
        } else if m == 1 {
            PitchClass::D
        } else if m == 2 {
            PitchClass::E
        } else if m == 3 {
            PitchClass::F
        } else if m == 4 {
            PitchClass::G
        } else if m == 5 {
            PitchClass::A
        } else {
            PitchClass::B
        }
    }
}

#[derive(Debug, PartialEq, Eq, Structural, Clone, Copy)]
pub enum Accidental {
    Sharp,
    Flat,
    Natural,
}

/// Semitone shift of an optional accidental (no accidental shifts nothing).
pub open spec fn accidental_semitones(a: Option<Accidental>) -> int {
    match a {
        None => 0,
        Some(Accidental::Sharp) => 1,
        Some(Accidental::Flat) => -1,
        Some(Accidental::Natural) => 0,
    }
}

impl Accidental {
    /// The SMuFL code point that draws this accidental.
    pub fn to_glyph(&self) -> (r: &'static str)
        ensures
            *self == Accidental::Sharp ==> r@ == "\u{E262}"@,
            *self == Accidental::Natural ==> r@ == "\u{E261}"@,
            *self == Accidental::Flat ==> r@ == "\u{E260}"@,
    {
        match self {
            Accidental::Sharp => "\u{E262}",
            Accidental::Natural => "\u{E261}",
            Accidental::Flat => "\u{E260}",
        }
    }
}

#[derive(Debug, PartialEq, Eq, Structural, Clone, Copy)]
pub struct Pitch {
    pub pitch_class: PitchClass,
    pub octave: u8,
    pub accidental: Option<Accidental>,
}

/// Staff index is the note's position in the staff, ignoring accidentals
/// i.e. C0, Cb0 and C#0 all map to 0, D0 maps to 1, E0 maps to 2, etc.
pub struct StaffIndex(pub u8);

/// Staff position of a pitch: seven steps per octave plus the step of its class.
pub open spec fn staff_position(p: Pitch) -> nat {
    p.octave as nat * 7 + class_index(p.pitch_class)
}

/// MIDI note number of a pitch: C0 is 12, each octave adds 12 semitones.
pub open spec fn midi_number(p: Pitch) -> int {
    12 + 12 * p.octave + class_semitones(p.pitch_class) + accidental_semitones(p.accidental)
}

/// The accidental a pitch carries after toggling `a` on it.
pub open spec fn toggled(current: Option<Accidental>, a: Accidental) -> Option<Accidental> {
    if current == Some(a) {
        None
    } else {
        Some(a)
    }
}

impl Pitch {
    pub fn new(pitch_class: PitchClass, octave: u8, accidental: Option<Accidental>) -> (r: Self)
        ensures
            r.pitch_class == pitch_class,
            r.octave == octave,
            r.accidental == accidental,
    {
        Pitch { pitch_class, octave, accidental }
    }

    pub fn to_midi_note_number(&self) -> (r: i32)
        ensures
            r as int == midi_number(*self),
    {
        let within_octave: i32 = match self.pitch_class {
            PitchClass::C => 0,
            PitchClass::D => 2,
            PitchClass::E => 4,
            PitchClass::F => 5,
            PitchClass::G => 7,
            PitchClass::A => 9,
            PitchClass::B => 11,
        };
        let accidental: i32 = match self.accidental {
            None => 0,
            Some(a) => match a {
                Accidental::Sharp => 1,
                Accidental::Flat => -1,
                Accidental::Natural => 0,
            },
        };
        let octave: i32 = self.octave as i32;
        12 + 12 * octave + within_octave + accidental
    }

    /// Convert a pitch to a staff index
    pub fn to_staff_index(&self) -> (r: StaffIndex)
        requires
            staff_position(*self) <= 255,
        ensures
            r.0 as nat == staff_position(*self),
    {
        StaffIndex(self.octave * 7 + self.pitch_class.index())
    }

    /// Convert a staff index to a pitch, with no accidentals
    pub fn from_staff_index(index: StaffIndex) -> (r: Self)
        ensures
            r.pitch_class == class_at(index.0 as nat),
            r.octave == index.0 / 7,
            r.accidental is None,
            staff_position(r) == index.0,
    {
        Pitch { pitch_class: PitchClass::from_index(index.0), octave: index.0 / 7, accidental: None }
    }

    /// Toggle the accidental
    /// eg. If the note is flat and `accidental` is flat, then the note's accidental becomes None
    /// eg. If the note is flat and `accidental` is sharp, then the note's accidental becomes sharp
    pub fn toggle_accidental(&self, accidental: Accidental) -> (r: Self)
        ensures
            r.pitch_class == self.pitch_class,
            r.octave == self.octave,
            r.accidental == toggled(self.accidental, accidental),
            self.accidental == Some(accidental) ==> r.accidental is None,
            self.accidental != Some(accidental) ==> r.accidental == Some(accidental),
    {
        let new_accidental = match self.accidental {
            None => Some(accidental),
            Some(a) => {
                if accidental == a {
                    None
                } else {
                    Some(accidental)
                }
            },
        };
        Pitch { pitch_class: self.pitch_class, octave: self.octave, accidental: new_accidental }
    }
}

/// Going from a pitch to its staff index and back gives the same pitch class and
/// octave (the accidental is not kept by a staff index).
pub proof fn lemma_staff_index_roundtrip(p: Pitch)
    ensures
        class_at(staff_position(p)) == p.pitch_class,
        staff_position(p) / 7 == p.octave,
{
}

/// Going from a staff index to a pitch and back gives the same staff index.
pub proof fn lemma_pitch_roundtrip(i: nat)
    requires
        i <= 255,
    ensures
        staff_position(Pitch { pitch_class: class_at(i), octave: (i / 7) as u8, accidental: None })
            == i,
{
}

/// Toggling the same accidental twice gives back the accidental toggled from, when
/// that was no accidental or this same one.
pub proof fn lemma_toggle_twice(current: Option<Accidental>, a: Accidental)
    requires
        current is None || current == Some(a),
    ensures
        toggled(toggled(current, a), a) == current,
{
}

/// Raising a pitch by an octave raises its MIDI note number by 12.
pub proof fn lemma_midi_octave(p: Pitch)
    requires
        p.octave < 255,
    ensures
        midi_number(Pitch { octave: (p.octave + 1) as u8, ..p }) == midi_number(p) + 12,
{
}

/// The steps of the natural pitch classes within an octave follow the scale
/// C D E F G A B upwards from C, one staff step each, and step `i` of the octave
/// is the class at that place in the scale.
pub proof fn lemma_class_steps()
    ensures
        class_index(PitchClass::C) == 0,
        class_index(PitchClass::D) == 1,
        class_index(PitchClass::E) == 2,
        class_index(PitchClass::F) == 3,
        class_index(PitchClass::G) == 4,
        class_index(PitchClass::A) == 5,
        class_index(PitchClass::B) == 6,
        class_at(0) == PitchClass::C,
        class_at(1) == PitchClass::D,
        class_at(2) == PitchClass::E,
        class_at(3) == PitchClass::F,
        class_at(4) == PitchClass::G,
        class_at(5) == PitchClass::A,
        class_at(6) == PitchClass::B,
{
}

/// The natural pitch classes lie at the semitone offsets of the major scale from C:
/// whole tones between C D E and between F G A B, half tones from E to F and from B
/// up to the next C.
pub proof fn lemma_major_scale()
    ensures
        class_semitones(PitchClass::C) == 0,
        class_semitones(PitchClass::D) == 2,
        class_semitones(PitchClass::E) == 4,
        class_semitones(PitchClass::F) == 5,
        class_semitones(PitchClass::G) == 7,
        class_semitones(PitchClass::A) == 9,
        class_semitones(PitchClass::B) == 11,
{
}

/// One staff step up from a natural pitch is the next natural pitch: a whole tone
/// higher, except from E to F and from B to the C above, which are half tones.
pub proof fn lemma_staff_step_up(p: Pitch)
    requires
        p.accidental is None,
        p.octave < 255,
    ensures
        ({
            let s = staff_position(p) + 1;
            let q = Pitch { pitch_class: class_at(s), octave: (s / 7) as u8, accidental: None };
            &&& staff_position(q) == s
            &&& midi_number(q) - midi_number(p) == if p.pitch_class == PitchClass::E
                || p.pitch_class == PitchClass::B {
                1int
            } else {
                2int
            }
        }),
{
    let s = staff_position(p) + 1;
    assert(s == p.octave * 7 + class_index(p.pitch_class) + 1);
    if p.pitch_class == PitchClass::B {
        assert(s == (p.octave + 1) * 7);
        assert(s % 7 == 0 && s / 7 == p.octave + 1);
    } else {
        assert(s % 7 == class_index(p.pitch_class) + 1 && s / 7 == p.octave);
    }
}

/// For natural pitches, a higher place on the staff is a higher note: staff
/// positions are ordered as MIDI note numbers are.
pub proof fn lemma_staff_order_is_pitch_order(p: Pitch, q: Pitch)
    requires
        p.accidental is None,
        q.accidental is None,
    ensures
        staff_position(p) < staff_position(q) <==> midi_number(p) < midi_number(q),
        staff_position(p) == staff_position(q) <==> midi_number(p) == midi_number(q),
{
}

/// Toggling an accidental the pitch does not carry sets it, whatever the pitch
/// carries now (a natural sign included); toggling the one it carries removes it.
pub proof fn lemma_toggle_sets_or_clears(current: Option<Accidental>, a: Accidental)
    ensures
        current != Some(a) ==> toggled(current, a) == Some(a),
        current == Some(a) ==> toggled(current, a) is None,
{
}

} // verus!
