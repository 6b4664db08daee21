use notation::note_or_rest::{BaseDuration, NoteOrRest, StemDirection, TICKS_PER_BEAT};
use notation::pitch::{Pitch, PitchClass};

#[test]
fn duration_ticks() {
    assert_eq!(BaseDuration(0).get_duration_ticks(), 128);
    assert_eq!(BaseDuration(1).get_duration_ticks(), 64);
    assert_eq!(BaseDuration(2).get_duration_ticks(), TICKS_PER_BEAT);
    assert_eq!(BaseDuration(3).get_duration_ticks(), 16);
    assert_eq!(BaseDuration(7).get_duration_ticks(), 1);
}

#[test]
fn duration_from_ticks() {
    assert_eq!(BaseDuration::from_duration_ticks(128), BaseDuration(0));
    assert_eq!(BaseDuration::from_duration_ticks(32), BaseDuration(2));
    assert_eq!(BaseDuration::from_duration_ticks(1), BaseDuration(7));
    for d in 0..=7u8 {
        let b = BaseDuration(d);
        assert_eq!(BaseDuration::from_duration_ticks(b.get_duration_ticks()), b);
    }
}

#[test]
fn duration_order_is_flipped() {
    assert!(BaseDuration(0) > BaseDuration(1));
    assert!(BaseDuration(3) < BaseDuration(2));
    assert!(BaseDuration(4) <= BaseDuration(4));
    assert!(BaseDuration(5) <= BaseDuration(1));
    assert!(!(BaseDuration(1) <= BaseDuration(5)));
}

#[test]
fn glyphs_for_durations() {
    assert_eq!(BaseDuration(0).rest_glyph(), "\u{E4E3}");
    assert_eq!(BaseDuration(2).rest_glyph(), "\u{E4E5}");
    assert_eq!(BaseDuration(7).rest_glyph(), "\u{E4EA}");
    assert_eq!(BaseDuration(0).note_head_glyph(), "\u{E0A2}");
    assert_eq!(BaseDuration(1).note_head_glyph(), "\u{E0A3}");
    assert_eq!(BaseDuration(5).note_head_glyph(), "\u{E0A4}");
    assert_eq!(BaseDuration(3).flag_glyph(StemDirection::UP), 57920);
    assert_eq!(BaseDuration(3).flag_glyph(StemDirection::DOWN), 57921);
    assert_eq!(BaseDuration(7).flag_glyph(StemDirection::DOWN), 57929);
}

#[test]
fn note_or_rest_accessors() {
    let p = Pitch::new(PitchClass::D, 4, None);
    let mut n = NoteOrRest::new(Some(p), BaseDuration(2));
    assert_eq!(n.get_pitch(), Some(p));
    assert_eq!(n.get_base_duration(), BaseDuration(2));
    n.set_pitch(None);
    assert_eq!(n.get_pitch(), None);
    n.set_base_duration(BaseDuration(4));
    assert_eq!(n.get_base_duration(), BaseDuration(4));
}
