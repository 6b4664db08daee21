use notation::canvas_el::CWidgetUpdate;
use notation::fraction::Fraction;
use notation::midi::{MidiMessage, MidiMessageTimed};
use notation::note::StemDirection;
use notation::playback::StereoSamples;
use std::time::Duration;

#[test]
fn note_on_message() {
    let m = MidiMessage::note_on(3, 60, 100);
    assert_eq!((m.channel, m.command, m.data1, m.data2), (3, 0x90, 60, 100));
}

#[test]
fn note_off_channel_messages() {
    let immediate = MidiMessage::note_off_channel(1, true);
    assert_eq!((immediate.channel, immediate.command, immediate.data1, immediate.data2), (1, 0xB0, 0x78, 0));
    let released = MidiMessage::note_off_channel(2, false);
    assert_eq!((released.channel, released.command, released.data1, released.data2), (2, 0xB0, 0x7B, 0));
}

#[test]
fn timed_message_keeps_duration() {
    let t = MidiMessageTimed::new(MidiMessage::note_on(0, 64, 90), Duration::from_millis(500));
    let c = t.clone();
    assert_eq!(c.duration, Duration::from_millis(500));
    assert_eq!(c.midi_message.data1, 64);
}

#[test]
fn fraction_from_whole_number() {
    let f = Fraction::from(3u8);
    assert_eq!(format!("{:?}", f), "Fraction { numerator: 3, denominator: 1 }");
}

#[test]
fn stereo_samples_are_interleaved() {
    let mut s = StereoSamples::new(vec![1, 3, 5], vec![2, 4, 6]);
    assert_eq!(s.remaining_len(), 6);
    let mut out = Vec::new();
    while let Some(x) = s.next_sample() {
        out.push(x);
    }
    assert_eq!(out, vec![1, 2, 3, 4, 5, 6]);
    assert_eq!(s.remaining_len(), 0);
    assert_eq!(s.next_sample(), None);
}

#[test]
fn empty_stereo_samples() {
    let mut s: StereoSamples<u8> = StereoSamples::new(vec![], vec![]);
    assert_eq!(s.remaining_len(), 0);
    assert_eq!(s.next_sample(), None);
}

#[test]
fn widget_updates_and_stems() {
    let u: CWidgetUpdate<u8> = CWidgetUpdate::MESSAGE(4);
    assert!(matches!(u, CWidgetUpdate::MESSAGE(4)));
    let r: CWidgetUpdate<u8> = CWidgetUpdate::REDRAW;
    assert!(matches!(r, CWidgetUpdate::REDRAW));
    assert_ne!(StemDirection::UP, StemDirection::DOWN);
}

#[test]
fn stereo_samples_hand_out_every_sample_once_then_none() {
    let n = 50;
    let left: Vec<i32> = (0..n).map(|j| 2 * j).collect();
    let right: Vec<i32> = (0..n).map(|j| 2 * j + 1).collect();
    let mut s = StereoSamples::new(left, right);
    for k in 0..2 * n {
        assert_eq!(s.remaining_len(), (2 * n - k) as usize);
        assert_eq!(s.next_sample(), Some(k));
    }
    for _ in 0..3 {
        assert_eq!(s.next_sample(), None);
    }
}
