use guitar_gaming::song_notes::{midi_pitch_from_parts, note_with_octave_string_to_midi_pitch};
use guitar_gaming::tuning::{is_in_tune, note_name, note_to_offset, octave_from_note};

#[test]
fn note_offsets_cover_the_octave() {
    let names = ["C", "Db", "D", "Eb", "E", "F", "Gb", "G", "Ab", "A", "Bb", "B"];
    for (k, name) in names.iter().enumerate() {
        assert_eq!(note_to_offset(name), Some(k));
        assert_eq!(note_name(k), *name);
    }
}

#[test]
fn unknown_note_names_have_no_offset() {
    for name in ["", "H", "c", "C#", "Dbb", "Cb ", " A"] {
        assert_eq!(note_to_offset(name), None);
    }
}

#[test]
fn octave_uses_truncating_division() {
    assert_eq!(octave_from_note(69), 4);
    assert_eq!(octave_from_note(60), 4);
    assert_eq!(octave_from_note(59), 3);
    assert_eq!(octave_from_note(0), -1);
    assert_eq!(octave_from_note(-1), -1);
    assert_eq!(octave_from_note(-12), -2);
    assert_eq!(octave_from_note(-13), -2);
}

#[test]
fn tuner_window_is_ten_cents_exclusive() {
    assert!(is_in_tune(0));
    assert!(is_in_tune(9));
    assert!(is_in_tune(-9));
    assert!(!is_in_tune(10));
    assert!(!is_in_tune(-10));
    assert!(!is_in_tune(100));
}

#[test]
fn note_with_octave_reads_as_midi() {
    assert_eq!(note_with_octave_string_to_midi_pitch("Ab7"), Some(104));
    assert_eq!(note_with_octave_string_to_midi_pitch("C4"), Some(60));
    assert_eq!(note_with_octave_string_to_midi_pitch("A4"), Some(69));
    assert_eq!(note_with_octave_string_to_midi_pitch("E2"), Some(40));
    assert_eq!(note_with_octave_string_to_midi_pitch("C0"), Some(12));
}

#[test]
fn note_with_octave_is_found_inside_text() {
    assert_eq!(note_with_octave_string_to_midi_pitch("string xx C4 yy"), Some(60));
    assert_eq!(note_with_octave_string_to_midi_pitch("Eb10"), Some(27));
}

#[test]
fn note_with_octave_rejects_what_it_cannot_read() {
    assert_eq!(note_with_octave_string_to_midi_pitch(""), None);
    assert_eq!(note_with_octave_string_to_midi_pitch("A"), None);
    assert_eq!(note_with_octave_string_to_midi_pitch("A-1"), None);
    assert_eq!(note_with_octave_string_to_midi_pitch("c4"), None);
    assert_eq!(note_with_octave_string_to_midi_pitch("C#4"), None);
}

#[test]
fn midi_from_parts_follows_the_formula() {
    assert_eq!(midi_pitch_from_parts("Ab", "7"), Some(104));
    assert_eq!(midi_pitch_from_parts("B", "9"), Some(131));
    assert_eq!(midi_pitch_from_parts("C", "+4"), Some(60));
    assert_eq!(midi_pitch_from_parts("C", "-1"), None);
    assert_eq!(midi_pitch_from_parts("C", ""), None);
    assert_eq!(midi_pitch_from_parts("X", "4"), None);
    assert_eq!(midi_pitch_from_parts("C", "99999999999999999999999"), None);
    assert_eq!(midi_pitch_from_parts("C", &(usize::MAX / 12).to_string()), None);
}
