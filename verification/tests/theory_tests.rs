use modal_orbit::theory::{
    circle_of_fifths, mode_intervals, mode_name, natural_minor_intervals, note_name, pitch_class_of,
    semitones_from_a4, AEOLIAN, MODE_COUNT,
};

#[test]
fn circle_of_fifths_from_c() {
    let names: Vec<&str> = (0..12).map(|i| note_name(circle_of_fifths(i))).collect();
    assert_eq!(
        names,
        vec!["C", "G", "D", "A", "E", "B", "F#", "C#", "G#", "D#", "A#", "F"]
    );
}

#[test]
fn circle_of_fifths_visits_every_pitch_class_once() {
    let mut seen = [false; 12];
    for i in 0..12 {
        let pc = circle_of_fifths(i);
        assert!(!seen[pc]);
        seen[pc] = true;
        assert_eq!(circle_of_fifths((i + 1) % 12), (pc + 7) % 12);
    }
}

#[test]
fn modes_are_rotations_of_major() {
    let ionian = mode_intervals(0);
    for m in 0..MODE_COUNT {
        let ivs = mode_intervals(m);
        for i in 0..7 {
            assert_eq!(ivs[i], ionian[(i + m) % 7]);
        }
        assert_eq!(ivs.iter().sum::<i32>(), 12);
    }
}

#[test]
fn natural_minor_is_aeolian() {
    assert_eq!(natural_minor_intervals(), mode_intervals(AEOLIAN));
    assert_eq!(natural_minor_intervals(), [2, 1, 2, 2, 1, 2, 2]);
}

#[test]
fn mode_names_in_order() {
    let names: Vec<&str> = (0..MODE_COUNT).map(mode_name).collect();
    assert_eq!(
        names,
        vec![
            "Ionian (Major)",
            "Dorian",
            "Phrygian",
            "Lydian",
            "Mixolydian",
            "Aeolian (Natural Minor)",
            "Locrian"
        ]
    );
}

#[test]
fn pitch_class_of_handles_negative_semitones() {
    assert_eq!(pitch_class_of(-1), 11);
    assert_eq!(pitch_class_of(-12), 0);
    assert_eq!(pitch_class_of(-13), 11);
    assert_eq!(pitch_class_of(61), 1);
    assert_eq!(pitch_class_of(i32::MIN), 4);
    assert_eq!(pitch_class_of(i32::MAX), 7);
}

#[test]
fn semitones_from_a4_reference() {
    assert_eq!(semitones_from_a4(57), 0);
    assert_eq!(semitones_from_a4(69), 12);
    assert_eq!(semitones_from_a4(48), -9);
    assert_eq!(semitones_from_a4(36), -21);
}
