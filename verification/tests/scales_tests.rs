use modal_orbit::scales::{circular_root_indices, generate_all_scales, generate_scale, Note, Scale};
use modal_orbit::theory::{mode_intervals, AEOLIAN, REPETITIONS_PER_SCALE};

fn names(notes: &[Note]) -> Vec<&'static str> {
    notes.iter().map(|n| n.name()).collect()
}

fn semitones(notes: &[Note]) -> Vec<i32> {
    notes.iter().map(|n| n.semitone).collect()
}

fn ascending_names(mode: usize) -> Vec<&'static str> {
    let notes = generate_scale(0, &mode_intervals(mode), true);
    names(&notes[..8])
}

#[test]
fn c_mode_examples() {
    assert_eq!(ascending_names(0), vec!["C", "D", "E", "F", "G", "A", "B", "C"]);
    assert_eq!(ascending_names(1), vec!["C", "D", "D#", "F", "G", "A", "A#", "C"]);
    assert_eq!(ascending_names(2), vec!["C", "C#", "D#", "F", "G", "G#", "A#", "C"]);
    assert_eq!(ascending_names(3), vec!["C", "D", "E", "F#", "G", "A", "B", "C"]);
    assert_eq!(ascending_names(4), vec!["C", "D", "E", "F", "G", "A", "A#", "C"]);
    assert_eq!(ascending_names(5), vec!["C", "D", "D#", "F", "G", "G#", "A#", "C"]);
    assert_eq!(ascending_names(6), vec!["C", "C#", "D#", "F", "F#", "G#", "A#", "C"]);
}

#[test]
fn c_major_circular_pattern() {
    let notes = generate_scale(0, &mode_intervals(0), true);
    assert_eq!(
        semitones(&notes),
        vec![48, 50, 52, 53, 55, 57, 59, 60, 59, 57, 55, 53, 52, 50]
    );
}

#[test]
fn circular_pattern_is_mirrored() {
    for root in 0..12 {
        for mode in 0..7 {
            for major in [true, false] {
                let notes = generate_scale(root, &mode_intervals(mode), major);
                assert_eq!(notes.len(), 14);
                assert_eq!(notes[0].semitone, root as i32 + 48);
                assert_eq!(notes[7].semitone, root as i32 + 60);
                for i in 1..7 {
                    assert_eq!(notes[i], notes[14 - i]);
                }
            }
        }
    }
}

#[test]
fn minor_variant_uses_natural_minor() {
    let minor = generate_scale(2, &mode_intervals(3), false);
    let aeolian = generate_scale(2, &mode_intervals(AEOLIAN), true);
    assert_eq!(minor, aeolian);
    assert_eq!(
        names(&minor[..8]),
        vec!["D", "E", "F", "G", "A", "A#", "C", "D"]
    );
}

#[test]
fn a_dorian_names_wrap_the_octave() {
    let notes = generate_scale(9, &mode_intervals(1), true);
    assert_eq!(
        names(&notes),
        vec!["A", "B", "C", "D", "E", "F#", "G", "A", "G", "F#", "E", "D", "C", "B"]
    );
    assert_eq!(notes[7].semitone, 69);
}

#[test]
fn short_patterns() {
    assert_eq!(semitones(&generate_scale(4, &[], true)), vec![52]);
    assert_eq!(semitones(&generate_scale(4, &[3], true)), vec![52, 55]);
    assert_eq!(semitones(&generate_scale(4, &[3, -5], true)), vec![52, 55, 50, 55]);
    assert_eq!(names(&generate_scale(0, &[-1], true)), vec!["C", "B"]);
}

#[test]
fn root_walk_goes_up_then_down() {
    assert_eq!(
        circular_root_indices(),
        vec![0, 1, 2, 3, 4, 5, 6, 7, 8, 9, 10, 11, 10, 9, 8, 7, 6, 5, 4, 3, 2, 1]
    );
}

fn key(s: &Scale) -> (usize, usize, bool) {
    (s.mode, s.root, s.is_major)
}

#[test]
fn all_scales_count_and_order() {
    let scales = generate_all_scales();
    assert_eq!(scales.len(), 286);
    assert_eq!(scales.len() * REPETITIONS_PER_SCALE, 858);
    assert_eq!(key(&scales[0]), (0, 0, true));
    assert_eq!(key(&scales[1]), (0, 0, false));
    assert_eq!(key(&scales[2]), (0, 1, true));
    assert_eq!(key(&scales[43]), (0, 1, false));
    assert_eq!(key(&scales[44]), (1, 0, true));
    assert_eq!(key(&scales[220]), (5, 0, true));
    assert_eq!(key(&scales[221]), (5, 1, true));
    assert_eq!(key(&scales[241]), (5, 1, true));
    assert_eq!(key(&scales[242]), (6, 0, true));
    assert_eq!(key(&scales[285]), (6, 1, false));
    assert!(!scales.iter().any(|s| s.mode == AEOLIAN && !s.is_major));
    for s in &scales {
        assert_eq!(s.notes, generate_scale(s.root, &mode_intervals(s.mode), s.is_major));
        assert_eq!(s.root_name(), s.notes[0].name());
    }
}

#[test]
fn scale_display_names() {
    let scales = generate_all_scales();
    let s = &scales[45];
    assert_eq!(s.mode_name(), "Dorian");
    assert_eq!(s.root_name(), "C");
    assert_eq!(s.variant_name(), "Minor");
    assert_eq!(
        s.note_names(),
        vec!["C", "D", "D#", "F", "G", "G#", "A#", "C", "A#", "G#", "G", "F", "D#", "D"]
    );
}
