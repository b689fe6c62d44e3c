use modal_orbit::player::{Announcement, SequencePlayer};
use modal_orbit::scales::{generate_all_scales, generate_scale, Note, Scale};
use modal_orbit::theory::mode_intervals;

fn scale(mode: usize, root: usize, semitones: &[i32]) -> Scale {
    Scale {
        mode,
        root,
        is_major: true,
        notes: semitones.iter().map(|&s| Note { semitone: s }).collect(),
    }
}

#[test]
fn new_player_starts_on_first_note() {
    let p = SequencePlayer::new(vec![scale(0, 3, &[51, 53])], 4, 10);
    assert!(!p.is_finished());
    assert_eq!(p.scale_count(), 1);
    assert_eq!(p.get_current_semitone(), Some(51));
    assert_eq!(p.get_current_harmony_semitone(), Some(39));
    assert_eq!(
        p.current_announcement(true),
        Some(Announcement {
            scale_index: 0,
            performance: 1,
            total_performances: 3,
            repetition: 1,
            harmony_note: Some(3),
        })
    );
    assert_eq!(p.current_announcement(false).unwrap().harmony_note, None);
}

#[test]
fn notes_last_note_samples_and_repeat() {
    let mut p = SequencePlayer::new(vec![scale(0, 0, &[60, 62]), scale(1, 5, &[65])], 2, 7);
    let mut melody = Vec::new();
    let mut announcements = Vec::new();
    let mut samples = 0;
    loop {
        melody.push(p.get_current_semitone());
        let (playing, a) = p.advance_sample();
        samples += 1;
        if let Some(a) = a {
            announcements.push((samples, a));
        }
        if !playing {
            break;
        }
    }
    // Scale 0: 3 repetitions of 2 notes; scale 1: 3 repetitions of 1 note; 2 samples each.
    assert_eq!(samples, 2 * (3 * 2 + 3 * 1));
    assert_eq!(
        melody,
        vec![
            Some(60), Some(60), Some(62), Some(62),
            Some(60), Some(60), Some(62), Some(62),
            Some(60), Some(60), Some(62), Some(62),
            Some(65), Some(65), Some(65), Some(65), Some(65), Some(65),
        ]
    );
    let perf: Vec<(usize, usize, usize, usize)> = announcements
        .iter()
        .map(|(t, a)| (*t, a.scale_index, a.performance, a.repetition))
        .collect();
    assert_eq!(
        perf,
        vec![(4, 0, 2, 2), (8, 0, 3, 3), (12, 1, 4, 1), (14, 1, 5, 2), (16, 1, 6, 3)]
    );
    assert!(announcements.iter().all(|(_, a)| a.total_performances == 6));
    // Scale 1 is rooted on F; harmony still at the root until 12 notes have passed.
    assert_eq!(announcements[2].1.harmony_note, Some(5));
    assert!(p.is_finished());
    assert_eq!(p.get_current_semitone(), None);
    assert_eq!(p.get_current_harmony_semitone(), None);
    assert_eq!(p.advance_sample(), (false, None));
    assert_eq!(p.current_announcement(true), None);
}

#[test]
fn harmony_moves_a_fifth_every_twelve_notes() {
    let notes = generate_scale(2, &mode_intervals(0), true);
    let mut p = SequencePlayer::new(vec![Scale { mode: 0, root: 2, is_major: true, notes }], 1, 1);
    let mut harmony = Vec::new();
    for _ in 0..30 {
        harmony.push(p.get_current_harmony_semitone().unwrap());
        p.advance_sample();
    }
    // D, then A (a fifth up, folded into the third octave), then E.
    assert!(harmony[..12].iter().all(|&h| h == 38));
    assert!(harmony[12..24].iter().all(|&h| h == 45));
    assert!(harmony[24..].iter().all(|&h| h == 40));
}

#[test]
fn harmony_is_relative_to_each_scale_root() {
    // Two one-note scales: the second starts after 3 slots, the harmony moves after 12.
    let mut p = SequencePlayer::new(vec![scale(0, 0, &[48]), scale(0, 7, &[55])], 1, 1);
    let mut harmony = Vec::new();
    for _ in 0..6 {
        harmony.push(p.get_current_harmony_semitone().unwrap());
        p.advance_sample();
    }
    assert_eq!(harmony, vec![36, 36, 36, 43, 43, 43]);
}

#[test]
fn scale_without_notes_takes_one_silent_slot() {
    let mut p = SequencePlayer::new(vec![scale(2, 4, &[])], 1, 1);
    assert_eq!(p.get_current_semitone(), None);
    assert_eq!(p.get_current_harmony_semitone(), Some(40));
    let (playing, a) = p.advance_sample();
    assert!(playing);
    assert_eq!(a.unwrap().repetition, 2);
    let (playing, a) = p.advance_sample();
    assert!(playing);
    assert_eq!(a.unwrap().repetition, 3);
    assert_eq!(p.advance_sample(), (false, None));
}

#[test]
fn zero_length_notes_still_take_one_sample() {
    let mut p = SequencePlayer::new(vec![scale(0, 0, &[60, 61])], 0, 0);
    assert_eq!(p.get_current_semitone(), Some(60));
    p.advance_sample();
    assert_eq!(p.get_current_semitone(), Some(61));
}

#[test]
fn empty_playback_is_finished() {
    let mut p = SequencePlayer::new(Vec::new(), 10, 10);
    assert!(p.is_finished());
    assert_eq!(p.current_announcement(true), None);
    assert_eq!(p.advance_sample(), (false, None));
}

#[test]
fn full_playback_schedule() {
    let scales = generate_all_scales();
    let mut p = SequencePlayer::new(scales, 3, 5);
    let first = p.current_announcement(true).unwrap();
    assert_eq!(first.performance, 1);
    assert_eq!(first.total_performances, 858);
    assert_eq!(first.harmony_note, Some(0));
    let mut samples: usize = 0;
    let mut last_performance = 1;
    loop {
        let (playing, a) = p.advance_sample();
        samples += 1;
        if let Some(a) = a {
            assert_eq!(a.performance, last_performance + 1);
            assert_eq!(a.scale_index, (a.performance - 1) / 3);
            assert_eq!(a.repetition, (a.performance - 1) % 3 + 1);
            let slots = samples / 3;
            let root = p.scale(a.scale_index).root;
            let step = (slots / 12) % 12;
            assert_eq!(a.harmony_note, Some((root + 7 * step) % 12));
            last_performance = a.performance;
        }
        if !playing {
            break;
        }
    }
    assert_eq!(last_performance, 858);
    // 858 performances of 14 notes, 3 samples each.
    assert_eq!(samples, 858 * 14 * 3);
}
