//! The music-theory tables: chromatic note names, the seven modes and the circle of fifths.
use vstd::prelude::*;

verus! {

/// How many times each scale is played before moving on.
pub const REPETITIONS_PER_SCALE: usize = 3;

/// Number of pitch classes in an octave.
pub const PITCH_CLASSES: usize = 12;

/// Number of musical modes.
pub const MODE_COUNT: usize = 7;

/// Index of the Aeolian (natural minor) mode in the mode table.
pub const AEOLIAN: usize = 5;

/// The semitone offset, relative to a root, of step `i` of the circle of fifths:
/// every step climbs a perfect fifth (seven semitones), folded into one octave.
pub open spec fn spec_circle_of_fifths(i: int) -> int {
    (7 * i) % 12
}

/// Step `i` of the circle of fifths: C, G, D, A, E, B, F#, C#, G#, D#, A#, F.
pub fn circle_of_fifths(i: usize) -> (r: usize)
    requires
        i < 12,
    ensures
        r == spec_circle_of_fifths(i as int),
        r < 12,
{
    let table: [usize; 12] = [0, 7, 2, 9, 4, 11, 6, 1, 8, 3, 10, 5];
    proof {
        assert(table@ =~= seq![0usize, 7, 2, 9, 4, 11, 6, 1, 8, 3, 10, 5]);
    }
    table[i]
}


/// Interval pattern (in semitones) of mode `m`: Ionian, Dorian, Phrygian, Lydian,
/// Mixolydian, Aeolian, Locrian.
pub open spec fn spec_mode_intervals(m: int) -> Seq<i32> {
    if m == 0 {
        seq![2i32, 2, 1, 2, 2, 2, 1]
    } else if m == 1 {
        seq![2i32, 1, 2, 2, 2, 1, 2]
    } else if m == 2 {
        seq![1i32, 2, 2, 2, 1, 2, 2]
    } else if m == 3 {
        seq![2i32, 2, 2, 1, 2, 2, 1]
    } else if m == 4 {
        seq![2i32, 2, 1, 2, 2, 1, 2]
    } else if m == 5 {
        seq![2i32, 1, 2, 2, 1, 2, 2]
    } else {
        seq![1i32, 2, 2, 1, 2, 2, 2]
    }
}

/// The natural minor pattern W-H-W-W-H-W-W, used for every minor variant.
pub open spec fn spec_natural_minor() -> Seq<i32> {
    seq![2i32, 1, 2, 2, 1, 2, 2]
}

/// Display name of mode `m`.
pub open spec fn spec_mode_name(m: int) -> Seq<char> {
    if m == 0 {
        "Ionian (Major)"@
    } else if m == 1 {
        "Dorian"@
    } else if m == 2 {
        "Phrygian"@
    } else if m == 3 {
        "Lydian"@
    } else if m == 4 {
        "Mixolydian"@
    } else if m == 5 {
        "Aeolian (Natural Minor)"@
    } else {
        "Locrian"@
    }
}

/// Name of pitch class `pc` (0 is C).
pub open spec fn spec_note_name(pc: int) -> Seq<char> {
    if pc == 0 {
        "C"@
    } else if pc == 1 {
        "C#"@
    } else if pc == 2 {
        "D"@
    } else if pc == 3 {
        "D#"@
    } else if pc == 4 {
        "E"@
    } else if pc == 5 {
        "F"@
    } else if pc == 6 {
        "F#"@
    } else if pc == 7 {
        "G"@
    } else if pc == 8 {
        "G#"@
    } else if pc == 9 {
        "A"@
    } else if pc == 10 {
        "A#"@
    } else {
        "B"@
    }
}

/// The pitch class of a semitone index (0 for every C, whatever the octave).
pub open spec fn pitch_class(semitone: int) -> int {
    semitone % 12
}

/// The interval pattern of mode `m`.
pub fn mode_intervals(m: usize) -> (r: [i32; 7])
    requires
        m < MODE_COUNT,
    ensures
        r@ == spec_mode_intervals(m as int),
{
    let r: [i32; 7] = if m == 0 {
        [2, 2, 1, 2, 2, 2, 1]
    } else if m == 1 {
        [2, 1, 2, 2, 2, 1, 2]
    } else if m == 2 {
        [1, 2, 2, 2, 1, 2, 2]
    } else if m == 3 {
        [2, 2, 2, 1, 2, 2, 1]
    } else if m == 4 {
        [2, 2, 1, 2, 2, 1, 2]
    } else if m == 5 {
        [2, 1, 2, 2, 1, 2, 2]
    } else {
        [1, 2, 2, 1, 2, 2, 2]
    };
    assert(r@ =~= spec_mode_intervals(m as int));
    r
}

/// The natural minor interval pattern.
pub fn natural_minor_intervals() -> (r: [i32; 7])
    ensures
        r@ == spec_natural_minor(),
{
    let r: [i32; 7] = [2, 1, 2, 2, 1, 2, 2];
    assert(r@ =~= spec_natural_minor());
    r
}

/// The display name of mode `m`.
pub fn mode_name(m: usize) -> (r: &'static str)
    requires
        m < MODE_COUNT,
    ensures
        r@ == spec_mode_name(m as int),
{
    if m == 0 {
        "Ionian (Major)"
    } else if m == 1 {
        "Dorian"
    } else if m == 2 {
        "Phrygian"
    } else if m == 3 {
        "Lydian"
    } else if m == 4 {
        "Mixolydian"
    } else if m == 5 {
        "Aeolian (Natural Minor)"
    } else {
        "Locrian"
    }
}

/// The name of pitch class `pc`.
pub fn note_name(pc: usize) -> (r: &'static str)
    requires
        pc < PITCH_CLASSES,
    ensures
        r@ == spec_note_name(pc as int),
{
    if pc == 0 {
        "C"
    } else if pc == 1 {
        "C#"
    } else if pc == 2 {
        "D"
    } else if pc == 3 {
        "D#"
    } else if pc == 4 {
        "E"
    } else if pc == 5 {
        "F"
    } else if pc == 6 {
        "F#"
    } else if pc == 7 {
        "G"
    } else if pc == 8 {
        "G#"
    } else if pc == 9 {
        "A"
    } else if pc == 10 {
        "A#"
    } else {
        "B"
    }
}

/// The pitch class (0..12) of a semitone index, also for negative indices.
pub fn pitch_class_of(semitone: i32) -> (r: usize)
    ensures
        r == pitch_class(semitone as int),
        r < PITCH_CLASSES,
{
    let r: i32 = (semitone % 12 + 12) % 12;
    r as usize
}

/// Number of semitones from A4 (index 57: A in the fourth octave, 440 Hz)
/// to the note with index `note_index`; equal temperament raises the
/// frequency by a factor 2^(1/12) per semitone.
pub fn semitones_from_a4(note_index: i32) -> (r: i32)
    requires
        note_index >= i32::MIN + 57,
    ensures
        r == note_index - 57,
{
    let a4_index: i32 = 9 + 4 * 12;
    note_index - a4_index
}


/// Pattern `s` started on its `k`-th element and wrapped around.
pub open spec fn rotate(s: Seq<i32>, k: int) -> Seq<i32> {
    Seq::new(s.len(), |i: int| s[(i + k) % (s.len() as int)])
}

/// Sum of an interval pattern, in semitones.
pub open spec fn interval_sum(s: Seq<i32>) -> int
    decreases s.len(),
{
    if s.len() == 0 {
        0
    } else {
        interval_sum(s.drop_last()) + s.last()
    }
}

/// Every mode is the major (Ionian) pattern started on another degree:
/// mode `m` is Ionian rotated by `m` steps.
pub proof fn lemma_modes_rotate_major(m: int)
    requires
        0 <= m < MODE_COUNT,
    ensures
        spec_mode_intervals(m) == rotate(spec_mode_intervals(0), m),
{
    let ionian = spec_mode_intervals(0);
    assert(spec_mode_intervals(m) =~= rotate(ionian, m)) by {
        assert forall|i: int| 0 <= i < 7 implies #[trigger] rotate(ionian, m)[i]
            == spec_mode_intervals(m)[i] by {
            let k = (i + m) % 7;
            assert(0 <= k < 7);
            assert(i + m < 7 ==> k == i + m);
            assert(i + m >= 7 ==> k == i + m - 7);
        }
    }
}

/// Every mode, and the natural minor pattern, climbs exactly one octave (12 semitones).
pub proof fn lemma_patterns_span_octave(m: int)
    requires
        0 <= m < MODE_COUNT,
    ensures
        interval_sum(spec_mode_intervals(m)) == 12,
        interval_sum(spec_natural_minor()) == 12,
{
    reveal_with_fuel(interval_sum, 8);
    let s = spec_mode_intervals(m);
    assert(s.drop_last().drop_last().drop_last().drop_last().drop_last().drop_last().drop_last()
        =~= Seq::<i32>::empty());
    let n = spec_natural_minor();
    assert(n.drop_last().drop_last().drop_last().drop_last().drop_last().drop_last().drop_last()
        =~= Seq::<i32>::empty());
}

/// The natural minor pattern is the Aeolian mode, so the minor variant of Aeolian
/// would repeat Aeolian itself.
pub proof fn lemma_natural_minor_is_aeolian()
    ensures
        spec_natural_minor() == spec_mode_intervals(AEOLIAN as int),
{
}

/// Twelve steps of the circle of fifths visit all twelve pitch classes, each once,
/// and each step climbs a fifth (seven semitones) modulo the octave.
pub proof fn lemma_circle_of_fifths_visits_all(i: int, j: int)
    requires
        0 <= i < j < 12,
    ensures
        spec_circle_of_fifths(i) != spec_circle_of_fifths(j),
        spec_circle_of_fifths(i + 1) == (spec_circle_of_fifths(i) + 7) % 12,
        0 <= spec_circle_of_fifths(i) < 12,
{
    assert(spec_circle_of_fifths(i) != spec_circle_of_fifths(j)) by (nonlinear_arith)
        requires
            0 <= i < j < 12,
    {
    }
    assert(spec_circle_of_fifths(i + 1) == (spec_circle_of_fifths(i) + 7) % 12) by (nonlinear_arith)
        requires
            0 <= i < 12,
    {
    }
}

} // verus!
