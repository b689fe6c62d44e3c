//! Generating the circular scales that the player performs.
use vstd::prelude::*;
use crate::theory::{
    interval_sum, natural_minor_intervals, pitch_class, pitch_class_of, note_name, spec_natural_minor,
    spec_note_name, PITCH_CLASSES, MODE_COUNT, mode_intervals, mode_name, spec_mode_name, AEOLIAN, spec_mode_intervals,
    lemma_patterns_span_octave, lemma_natural_minor_is_aeolian,
};

verus! {

/// Semitone index of the C that starts the fourth octave (scales start there).
pub const FOURTH_OCTAVE: usize = 48;

/// One note of a scale, by its semitone index: 0 is C in octave 0, 48 is C4, 57 is A4.
#[derive(Clone, Copy, Debug, PartialEq, Eq)]
pub struct Note {
    pub semitone: i32,
}

impl Note {
    /// The pitch class (0..12) of this note.
    pub fn pitch_class(&self) -> (r: usize)
        ensures
            r == pitch_class(self.semitone as int),
            r < PITCH_CLASSES,
    {
        pitch_class_of(self.semitone)
    }

    /// The name of this note's pitch class, such as "C#".
    pub fn name(&self) -> (r: &'static str)
        ensures
            r@ == spec_note_name(pitch_class(self.semitone as int)),
    {
        note_name(self.pitch_class())
    }
}

/// Number of notes in the circular pattern built from `k` intervals:
/// up through all `k + 1` ascending notes, then down without repeating
/// the highest note or the starting root.
pub open spec fn scale_length(k: nat) -> nat {
    if k == 0 {
        1
    } else {
        2 * k
    }
}

/// Which ascending degree (0 is the root, `k` the top) sounds at position `i`
/// of the circular pattern of `k` intervals.
pub open spec fn scale_degree(k: int, i: int) -> int {
    if i <= k {
        i
    } else {
        2 * k - i
    }
}

/// The semitone of ascending degree `d` above `root` in the fourth octave.
pub open spec fn degree_semitone(root: int, ivs: Seq<i32>, d: int) -> int {
    root + FOURTH_OCTAVE + interval_sum(ivs.take(d))
}

/// The semitones of the circular scale on `root` with interval pattern `ivs`.
pub open spec fn spec_scale_semitones(root: int, ivs: Seq<i32>) -> Seq<int> {
    Seq::new(
        scale_length(ivs.len()),
        |i: int| degree_semitone(root, ivs, scale_degree(ivs.len() as int, i)),
    )
}

/// The intervals a scale uses: those of its mode for the major variant,
/// natural minor for the minor variant.
pub open spec fn intervals_for(mode_ivs: Seq<i32>, is_major: bool) -> Seq<i32> {
    if is_major {
        mode_ivs
    } else {
        spec_natural_minor()
    }
}

/// Every ascending degree of the scale fits in an `i32`.
pub open spec fn degrees_fit(root: int, ivs: Seq<i32>) -> bool {
    forall|d: int|
        0 <= d <= ivs.len() ==> i32::MIN <= #[trigger] degree_semitone(root, ivs, d) <= i32::MAX
}

/// `notes` holds exactly the semitones `expected`, in order.
pub open spec fn notes_are(notes: Seq<Note>, expected: Seq<int>) -> bool {
    &&& notes.len() == expected.len()
    &&& forall|i: int| 0 <= i < notes.len() ==> #[trigger] notes[i].semitone == expected[i]
}

proof fn lemma_interval_sum_take_step(ivs: Seq<i32>, j: int)
    requires
        0 <= j < ivs.len(),
    ensures
        interval_sum(ivs.take(j + 1)) == interval_sum(ivs.take(j)) + ivs[j],
{
    assert(ivs.take(j + 1).drop_last() =~= ivs.take(j));
}

/// The circular pattern, stated note by note: it starts on the root in the fourth
/// octave, each ascending note is the previous one raised by the next interval, and
/// every note after the top repeats the ascending note as far below the top as it
/// stands above it.
pub proof fn lemma_scale_steps(root: int, ivs: Seq<i32>)
    ensures
        spec_scale_semitones(root, ivs).len() == scale_length(ivs.len()),
        spec_scale_semitones(root, ivs)[0] == root + FOURTH_OCTAVE,
        forall|d: int|
            0 < d <= ivs.len() ==> #[trigger] spec_scale_semitones(root, ivs)[d]
                == spec_scale_semitones(root, ivs)[d - 1] + ivs[d - 1],
        forall|i: int|
            ivs.len() < i < spec_scale_semitones(root, ivs).len() ==> #[trigger] spec_scale_semitones(
                root,
                ivs,
            )[i] == spec_scale_semitones(root, ivs)[2 * ivs.len() - i],
{
    assert(ivs.take(0) =~= Seq::<i32>::empty());
    assert forall|d: int| 0 < d <= ivs.len() implies #[trigger] spec_scale_semitones(root, ivs)[d]
        == spec_scale_semitones(root, ivs)[d - 1] + ivs[d - 1] by {
        lemma_interval_sum_take_step(ivs, d - 1);
    }
}

/// Builds the circular scale on `root_note_index` (0..12): the root in the fourth
/// octave, then one note per interval (the mode's intervals for the major variant,
/// natural minor for the minor variant), then back down, skipping the highest note
/// and the final root so that the pattern repeats seamlessly.
pub fn generate_scale(root_note_index: usize, mode_intervals: &[i32], is_major_variant: bool) -> (notes: Vec<Note>)
    requires
        root_note_index < PITCH_CLASSES,
        degrees_fit(root_note_index as int, intervals_for(mode_intervals@, is_major_variant)),
    ensures
        notes_are(
            notes@,
            spec_scale_semitones(
                root_note_index as int,
                intervals_for(mode_intervals@, is_major_variant),
            ),
        ),
        notes@.len() == scale_length(intervals_for(mode_intervals@, is_major_variant).len()),
        notes@[0].semitone == root_note_index + FOURTH_OCTAVE,
        forall|d: int|
            0 < d <= intervals_for(mode_intervals@, is_major_variant).len() ==> #[trigger] notes@[d].semitone
                == notes@[d - 1].semitone + intervals_for(mode_intervals@, is_major_variant)[d - 1],
        forall|i: int|
            intervals_for(mode_intervals@, is_major_variant).len() < i < notes@.len() ==> #[trigger] notes@[i]
                == notes@[2 * intervals_for(mode_intervals@, is_major_variant).len() - i],
{
    let minor = natural_minor_intervals();
    let intervals_to_use: &[i32] = if is_major_variant {
        mode_intervals
    } else {
        minor.as_slice()
    };
    let ghost ivs = intervals_for(mode_intervals@, is_major_variant);
    assert(intervals_to_use@ == ivs);
    let ghost root = root_note_index as int;
    let k: usize = intervals_to_use.len();

    let mut notes: Vec<Note> = Vec::new();
    let mut current_semitone: i32 = (root_note_index + FOURTH_OCTAVE) as i32;
    assert(ivs.take(0) =~= Seq::<i32>::empty());
    notes.push(Note { semitone: current_semitone });

    let mut j: usize = 0;
    while j < k
        invariant
            k == ivs.len(),
            intervals_to_use@ == ivs,
            degrees_fit(root, ivs),
            j <= k,
            notes@.len() == j + 1,
            current_semitone == degree_semitone(root, ivs, j as int),
            forall|t: int| 0 <= t <= j ==> #[trigger] notes@[t].semitone == degree_semitone(root, ivs, t),
        decreases k - j,
    {
        proof {
            lemma_interval_sum_take_step(ivs, j as int);
            assert(i32::MIN <= degree_semitone(root, ivs, j + 1) <= i32::MAX);
        }
        current_semitone = current_semitone + intervals_to_use[j];
        notes.push(Note { semitone: current_semitone });
        j = j + 1;
    }

    let mut i: usize = k;
    while i > 1
        invariant
            k == ivs.len(),
            1 <= i <= k || (i == k && k <= 1),
            notes@.len() == k + 1 + (k - i),
            forall|t: int| 0 <= t < notes@.len() ==> #[trigger] notes@[t].semitone
                == degree_semitone(root, ivs, scale_degree(k as int, t)),
        decreases i,
    {
        i = i - 1;
        let n = notes[i];
        notes.push(n);
    }
    assert(notes_are(notes@, spec_scale_semitones(root, ivs)));
    proof {
        lemma_scale_steps(root, ivs);
        assert forall|i: int| k < i < notes@.len() implies #[trigger] notes@[i] == notes@[2 * k - i] by {
            assert(notes@[i].semitone == notes@[2 * k - i].semitone);
        }
    }
    notes
}


/// A pattern whose every interval is a whole or half step.
pub open spec fn small_steps(ivs: Seq<i32>) -> bool {
    forall|i: int| 0 <= i < ivs.len() ==> 1 <= #[trigger] ivs[i] <= 2
}

proof fn lemma_small_steps_sum_bounds(ivs: Seq<i32>)
    requires
        small_steps(ivs),
    ensures
        ivs.len() <= interval_sum(ivs) <= 2 * ivs.len(),
    decreases ivs.len(),
{
    if ivs.len() > 0 {
        lemma_small_steps_sum_bounds(ivs.drop_last());
    }
}

/// Every pattern that the player uses is made of whole and half steps, so all
/// its degrees fit comfortably in an `i32`.
pub proof fn lemma_player_patterns_fit(root: int, m: int, is_major: bool)
    requires
        0 <= root < PITCH_CLASSES,
        0 <= m < MODE_COUNT,
    ensures
        small_steps(intervals_for(spec_mode_intervals(m), is_major)),
        degrees_fit(root, intervals_for(spec_mode_intervals(m), is_major)),
{
    let ivs = intervals_for(spec_mode_intervals(m), is_major);
    assert(small_steps(ivs));
    assert forall|d: int| 0 <= d <= ivs.len() implies i32::MIN <= #[trigger] degree_semitone(
        root,
        ivs,
        d,
    ) <= i32::MAX by {
        let t = ivs.take(d);
        assert(small_steps(t));
        lemma_small_steps_sum_bounds(t);
    }
}

/// The circular pattern goes up from the root in the fourth octave to the top
/// degree and back down, mirrored: position `i` and position `2k - i` sound the
/// same note, the root sounds only at position 0 and the top only at position `k`.
pub proof fn lemma_scale_is_circular(root: int, ivs: Seq<i32>, i: int)
    requires
        ivs.len() > 0,
        0 < i < ivs.len(),
    ensures
        spec_scale_semitones(root, ivs).len() == 2 * ivs.len(),
        spec_scale_semitones(root, ivs)[0] == root + FOURTH_OCTAVE,
        spec_scale_semitones(root, ivs)[ivs.len() as int] == root + FOURTH_OCTAVE
            + interval_sum(ivs),
        spec_scale_semitones(root, ivs)[i] == spec_scale_semitones(root, ivs)[2 * ivs.len() - i],
{
    assert(ivs.take(0) =~= Seq::<i32>::empty());
    assert(ivs.take(ivs.len() as int) =~= ivs);
}

/// Each scale of a mode has 14 notes, starts on its root in the fourth octave and
/// reaches that root one octave higher (12 semitones up) at its top.
pub proof fn lemma_mode_scale_shape(root: int, m: int, is_major: bool)
    requires
        0 <= root < PITCH_CLASSES,
        0 <= m < MODE_COUNT,
    ensures
        spec_scale_semitones(root, intervals_for(spec_mode_intervals(m), is_major)).len() == 14,
        spec_scale_semitones(root, intervals_for(spec_mode_intervals(m), is_major))[0] == root
            + 48,
        spec_scale_semitones(root, intervals_for(spec_mode_intervals(m), is_major))[7] == root
            + 60,
{
    let ivs = intervals_for(spec_mode_intervals(m), is_major);
    lemma_patterns_span_octave(m);
    lemma_scale_is_circular(root, ivs, 1);
}

/// The minor variant of any mode sounds exactly like the Aeolian major variant on
/// the same root; this is why the Aeolian minor variant is left out.
pub proof fn lemma_minor_variant_is_aeolian(root: int, mode_ivs: Seq<i32>)
    ensures
        spec_scale_semitones(root, intervals_for(mode_ivs, false)) == spec_scale_semitones(
            root,
            intervals_for(spec_mode_intervals(AEOLIAN as int), true),
        ),
{
    lemma_natural_minor_is_aeolian();
}


/// One scale that the player performs: a mode, a root pitch class, the major or
/// minor variant, and the notes of its circular pattern.
pub struct Scale {
    pub mode: usize,
    pub root: usize,
    pub is_major: bool,
    pub notes: Vec<Note>,
}

/// A scale's identity: (mode, root pitch class, major variant).
pub type ScaleKey = (int, int, bool);

impl Scale {
    /// The mode and root index into the name tables.
    pub open spec fn wf(&self) -> bool {
        self.mode < MODE_COUNT && self.root < PITCH_CLASSES
    }

    /// The scale's notes are the circular pattern of its mode and variant on its root.
    pub open spec fn is_generated(&self) -> bool {
        &&& self.wf()
        &&& notes_are(
            self.notes@,
            spec_scale_semitones(
                self.root as int,
                intervals_for(spec_mode_intervals(self.mode as int), self.is_major),
            ),
        )
    }

    /// The scale is the one named by `key`, with its generated notes.
    pub open spec fn has_key(&self, key: ScaleKey) -> bool {
        &&& self.mode == key.0
        &&& self.root == key.1
        &&& self.is_major == key.2
        &&& self.is_generated()
    }

    /// The name of the scale's mode.
    pub fn mode_name(&self) -> (r: &'static str)
        requires
            self.wf(),
        ensures
            r@ == spec_mode_name(self.mode as int),
    {
        mode_name(self.mode)
    }

    /// The name of the scale's root note.
    pub fn root_name(&self) -> (r: &'static str)
        requires
            self.wf(),
        ensures
            r@ == spec_note_name(self.root as int),
    {
        note_name(self.root)
    }

    /// "Major" or "Minor".
    pub fn variant_name(&self) -> (r: &'static str)
        ensures
            r@ == (if self.is_major {
                "Major"@
            } else {
                "Minor"@
            }),
    {
        if self.is_major {
            "Major"
        } else {
            "Minor"
        }
    }

    /// The names of the scale's notes, in playing order.
    pub fn note_names(&self) -> (r: Vec<&'static str>)
        ensures
            r@.len() == self.notes@.len(),
            forall|i: int|
                0 <= i < r@.len() ==> (#[trigger] r@[i])@ == spec_note_name(
                    pitch_class(self.notes@[i].semitone as int),
                ),
    {
        let mut r: Vec<&'static str> = Vec::new();
        let mut i: usize = 0;
        while i < self.notes.len()
            invariant
                i <= self.notes@.len(),
                r@.len() == i,
                forall|t: int|
                    0 <= t < i ==> (#[trigger] r@[t])@ == spec_note_name(
                        pitch_class(self.notes@[t].semitone as int),
                    ),
            decreases self.notes@.len() - i,
        {
            r.push(self.notes[i].name());
            i = i + 1;
        }
        r
    }
}

/// Number of root positions in the circular chromatic walk.
pub const ROOT_POSITIONS: usize = 22;

/// The root at position `p` (0..22) of the circular chromatic walk:
/// C, C#, ..., B, then back down A#, A, ..., C#.
pub open spec fn spec_circular_root(p: int) -> int {
    if p < 12 {
        p
    } else {
        22 - p
    }
}

/// The scales one mode contributes on one root: the major variant, then the minor
/// variant, which Aeolian leaves out.
pub open spec fn variants(m: int, r: int) -> Seq<ScaleKey> {
    if m == AEOLIAN {
        seq![(m, r, true)]
    } else {
        seq![(m, r, true), (m, r, false)]
    }
}

/// The scales of mode `m` on the first `p` positions of the root walk.
pub open spec fn mode_keys(m: int, p: nat) -> Seq<ScaleKey>
    decreases p,
{
    if p == 0 {
        Seq::empty()
    } else {
        mode_keys(m, (p - 1) as nat) + variants(m, spec_circular_root(p - 1))
    }
}

/// The scales of the first `m` modes, each over the whole root walk.
pub open spec fn keys_upto(m: nat) -> Seq<ScaleKey>
    decreases m,
{
    if m == 0 {
        Seq::empty()
    } else {
        keys_upto((m - 1) as nat) + mode_keys(m - 1, ROOT_POSITIONS as nat)
    }
}

/// Every scale the player performs, in order: mode by mode, root position by root
/// position, major before minor.
pub open spec fn spec_scale_keys() -> Seq<ScaleKey> {
    keys_upto(MODE_COUNT as nat)
}

/// The circular chromatic walk of roots: up from C to B, then down from A# to C#.
pub fn circular_root_indices() -> (r: Vec<usize>)
    ensures
        r@.len() == ROOT_POSITIONS,
        forall|p: int| 0 <= p < ROOT_POSITIONS ==> #[trigger] r@[p] == spec_circular_root(p),
{
    let mut r: Vec<usize> = Vec::new();
    let mut i: usize = 0;
    while i < 12
        invariant
            i <= 12,
            r@.len() == i,
            forall|p: int| 0 <= p < i ==> #[trigger] r@[p] == spec_circular_root(p),
        decreases 12 - i,
    {
        r.push(i);
        i = i + 1;
    }
    let mut i: usize = 11;
    while i > 1
        invariant
            1 <= i <= 11,
            r@.len() == 12 + (11 - i),
            forall|p: int| 0 <= p < r@.len() ==> #[trigger] r@[p] == spec_circular_root(p),
        decreases i,
    {
        i = i - 1;
        r.push(i);
    }
    r
}

/// Generates every scale: for each of the seven modes, for each of the 22 root
/// positions of the circular chromatic walk, the major variant and then the minor
/// variant (left out for Aeolian, whose minor variant is Aeolian itself).
pub fn generate_all_scales() -> (all_scales: Vec<Scale>)
    ensures
        all_scales@.len() == spec_scale_keys().len(),
        forall|i: int|
            0 <= i < all_scales@.len() ==> #[trigger] all_scales@[i].has_key(spec_scale_keys()[i]),
{
    let roots = circular_root_indices();
    let mut all_scales: Vec<Scale> = Vec::new();
    let mut m: usize = 0;
    while m < MODE_COUNT
        invariant
            m <= MODE_COUNT,
            roots@.len() == ROOT_POSITIONS,
            forall|p: int| 0 <= p < ROOT_POSITIONS ==> #[trigger] roots@[p] == spec_circular_root(p),
            all_scales@.len() == keys_upto(m as nat).len(),
            forall|i: int|
                0 <= i < all_scales@.len() ==> #[trigger] all_scales@[i].has_key(
                    keys_upto(m as nat)[i],
                ),
        decreases MODE_COUNT - m,
    {
        let mode_ivs = mode_intervals(m);
        let mut p: usize = 0;
        while p < ROOT_POSITIONS
            invariant
                m < MODE_COUNT,
                p <= ROOT_POSITIONS,
                mode_ivs@ == spec_mode_intervals(m as int),
                roots@.len() == ROOT_POSITIONS,
                forall|q: int|
                    0 <= q < ROOT_POSITIONS ==> #[trigger] roots@[q] == spec_circular_root(q),
                all_scales@.len() == (keys_upto(m as nat) + mode_keys(m as int, p as nat)).len(),
                forall|i: int|
                    0 <= i < all_scales@.len() ==> #[trigger] all_scales@[i].has_key(
                        (keys_upto(m as nat) + mode_keys(m as int, p as nat))[i],
                    ),
            decreases ROOT_POSITIONS - p,
        {
            let root_index: usize = roots[p];
            let ghost before = keys_upto(m as nat) + mode_keys(m as int, p as nat);
            let ghost after = keys_upto(m as nat) + mode_keys(m as int, (p + 1) as nat);
            assert(after =~= before + variants(m as int, root_index as int));
            proof {
                lemma_player_patterns_fit(root_index as int, m as int, true);
                lemma_player_patterns_fit(root_index as int, m as int, false);
            }
            let major_notes = generate_scale(root_index, mode_ivs.as_slice(), true);
            all_scales.push(Scale { mode: m, root: root_index, is_major: true, notes: major_notes });
            if m != AEOLIAN {
                let minor_notes = generate_scale(root_index, mode_ivs.as_slice(), false);
                all_scales.push(
                    Scale { mode: m, root: root_index, is_major: false, notes: minor_notes },
                );
            }
            assert forall|i: int| 0 <= i < all_scales@.len() implies #[trigger] all_scales@[i].has_key(
                after[i],
            ) by {
                if i >= before.len() {
                    assert(after[i] == variants(m as int, root_index as int)[i - before.len()]);
                }
            }
            p = p + 1;
        }
        assert(keys_upto((m + 1) as nat) =~= keys_upto(m as nat) + mode_keys(
            m as int,
            ROOT_POSITIONS as nat,
        ));
        m = m + 1;
    }
    all_scales
}


/// How many variants (major, minor) mode `m` contributes per root.
pub open spec fn variant_count(m: int) -> int {
    if m == AEOLIAN {
        1
    } else {
        2
    }
}

/// Index of the first scale of mode `m` among all scales.
pub open spec fn mode_offset(m: int) -> int {
    if m <= AEOLIAN {
        44 * m
    } else {
        44 * m - 22
    }
}

proof fn lemma_mode_keys(m: int, p: nat)
    requires
        0 <= m < MODE_COUNT,
        p <= ROOT_POSITIONS,
    ensures
        mode_keys(m, p).len() == p * variant_count(m),
        forall|q: int, v: int|
            0 <= q < p && 0 <= v < variant_count(m) ==> #[trigger] mode_keys(m, p)[q
                * variant_count(m) + v] == (m, spec_circular_root(q), v == 0),
        forall|i: int|
            0 <= i < mode_keys(m, p).len() ==> {
                let k = #[trigger] mode_keys(m, p)[i];
                &&& k.0 == m
                &&& 0 <= k.1 < PITCH_CLASSES
                &&& (k.0 == AEOLIAN ==> k.2)
            },
    decreases p,
{
    if p > 0 {
        let prev = mode_keys(m, (p - 1) as nat);
        lemma_mode_keys(m, (p - 1) as nat);
        let w = variant_count(m);
        if w == 2 {
            assert((p - 1) * w == 2 * p - 2) by (nonlinear_arith)
                requires
                    w == 2,
            ;
            assert(p * w == 2 * p) by (nonlinear_arith)
                requires
                    w == 2,
            ;
        }
        assert forall|q: int, v: int| 0 <= q < p && 0 <= v < w implies #[trigger] mode_keys(m, p)[q
            * w + v] == (m, spec_circular_root(q), v == 0) by {
            if q < p - 1 {
                if w == 1 {
                    assert(q * w + v == q);
                } else {
                    assert(q * w + v == 2 * q + v);
                }
                assert(q * w + v < prev.len());
            } else {
                if w == 1 {
                    assert(q * w + v == q);
                } else {
                    assert(q * w + v == 2 * q + v);
                }
                assert(q * w + v - prev.len() == v);
            }
        }
    }
}

proof fn lemma_keys_upto(n: nat)
    requires
        n <= MODE_COUNT,
    ensures
        keys_upto(n).len() == mode_offset(n as int),
        forall|m: int, i: int|
            0 <= m < n && 0 <= i < ROOT_POSITIONS * variant_count(m) ==> #[trigger] keys_upto(n)[mode_offset(m) + i]
                == mode_keys(m, ROOT_POSITIONS as nat)[i],
        forall|i: int|
            0 <= i < keys_upto(n).len() ==> {
                let k = #[trigger] keys_upto(n)[i];
                &&& 0 <= k.0 < MODE_COUNT
                &&& 0 <= k.1 < PITCH_CLASSES
                &&& (k.0 == AEOLIAN ==> k.2)
            },
    decreases n,
{
    if n > 0 {
        lemma_keys_upto((n - 1) as nat);
        lemma_mode_keys(n - 1, ROOT_POSITIONS as nat);
        let prev = keys_upto((n - 1) as nat);
        assert forall|m: int, i: int| 0 <= m < n && 0 <= i < ROOT_POSITIONS * variant_count(m) implies #[trigger] keys_upto(n)[mode_offset(m) + i]
            == mode_keys(m, ROOT_POSITIONS as nat)[i] by {
            if m < n - 1 {
                assert(mode_offset(m) + i < prev.len());
            }
        }
        assert forall|i: int| 0 <= i < keys_upto(n).len() implies {
            let k = #[trigger] keys_upto(n)[i];
            &&& 0 <= k.0 < MODE_COUNT
            &&& 0 <= k.1 < PITCH_CLASSES
            &&& (k.0 == AEOLIAN ==> k.2)
        } by {
            if i >= prev.len() {
                assert(keys_upto(n)[i] == mode_keys(n - 1, ROOT_POSITIONS as nat)[i - prev.len()]);
            }
        }
    }
}

/// The player performs 286 scales (7 modes times 22 root positions, with both
/// variants except for Aeolian), in this order: mode by mode, then root position by
/// root position along the circular chromatic walk, then major before minor.
pub proof fn lemma_scale_order(m: int, q: int)
    requires
        0 <= m < MODE_COUNT,
        0 <= q < ROOT_POSITIONS,
    ensures
        spec_scale_keys().len() == 286,
        spec_scale_keys()[mode_offset(m) + q * variant_count(m)] == (m, spec_circular_root(q), true),
        m != AEOLIAN ==> spec_scale_keys()[mode_offset(m) + q * 2 + 1] == (
            m,
            spec_circular_root(q),
            false,
        ),
{
    lemma_keys_upto(MODE_COUNT as nat);
    lemma_mode_keys(m, ROOT_POSITIONS as nat);
    let w = variant_count(m);
    if w == 1 {
        assert(q * w + 0 == q);
        assert(q * w < ROOT_POSITIONS * w);
    } else {
        assert(q * w + 0 == 2 * q);
        assert(q * w + 1 == 2 * q + 1);
        assert(2 * q + 1 < ROOT_POSITIONS * w);
    }
    assert(mode_keys(m, ROOT_POSITIONS as nat)[q * w + 0] == (m, spec_circular_root(q), true));
    if m != AEOLIAN {
        assert(mode_keys(m, ROOT_POSITIONS as nat)[q * w + 1] == (m, spec_circular_root(q), false));
        assert(spec_scale_keys()[mode_offset(m) + (2 * q + 1)] == (m, spec_circular_root(q), false));
    }
}

/// Every scale has a valid mode and root, and no scale is the Aeolian minor variant.
pub proof fn lemma_scale_keys_valid(i: int)
    requires
        0 <= i < spec_scale_keys().len(),
    ensures
        0 <= spec_scale_keys()[i].0 < MODE_COUNT,
        0 <= spec_scale_keys()[i].1 < PITCH_CLASSES,
        !(spec_scale_keys()[i].0 == AEOLIAN && !spec_scale_keys()[i].2),
{
    lemma_keys_upto(MODE_COUNT as nat);
}

/// The root walk moves by one semitone at each step, also from its last position
/// back to its first, and passes through every pitch class.
pub proof fn lemma_root_walk_is_chromatic(p: int)
    requires
        0 <= p < ROOT_POSITIONS,
    ensures
        0 <= spec_circular_root(p) < PITCH_CLASSES,
        spec_circular_root((p + 1) % (ROOT_POSITIONS as int)) - spec_circular_root(p) == 1
            || spec_circular_root(p) - spec_circular_root((p + 1) % (ROOT_POSITIONS as int)) == 1,
        p < PITCH_CLASSES ==> spec_circular_root(p) == p,
{
}

} // verus!
