//! The playback state machine: which note and harmony sound at each sample, and
//! when a new scale or repetition is announced.
use vstd::prelude::*;
use crate::scales::{Scale, Note};
use crate::theory::{circle_of_fifths, spec_circle_of_fifths, REPETITIONS_PER_SCALE, PITCH_CLASSES};

verus! {

/// The harmony voice moves one step along the circle of fifths every this many notes.
pub const NOTES_PER_HARMONY_CHANGE: usize = 12;

/// Semitone index of the C that starts the third octave, where the harmony sounds.
pub const THIRD_OCTAVE: usize = 36;

/// What to announce when a scale performance (a scale or one of its repetitions) starts.
#[derive(Clone, Copy, Debug, PartialEq, Eq)]
pub struct Announcement {
    /// Index of the scale in the player's list.
    pub scale_index: usize,
    /// Number (from 1) of this performance among all performances.
    pub performance: usize,
    /// Number of performances in all: each scale is played `REPETITIONS_PER_SCALE` times.
    pub total_performances: usize,
    /// Number (from 1) of this repetition of the scale.
    pub repetition: usize,
    /// Pitch class of the harmony note, where the announcement names one.
    pub harmony_note: Option<usize>,
}

/// The abstract state of a player.
pub struct PlayerState {
    pub scales: Seq<Scale>,
    pub current_scale: int,
    pub current_note: int,
    pub current_repetition: int,
    pub note_samples: int,
    pub pause_samples: int,
    pub samples_played: int,
    pub in_pause: bool,
    pub notes_since_harmony_change: int,
    pub current_harmony_index: int,
}

/// Number of note slots one repetition of `s` takes: its notes, and at least one
/// (a scale without notes still takes one silent note slot).
pub open spec fn slot_count(s: Scale) -> int {
    if s.notes@.len() == 0 {
        1
    } else {
        s.notes@.len() as int
    }
}

impl PlayerState {
    /// Every scale has been played.
    pub open spec fn finished(self) -> bool {
        self.current_scale >= self.scales.len()
    }

    /// The pitch class of the harmony: the circle of fifths taken from the current
    /// scale's root.
    pub open spec fn harmony_pitch_class(self) -> int {
        (self.scales[self.current_scale].root + spec_circle_of_fifths(
            self.current_harmony_index % 12,
        )) % 12
    }

    /// The invariant that every player keeps.
    pub open spec fn wf(self) -> bool {
        &&& self.scales.len() * REPETITIONS_PER_SCALE <= usize::MAX
        &&& forall|i: int| 0 <= i < self.scales.len() ==> (#[trigger] self.scales[i]).wf()
        &&& 0 <= self.current_scale <= self.scales.len()
        &&& 0 <= self.current_note
        &&& (self.current_scale < self.scales.len() ==> self.current_note < slot_count(
            self.scales[self.current_scale],
        ))
        &&& 0 <= self.current_repetition < REPETITIONS_PER_SCALE
        &&& 0 <= self.notes_since_harmony_change < NOTES_PER_HARMONY_CHANGE
        &&& 0 <= self.current_harmony_index < 12
        &&& 0 <= self.note_samples <= usize::MAX
        &&& 0 <= self.pause_samples <= usize::MAX
        &&& 0 <= self.samples_played
        &&& (if self.in_pause {
            self.samples_played < self.pause_samples || self.samples_played == 0
        } else {
            self.samples_played < self.note_samples || self.samples_played == 0
        })
    }

    /// The state after the current note has sounded for its last sample: the harmony
    /// counts one more note, and the next note, repetition or scale comes up.
    pub open spec fn after_note(self) -> PlayerState {
        let since = self.notes_since_harmony_change + 1;
        let wrapped = since >= NOTES_PER_HARMONY_CHANGE;
        let base = PlayerState {
            samples_played: 0,
            notes_since_harmony_change: if wrapped {
                0
            } else {
                since
            },
            current_harmony_index: if wrapped {
                (self.current_harmony_index + 1) % 12
            } else {
                self.current_harmony_index
            },
            ..self
        };
        if self.current_note + 1 < self.scales[self.current_scale].notes@.len() {
            PlayerState { current_note: self.current_note + 1, ..base }
        } else if self.current_repetition + 1 < REPETITIONS_PER_SCALE {
            PlayerState { current_note: 0, current_repetition: self.current_repetition + 1, ..base }
        } else {
            PlayerState {
                current_note: 0,
                current_repetition: 0,
                current_scale: self.current_scale + 1,
                ..base
            }
        }
    }

    /// One sample of playback.
    pub open spec fn step(self) -> PlayerState {
        if self.finished() {
            self
        } else if self.in_pause {
            if self.samples_played + 1 >= self.pause_samples {
                PlayerState {
                    current_scale: self.current_scale + 1,
                    current_repetition: 0,
                    current_note: 0,
                    samples_played: 0,
                    in_pause: false,
                    ..self
                }
            } else {
                PlayerState { samples_played: self.samples_played + 1, ..self }
            }
        } else if self.samples_played + 1 >= self.note_samples {
            self.after_note()
        } else {
            PlayerState { samples_played: self.samples_played + 1, ..self }
        }
    }

    /// The announcement of the performance that this state is at, if any.
    pub open spec fn announcement(self, with_harmony: bool) -> Option<Announcement> {
        if self.finished() {
            None
        } else {
            Some(
                Announcement {
                    scale_index: self.current_scale as usize,
                    performance: (self.current_scale * REPETITIONS_PER_SCALE
                        + self.current_repetition + 1) as usize,
                    total_performances: (self.scales.len() * REPETITIONS_PER_SCALE) as usize,
                    repetition: (self.current_repetition + 1) as usize,
                    harmony_note: if with_harmony {
                        Some(self.harmony_pitch_class() as usize)
                    } else {
                        None
                    },
                },
            )
        }
    }

    /// What one sample of playback announces: a new scale after a pause ends (with
    /// no harmony named), and a new repetition or scale after the last note of a
    /// scale (with the harmony named); nothing once every scale has been played.
    pub open spec fn step_announcement(self) -> Option<Announcement> {
        if self.finished() {
            None
        } else if self.in_pause {
            if self.samples_played + 1 >= self.pause_samples {
                self.step().announcement(false)
            } else {
                None
            }
        } else if self.samples_played + 1 >= self.note_samples && self.current_note + 1
            >= self.scales[self.current_scale].notes@.len() {
            self.step().announcement(true)
        } else {
            None
        }
    }

    /// The semitone of the melody note sounding now: none when finished, in a pause,
    /// or in the silent slot of a scale without notes.
    pub open spec fn melody(self) -> Option<i32> {
        if self.finished() || self.in_pause || self.current_note >= self.scales[self.current_scale].notes@.len() {
            None
        } else {
            Some(self.scales[self.current_scale].notes@[self.current_note].semitone)
        }
    }

    /// The semitone of the harmony note sounding now, in the third octave: none when
    /// finished or in a pause.
    pub open spec fn harmony(self) -> Option<i32> {
        if self.finished() || self.in_pause {
            None
        } else {
            Some((THIRD_OCTAVE + self.harmony_pitch_class()) as i32)
        }
    }
}

/// Plays a list of scales note by note, each scale `REPETITIONS_PER_SCALE` times,
/// with a harmony that follows the circle of fifths from each scale's root.
pub struct SequencePlayer {
    current_scale: usize,
    current_note: usize,
    current_repetition: usize,
    scales: Vec<Scale>,
    note_samples: usize,
    pause_samples: usize,
    samples_played: usize,
    in_pause: bool,
    notes_since_harmony_change: usize,
    current_harmony_index: usize,
}

impl View for SequencePlayer {
    type V = PlayerState;

    closed spec fn view(&self) -> PlayerState {
        PlayerState {
            scales: self.scales@,
            current_scale: self.current_scale as int,
            current_note: self.current_note as int,
            current_repetition: self.current_repetition as int,
            note_samples: self.note_samples as int,
            pause_samples: self.pause_samples as int,
            samples_played: self.samples_played as int,
            in_pause: self.in_pause,
            notes_since_harmony_change: self.notes_since_harmony_change as int,
            current_harmony_index: self.current_harmony_index as int,
        }
    }
}

/// The state of a player that has not played anything yet.
pub open spec fn initial_state(scales: Seq<Scale>, note_samples: int, pause_samples: int) -> PlayerState {
    PlayerState {
        scales,
        current_scale: 0,
        current_note: 0,
        current_repetition: 0,
        note_samples,
        pause_samples,
        samples_played: 0,
        in_pause: false,
        notes_since_harmony_change: 0,
        current_harmony_index: 0,
    }
}

impl SequencePlayer {
    /// A player at the start of `scales`, where each note lasts `note_samples`
    /// samples and each pause `pause_samples` samples.
    pub fn new(scales: Vec<Scale>, note_samples: usize, pause_samples: usize) -> (p: Self)
        requires
            scales@.len() * REPETITIONS_PER_SCALE <= usize::MAX,
            forall|i: int| 0 <= i < scales@.len() ==> (#[trigger] scales@[i]).wf(),
        ensures
            p@ == initial_state(scales@, note_samples as int, pause_samples as int),
            p@.wf(),
    {
        SequencePlayer {
            current_scale: 0,
            current_note: 0,
            current_repetition: 0,
            scales,
            note_samples,
            pause_samples,
            samples_played: 0,
            in_pause: false,
            notes_since_harmony_change: 0,
            current_harmony_index: 0,
        }
    }

    /// Every scale has been played.
    pub fn is_finished(&self) -> (r: bool)
        ensures
            r == self@.finished(),
    {
        self.current_scale >= self.scales.len()
    }

    /// Number of scales.
    pub fn scale_count(&self) -> (r: usize)
        ensures
            r == self@.scales.len(),
    {
        self.scales.len()
    }

    /// The scale at index `i`.
    pub fn scale(&self, i: usize) -> (r: &Scale)
        requires
            i < self@.scales.len(),
        ensures
            *r == self@.scales[i as int],
    {
        &self.scales[i]
    }

    /// The semitone of the melody note sounding now; none means silence.
    pub fn get_current_semitone(&self) -> (r: Option<i32>)
        requires
            self@.wf(),
        ensures
            r == self@.melody(),
            !self@.finished() && !self@.in_pause && self@.current_note < self@.scales[self@.current_scale].notes@.len()
                ==> r == Some(self@.scales[self@.current_scale].notes@[self@.current_note].semitone),
            self@.finished() || self@.in_pause ==> r is None,
    {
        if self.current_scale >= self.scales.len() {
            return None;
        }
        if self.in_pause {
            return None;
        }
        let scale = &self.scales[self.current_scale];
        if self.current_note >= scale.notes.len() {
            return None;
        }
        Some(scale.notes[self.current_note].semitone)
    }

    /// The pitch class of the harmony note now.
    fn harmony_pitch_class(&self) -> (r: usize)
        requires
            self@.wf(),
            !self@.finished(),
        ensures
            r == self@.harmony_pitch_class(),
            r < PITCH_CLASSES,
    {
        let root_index: usize = self.scales[self.current_scale].root;
        assert(self@.scales[self.current_scale as int].wf());
        let fifth_semitone_offset: usize = circle_of_fifths(self.current_harmony_index % 12);
        (root_index + fifth_semitone_offset) % 12
    }

    /// The semitone of the harmony note sounding now, one octave below the
    /// scales; none means silence.
    pub fn get_current_harmony_semitone(&self) -> (r: Option<i32>)
        requires
            self@.wf(),
        ensures
            r == self@.harmony(),
    {
        if self.current_scale >= self.scales.len() || self.in_pause {
            return None;
        }
        let harmony_note_index: usize = self.harmony_pitch_class();
        Some((harmony_note_index + THIRD_OCTAVE) as i32)
    }

    /// The announcement of the performance the player is at: none once finished.
    pub fn current_announcement(&self, with_harmony: bool) -> (r: Option<Announcement>)
        requires
            self@.wf(),
        ensures
            r == self@.announcement(with_harmony),
    {
        if self.current_scale >= self.scales.len() {
            return None;
        }
        let harmony_note = if with_harmony {
            Some(self.harmony_pitch_class())
        } else {
            None
        };
        Some(
            Announcement {
                scale_index: self.current_scale,
                performance: self.current_scale * REPETITIONS_PER_SCALE + self.current_repetition
                    + 1,
                total_performances: self.scales.len() * REPETITIONS_PER_SCALE,
                repetition: self.current_repetition + 1,
                harmony_note,
            },
        )
    }

    /// Plays one sample: moves to the next note when the current one has lasted its
    /// samples, to the next repetition or scale after the last note of a scale, and
    /// out of a pause when it has lasted its samples. Returns whether anything is
    /// left to play, and what to announce.
    pub fn advance_sample(&mut self) -> (r: (bool, Option<Announcement>))
        requires
            old(self)@.wf(),
        ensures
            final(self)@ == old(self)@.step(),
            final(self)@.wf(),
            r.0 == !final(self)@.finished(),
            r.1 == old(self)@.step_announcement(),
    {
        if self.current_scale >= self.scales.len() {
            return (false, None);
        }
        self.samples_played = self.samples_played + 1;
        let mut announcement: Option<Announcement> = None;
        if self.in_pause {
            if self.samples_played >= self.pause_samples {
                self.current_scale = self.current_scale + 1;
                self.current_repetition = 0;
                self.current_note = 0;
                self.samples_played = 0;
                self.in_pause = false;
                announcement = self.current_announcement(false);
            }
        } else if self.samples_played >= self.note_samples {
            let note_count: usize = self.scales[self.current_scale].notes.len();
            self.current_note = self.current_note + 1;
            self.samples_played = 0;
            self.notes_since_harmony_change = self.notes_since_harmony_change + 1;
            if self.notes_since_harmony_change >= NOTES_PER_HARMONY_CHANGE {
                self.notes_since_harmony_change = 0;
                self.current_harmony_index = (self.current_harmony_index + 1) % 12;
            }
            if self.current_note >= note_count {
                self.current_note = 0;
                if self.current_repetition + 1 < REPETITIONS_PER_SCALE {
                    self.current_repetition = self.current_repetition + 1;
                } else {
                    self.current_scale = self.current_scale + 1;
                    self.current_repetition = 0;
                }
                announcement = self.current_announcement(true);
            }
        }
        (self.current_scale < self.scales.len(), announcement)
    }
}


/// Note slots taken by the scales before index `i`, each scale played
/// `REPETITIONS_PER_SCALE` times.
pub open spec fn slots_before(scales: Seq<Scale>, i: int) -> int
    decreases i,
{
    if i <= 0 {
        0
    } else {
        slots_before(scales, i - 1) + REPETITIONS_PER_SCALE * slot_count(scales[i - 1])
    }
}

/// Note slots of a whole playback.
pub open spec fn total_slots(scales: Seq<Scale>) -> int {
    slots_before(scales, scales.len() as int)
}

impl PlayerState {
    /// Number of note slots completed so far: every repetition of every earlier
    /// scale, the earlier repetitions of the current scale and its earlier notes.
    pub open spec fn position(self) -> int {
        if self.finished() {
            total_slots(self.scales)
        } else {
            slots_before(self.scales, self.current_scale) + self.current_repetition * slot_count(
                self.scales[self.current_scale],
            ) + self.current_note
        }
    }

    /// The harmony counters agree with the number of note slots completed: the
    /// harmony has moved one step along the circle of fifths per 12 slots.
    pub open spec fn harmony_tracks_position(self) -> bool {
        &&& self.notes_since_harmony_change == self.position() % 12
        &&& self.current_harmony_index == (self.position() / 12) % 12
    }
}

/// The state after `n` samples of playback from `s`.
pub open spec fn run(s: PlayerState, n: nat) -> PlayerState
    decreases n,
{
    if n == 0 {
        s
    } else {
        run(s, (n - 1) as nat).step()
    }
}

proof fn lemma_slots_before_grows(scales: Seq<Scale>, i: int, j: int)
    requires
        0 <= i <= j,
    ensures
        slots_before(scales, i) <= slots_before(scales, j),
    decreases j,
{
    if i < j {
        lemma_slots_before_grows(scales, i, j - 1);
    }
}

proof fn lemma_position_in_playback(s: PlayerState)
    requires
        s.wf(),
        !s.finished(),
    ensures
        slots_before(s.scales, s.current_scale) <= s.position(),
        s.position() + 1 <= slots_before(s.scales, s.current_scale + 1),
        s.position() < total_slots(s.scales),
{
    let u = slot_count(s.scales[s.current_scale]);
    assert(s.current_repetition * u <= 2 * u) by (nonlinear_arith)
        requires
            0 <= s.current_repetition <= 2,
            u >= 1,
    ;
    assert(s.current_repetition * u >= 0) by (nonlinear_arith)
        requires
            0 <= s.current_repetition <= 2,
            u >= 1,
    ;
    lemma_slots_before_grows(s.scales, s.current_scale + 1, s.scales.len() as int);
}

/// Every sample keeps the player's invariant.
pub proof fn lemma_step_keeps_wf(s: PlayerState)
    requires
        s.wf(),
    ensures
        s.step().wf(),
{
}

/// One sample of playback outside a pause: unless every scale has been played, the
/// current note lasts another sample, or, on its last sample, the playback moves on
/// by exactly one note slot; and the harmony keeps following the slots played.
pub proof fn lemma_step_advances_one_slot(s: PlayerState)
    requires
        s.wf(),
        !s.in_pause,
        s.harmony_tracks_position(),
    ensures
        !s.step().in_pause,
        s.step().harmony_tracks_position(),
        s.finished() ==> s.step() == s,
        !s.finished() && s.samples_played + 1 < s.note_samples ==> s.step().position()
            == s.position() && s.step().samples_played == s.samples_played + 1,
        !s.finished() && s.samples_played + 1 >= s.note_samples ==> s.step().position()
            == s.position() + 1 && s.step().samples_played == 0,
{
    if !s.finished() && s.samples_played + 1 >= s.note_samples {
        let t = s.step();
        let u = slot_count(s.scales[s.current_scale]);
        lemma_position_in_playback(s);
        let p = s.position();
        assert(t.position() == p + 1) by {
            if s.current_note + 1 < s.scales[s.current_scale].notes@.len() {
                assert(!t.finished());
                assert(t.current_scale == s.current_scale);
                assert(t.current_repetition == s.current_repetition);
                assert(t.current_note == s.current_note + 1);
            } else if s.current_repetition + 1 < REPETITIONS_PER_SCALE {
                assert(s.current_note == u - 1);
                assert((s.current_repetition + 1) * u == s.current_repetition * u + u) by (nonlinear_arith);
            } else {
                assert(s.current_note == u - 1);
                assert(s.current_repetition * u == 2 * u) by (nonlinear_arith)
                    requires
                        s.current_repetition == 2,
                ;
                assert(slots_before(s.scales, s.current_scale + 1) == slots_before(s.scales, s.current_scale) + 3 * u);
                if t.finished() {
                    assert(s.current_scale + 1 == s.scales.len());
                } else {
                    assert(t.current_repetition * slot_count(t.scales[t.current_scale]) == 0);
                }
            }
        }
        assert((p + 1) % 12 == if p % 12 + 1 >= 12 {
            0
        } else {
            p % 12 + 1
        });
        assert((p + 1) / 12 == if p % 12 + 1 >= 12 {
            p / 12 + 1
        } else {
            p / 12
        });
        assert(((p / 12) + 1) % 12 == ((p / 12) % 12 + 1) % 12);
    }
}


/// Each note slot lasts this many samples (a note length of zero still takes one).
pub open spec fn slot_samples(note_samples: int) -> int {
    if note_samples < 1 {
        1
    } else {
        note_samples
    }
}

/// What holds `n` samples after the start of a playback of `scales`: no pause has
/// begun; the note slots completed are `n / slot_samples`, up to all of them; the
/// current note has sounded for `n % slot_samples` samples; the playback has ended
/// exactly when every slot has been played; and the harmony has moved one step
/// along the circle of fifths per 12 slots, the harmony note being that step of the
/// circle from the current scale's root, in the third octave.
pub open spec fn schedule_holds(scales: Seq<Scale>, note_samples: int, pause_samples: int, n: nat) -> bool {
    let s = run(initial_state(scales, note_samples, pause_samples), n);
    let d = slot_samples(note_samples);
    let k = n as int;
    &&& s.scales == scales
    &&& s.note_samples == note_samples
    &&& s.pause_samples == pause_samples
    &&& s.wf()
    &&& !s.in_pause
    &&& s.position() == (if k / d < total_slots(scales) {
        k / d
    } else {
        total_slots(scales)
    })
    &&& (s.finished() <==> k / d >= total_slots(scales))
    &&& (!s.finished() ==> s.samples_played == k % d)
    &&& s.harmony_tracks_position()
    &&& (!s.finished() ==> s.harmony() == Some(
        (THIRD_OCTAVE + (s.scales[s.current_scale].root + spec_circle_of_fifths(
            (s.position() / 12) % 12,
        )) % 12) as i32,
    ))
    &&& (!s.finished() ==> {
        let scale = scales[s.current_scale];
        let i = (s.position() - slots_before(scales, s.current_scale)) % slot_count(scale);
        s.melody() == if i < scale.notes@.len() {
            Some(scale.notes@[i].semitone)
        } else {
            None::<i32>
        }
    })
}

/// The playback keeps its schedule at every sample (see `schedule_holds`): every
/// note lasts `note_samples` samples, the scales' notes are played in order, each
/// scale `REPETITIONS_PER_SCALE` times, and the harmony changes every 12 notes,
/// following the circle of fifths relative to each scale's root.
pub proof fn lemma_playback_schedule(scales: Seq<Scale>, note_samples: int, pause_samples: int, n: nat)
    requires
        initial_state(scales, note_samples, pause_samples).wf(),
    ensures
        schedule_holds(scales, note_samples, pause_samples, n),
    decreases n,
{
    let s0 = initial_state(scales, note_samples, pause_samples);
    let d = slot_samples(note_samples);
    let s = run(s0, n);
    if n == 0 {
        assert((n as int) / d == 0);
        if scales.len() > 0 {
            lemma_position_in_playback(s0);
        }
    } else {
        lemma_playback_schedule(scales, note_samples, pause_samples, (n - 1) as nat);
        let prev = run(s0, (n - 1) as nat);
        lemma_step_keeps_wf(prev);
        lemma_step_advances_one_slot(prev);
        let q = (n - 1) / d;
        let r = (n - 1) % d;
        vstd::arithmetic::div_mod::lemma_fundamental_div_mod((n - 1) as int, d);
        assert(0 <= r < d);
        if prev.finished() {
            assert(q <= (n as int) / d) by {
                vstd::arithmetic::div_mod::lemma_div_is_ordered((n - 1) as int, n as int, d);
            }
        } else if prev.samples_played + 1 < note_samples {
            assert(n == q * d + (r + 1)) by (nonlinear_arith)
                requires
                    n - 1 == d * q + r,
            ;
            vstd::arithmetic::div_mod::lemma_fundamental_div_mod_converse(n as int, d, q, r + 1);
        } else {
            assert(r + 1 == d);
            assert(n == (q + 1) * d + 0) by (nonlinear_arith)
                requires
                    n - 1 == d * q + r,
                    r + 1 == d,
            ;
            vstd::arithmetic::div_mod::lemma_fundamental_div_mod_converse(n as int, d, q + 1, 0);
        }
    }
    if !s.finished() {
        lemma_position_in_playback(s);
        assert(s.current_harmony_index % 12 == (s.position() / 12) % 12);
        lemma_melody_is_current_note(s);
        let u = slot_count(s.scales[s.current_scale]);
        let x = s.position() - slots_before(s.scales, s.current_scale);
        vstd::arithmetic::div_mod::lemma_fundamental_div_mod_converse(x, u, s.current_repetition, s.current_note);
    }
}

/// Outside a pause, the melody is the scale's note at the current note index (or
/// silence in the one slot of a scale without notes), and nothing sounds once every
/// scale has been played.
pub proof fn lemma_melody_is_current_note(s: PlayerState)
    requires
        s.wf(),
        !s.in_pause,
    ensures
        s.finished() ==> s.melody() is None,
        !s.finished() && s.current_note < s.scales[s.current_scale].notes@.len() ==> s.melody()
            == Some(s.scales[s.current_scale].notes@[s.current_note].semitone),
        !s.finished() && s.current_note >= s.scales[s.current_scale].notes@.len() ==> s.melody() is None,
{
}


proof fn lemma_slots_before_strictly_grows(scales: Seq<Scale>, i: int, j: int)
    requires
        0 <= i < j,
    ensures
        slots_before(scales, i + 1) <= slots_before(scales, j),
{
    lemma_slots_before_grows(scales, i + 1, j);
}

/// The number of note slots played tells exactly where the playback is: two states
/// of a playback of the same scales that have played the same number of slots are
/// at the same scale, repetition and note (so they sound the same melody).
pub proof fn lemma_position_determines_note(s: PlayerState, t: PlayerState)
    requires
        s.wf(),
        t.wf(),
        s.scales == t.scales,
        !s.finished(),
        !t.finished(),
        s.position() == t.position(),
    ensures
        s.current_scale == t.current_scale,
        s.current_repetition == t.current_repetition,
        s.current_note == t.current_note,
        !s.in_pause && !t.in_pause ==> s.melody() == t.melody(),
{
    lemma_position_in_playback(s);
    lemma_position_in_playback(t);
    if s.current_scale < t.current_scale {
        lemma_slots_before_strictly_grows(s.scales, s.current_scale, t.current_scale);
    } else if t.current_scale < s.current_scale {
        lemma_slots_before_strictly_grows(s.scales, t.current_scale, s.current_scale);
    }
    assert(s.current_scale == t.current_scale);
    let u = slot_count(s.scales[s.current_scale]);
    let x = s.position() - slots_before(s.scales, s.current_scale);
    assert(x == s.current_repetition * u + s.current_note);
    assert(x == t.current_repetition * u + t.current_note);
    vstd::arithmetic::div_mod::lemma_fundamental_div_mod_converse(x, u, s.current_repetition, s.current_note);
    vstd::arithmetic::div_mod::lemma_fundamental_div_mod_converse(x, u, t.current_repetition, t.current_note);
}


/// Announcements number the performances in playing order: a player starts at
/// performance 1 (repetition 1 of scale 0, harmony on the root); each announcement
/// that a sample makes names the performance after the current one, of the scale
/// that is then playing; a sample announces exactly when a new repetition or scale
/// begins; and the harmony note named is the one sounding, in pitch class.
pub proof fn lemma_announcements_number_performances(s: PlayerState)
    requires
        s.wf(),
        !s.in_pause,
        !s.finished(),
    ensures
        ({
            let a = s.announcement(true).unwrap();
            &&& s.announcement(true) is Some
            &&& a.scale_index == s.current_scale
            &&& a.performance == a.scale_index * REPETITIONS_PER_SCALE + a.repetition
            &&& 1 <= a.repetition <= REPETITIONS_PER_SCALE
            &&& a.total_performances == s.scales.len() * REPETITIONS_PER_SCALE
            &&& a.harmony_note == Some((s.harmony().unwrap() - THIRD_OCTAVE) as usize)
            &&& (s.step_announcement() is Some <==> (s.samples_played + 1 >= s.note_samples
                && s.current_note + 1 >= s.scales[s.current_scale].notes@.len()
                && !s.step().finished()))
            &&& (s.step_announcement() is Some ==> {
                let b = s.step_announcement().unwrap();
                &&& b.performance == a.performance + 1
                &&& b.total_performances == a.total_performances
                &&& b.scale_index == s.step().current_scale
                &&& b.performance == b.scale_index * REPETITIONS_PER_SCALE + b.repetition
            })
        }),
{
}

/// A new player announces performance 1: the first repetition of the first scale,
/// with the harmony on that scale's root.
pub proof fn lemma_first_announcement(scales: Seq<Scale>, note_samples: int, pause_samples: int)
    requires
        initial_state(scales, note_samples, pause_samples).wf(),
        scales.len() > 0,
    ensures
        initial_state(scales, note_samples, pause_samples).announcement(true) == Some(
            Announcement {
                scale_index: 0,
                performance: 1,
                total_performances: (scales.len() * REPETITIONS_PER_SCALE) as usize,
                repetition: 1,
                harmony_note: Some(scales[0].root),
            },
        ),
{
    assert(scales[0].wf());
}

} // verus!
