//! The playback engine: drives a song's timeline against a frame counter,
//! moves the on-screen notes, judges them against the tick's input snapshot,
//! and accumulates score, combo and hit counts until the song ends.

use vstd::prelude::*;

use crate::score::{calc_score, score_for_combo, Score};
use crate::song_data::{timeline_wf, Command, Fragment, Track, MAX_FRAGMENTS, MAX_SPEED};
use crate::songs::SongID;

verus! {

/// Tile column of the judgement lane; notes are hittable just right of it.
pub const JUDGEMENT_AREA: i32 = 5;

/// Tile row of the high lane.
pub const JUDGEMENT_HIGH: i32 = 10;

/// Tile row of the low lane.
pub const JUDGEMENT_LOW: i32 = 13;

/// Scroll position where a note spawns: the right screen edge.
pub const SPAWN_X: i32 = 240;

/// Exclusive lower bound of the judgement window.
pub const WINDOW_LOW: i32 = 40;

/// Exclusive upper bound of the judgement window.
pub const WINDOW_HIGH: i32 = 52;

/// A note whose scroll position drops below this is taken off the screen.
pub const REMOVE_BELOW: i32 = -10;

impl Track {
    /// Pixel row of this track's judgement lane.
    pub fn y_pos(&self) -> (r: i32)
        ensures
            *self == Track::Low ==> r == 8 * JUDGEMENT_LOW,
            *self == Track::High ==> r == 8 * JUDGEMENT_HIGH,
    {
        match self {
            Track::Low => 8 * JUDGEMENT_LOW,
            Track::High => 8 * JUDGEMENT_HIGH,
        }
    }
}

/// An on-screen note: its lane, its scroll position in whole pixels, and
/// whether it has been judged (hit, or already past the window unhit).
/// Positions are whole pixels on purpose: one speed unit per tick, no
/// fractional positions to reason about.
#[derive(Clone, Copy, Debug, PartialEq, Eq, Structural)]
pub struct Note {
    pub track: Track,
    pub location: i32,
    pub hit: bool,
}

impl Note {
    /// A fresh note on the given track, at the right screen edge.
    pub fn new(track: Track) -> (r: Self)
        ensures
            r.track == track,
            r.location == SPAWN_X,
            !r.hit,
    {
        Self { track, location: SPAWN_X, hit: false }
    }

    /// Scroll the note left by one tick's worth of speed.
    pub fn update(&mut self, speed: i32)
        requires
            REMOVE_BELOW <= old(self).location <= SPAWN_X,
            1 <= speed <= MAX_SPEED,
        ensures
            final(self).location == old(self).location - speed,
            final(self).track == old(self).track,
            final(self).hit == old(self).hit,
    {
        self.location = self.location - speed;
    }

    pub fn location(&self) -> (r: i32)
        ensures
            r == self.location,
    {
        self.location
    }

    pub fn track(&self) -> (r: &Track)
        ensures
            *r == self.track,
    {
        &self.track
    }

    pub fn hit(&self) -> (r: bool)
        ensures
            r == self.hit,
    {
        self.hit
    }
}

/// The input snapshot of one tick: whether each track's button was newly
/// pressed this tick. Edge-triggered facts, sampled once per tick.
#[derive(Clone, Copy, Debug, PartialEq, Eq, Structural)]
pub struct TickInput {
    pub low: bool,
    pub high: bool,
}

/// Whether the button of the given track was newly pressed this tick.
pub open spec fn pressed(input: TickInput, track: Track) -> bool {
    match track {
        Track::Low => input.low,
        Track::High => input.high,
    }
}

/// What one tick reports back to its caller.
#[derive(Clone, Copy, Debug, PartialEq, Eq, Structural)]
pub enum SongResult {
    Continue,
    UpdateText,
    Finished,
}

/// The running accumulator of one tick's walk over the notes, in sequence
/// order: the notes kept on screen so far and the counters as they stand.
pub struct TickAcc {
    pub notes: Seq<Note>,
    pub score: int,
    pub combo: int,
    pub max_combo: int,
    pub hits: int,
    pub signal: bool,
}

/// One note's share of a tick. The note first scrolls by the speed; then:
/// below the removal line it leaves the screen; inside the open window
/// `(WINDOW_LOW, WINDOW_HIGH)`, unjudged, with its button newly pressed, it
/// is hit: the combo and hit count grow and the combo's worth is scored; at
/// or below the window unjudged, it is a miss: the best combo is saved and
/// the combo resets, redrawing signalled only when the lost combo was
/// visible (at least 5). A judged note just scrolls on.
pub open spec fn note_step(acc: TickAcc, n: Note, speed: i32, input: TickInput) -> TickAcc {
    let moved = Note { track: n.track, location: (n.location - speed) as i32, hit: n.hit };
    if moved.location < REMOVE_BELOW {
        TickAcc { notes: acc.notes, ..acc }
    } else if WINDOW_LOW < moved.location && moved.location < WINDOW_HIGH && !moved.hit
        && pressed(input, moved.track) {
        TickAcc {
            notes: acc.notes.push(Note { hit: true, ..moved }),
            score: acc.score + score_for_combo((acc.combo + 1) as nat),
            combo: acc.combo + 1,
            max_combo: acc.max_combo,
            hits: acc.hits + 1,
            signal: true,
        }
    } else if !moved.hit && moved.location <= WINDOW_LOW {
        TickAcc {
            notes: acc.notes.push(Note { hit: true, ..moved }),
            score: acc.score,
            combo: 0,
            max_combo: if acc.combo > acc.max_combo {
                acc.combo
            } else {
                acc.max_combo
            },
            hits: acc.hits,
            signal: acc.signal || acc.combo >= 5,
        }
    } else {
        TickAcc { notes: acc.notes.push(moved), ..acc }
    }
}

/// The accumulator after the first `i` notes of the tick.
pub open spec fn tick_fold(
    notes: Seq<Note>,
    i: int,
    init: TickAcc,
    speed: i32,
    input: TickInput,
) -> TickAcc
    decreases i,
{
    if i <= 0 {
        init
    } else {
        note_step(tick_fold(notes, i - 1, init, speed, input), notes[i - 1], speed, input)
    }
}

/// Number of notes of a sequence not yet judged.
pub open spec fn count_unhit(notes: Seq<Note>) -> int
    decreases notes.len(),
{
    if notes.len() == 0 {
        0
    } else {
        count_unhit(notes.drop_last()) + if notes.last().hit {
            0int
        } else {
            1int
        }
    }
}

/// A note as it spawns: on its track, at the right edge, unjudged.
pub open spec fn spawn_note(t: Track) -> Note {
    Note { track: t, location: SPAWN_X, hit: false }
}

/// Truncating accuracy percentage: hits per timeline fragment, with an
/// empty timeline counting as perfect.
pub open spec fn spec_accuracy(hits: int, total: int) -> int {
    if total == 0 {
        100
    } else {
        hits * 100 / total
    }
}

/// The playback state of one song being played: the timeline and a cursor
/// into it, the live notes in spawn order, the scroll speed, and the
/// running counters.
pub struct Song {
    pub song_id: SongID,
    pub fragments: Vec<Fragment>,
    pub notes: Vec<Note>,
    pub current_speed: i32,
    pub index: usize,
    pub score: usize,
    pub combo: usize,
    pub max_combo: usize,
    pub hit: usize,
}

proof fn lemma_count_unhit_take_le(notes: Seq<Note>, i: int)
    requires
        0 <= i <= notes.len(),
    ensures
        0 <= count_unhit(notes.take(i)),
        count_unhit(notes.take(i)) <= count_unhit(notes),
    decreases notes.len(),
{
    if i == notes.len() {
        assert(notes.take(i) =~= notes);
        lemma_count_unhit_nonneg(notes);
    } else {
        assert(notes.drop_last().take(i) =~= notes.take(i));
        lemma_count_unhit_take_le(notes.drop_last(), i);
    }
}

proof fn lemma_count_unhit_nonneg(notes: Seq<Note>)
    ensures
        0 <= count_unhit(notes),
    decreases notes.len(),
{
    if notes.len() > 0 {
        lemma_count_unhit_nonneg(notes.drop_last());
    }
}

proof fn lemma_count_unhit_push(notes: Seq<Note>, x: Note)
    ensures
        count_unhit(notes.push(x)) == count_unhit(notes) + if x.hit {
            0int
        } else {
            1int
        },
{
    assert(notes.push(x).drop_last() =~= notes);
}

proof fn lemma_fold_bounds(notes: Seq<Note>, i: int, init: TickAcc, speed: i32, input: TickInput)
    requires
        0 <= i <= notes.len(),
        0 <= init.hits,
        0 <= init.combo <= init.hits,
        0 <= init.max_combo <= init.hits,
        0 <= init.score <= 150 * init.hits,
        init.notes.len() == 0,
        forall|k: int|
            0 <= k < notes.len() ==> REMOVE_BELOW <= (#[trigger] notes[k]).location <= SPAWN_X,
        1 <= speed <= MAX_SPEED,
    ensures
        ({
            let acc = tick_fold(notes, i, init, speed, input);
            &&& init.hits <= acc.hits
            &&& acc.hits + count_unhit(acc.notes) <= init.hits + count_unhit(notes.take(i))
            &&& 0 <= acc.combo <= acc.hits
            &&& 0 <= acc.max_combo <= acc.hits
            &&& 0 <= acc.score <= 150 * acc.hits
            &&& forall|k: int|
                0 <= k < acc.notes.len() ==> REMOVE_BELOW <= (#[trigger] acc.notes[k]).location
                    < SPAWN_X
        }),
    decreases i,
{
    if i <= 0 {
        lemma_count_unhit_nonneg(notes.take(i));
    } else {
        lemma_fold_bounds(notes, i - 1, init, speed, input);
        let prev = tick_fold(notes, i - 1, init, speed, input);
        let n = notes[i - 1];
        assert(notes.take(i).drop_last() =~= notes.take(i - 1));
        assert(notes.take(i).last() == n);
        let moved = Note { track: n.track, location: (n.location - speed) as i32, hit: n.hit };
        lemma_count_unhit_push(prev.notes, Note { hit: true, ..moved });
        lemma_count_unhit_push(prev.notes, moved);
    }
}

impl Song {
    /// Internal consistency of a playback state: a valid timeline, the
    /// cursor inside it, a playable speed, notes on screen, and counters
    /// bounded by the notes that can have spawned so far.
    pub open spec fn wf(&self) -> bool {
        &&& timeline_wf(self.fragments@)
        &&& self.index <= self.fragments@.len()
        &&& 1 <= self.current_speed <= MAX_SPEED
        &&& self.hit + count_unhit(self.notes@) <= 2 * self.index
        &&& self.score <= 150 * self.hit
        &&& self.combo <= self.hit
        &&& self.max_combo <= self.hit
        &&& forall|k: int|
            0 <= k < self.notes@.len() ==> REMOVE_BELOW <= (#[trigger] self.notes@[k]).location
                <= SPAWN_X
    }

    /// Whether the fragment at the cursor is due this very frame.
    pub open spec fn due(&self, frame: usize) -> bool {
        self.index < self.fragments@.len() && self.fragments@[self.index as int].frame == frame
    }

    /// The song is over: every fragment consumed and no note left alive.
    pub open spec fn finished_now(&self) -> bool {
        self.index >= self.fragments@.len() && self.notes@.len() == 0
    }

    /// The live notes after the spawn phase of a tick.
    pub open spec fn notes_after_spawn(&self, frame: usize) -> Seq<Note> {
        if self.due(frame) {
            match self.fragments@[self.index as int].command {
                Command::Note(t) => self.notes@.push(spawn_note(t)),
                Command::NoteBoth => self.notes@.push(spawn_note(Track::Low)).push(
                    spawn_note(Track::High),
                ),
                Command::SetSpeed(_) => self.notes@,
            }
        } else {
            self.notes@
        }
    }

    /// The scroll speed after the spawn phase of a tick.
    pub open spec fn speed_after_spawn(&self, frame: usize) -> i32 {
        if self.due(frame) {
            match self.fragments@[self.index as int].command {
                Command::SetSpeed(v) => v,
                _ => self.current_speed,
            }
        } else {
            self.current_speed
        }
    }

    /// The fragment cursor after the spawn phase of a tick.
    pub open spec fn index_after_spawn(&self, frame: usize) -> int {
        if self.due(frame) {
            self.index + 1
        } else {
            self.index as int
        }
    }

    /// The counters this tick starts from.
    pub open spec fn start_acc(&self) -> TickAcc {
        TickAcc {
            notes: Seq::empty(),
            score: self.score as int,
            combo: self.combo as int,
            max_combo: self.max_combo as int,
            hits: self.hit as int,
            signal: false,
        }
    }

    /// Everything one tick computes, as a fold over the post-spawn notes.
    pub open spec fn tick_acc(&self, input: TickInput, frame: usize) -> TickAcc {
        tick_fold(
            self.notes_after_spawn(frame),
            self.notes_after_spawn(frame).len() as int,
            self.start_acc(),
            self.speed_after_spawn(frame),
            input,
        )
    }

    /// A fresh playback state for a song, ready for its first tick.
    pub fn new(song_id: SongID, fragments: Vec<Fragment>) -> (r: Self)
        requires
            timeline_wf(fragments@),
        ensures
            r.song_id == song_id,
            r.fragments == fragments,
            r.notes@.len() == 0,
            r.current_speed == 1,
            r.index == 0,
            r.score == 0,
            r.combo == 0,
            r.max_combo == 0,
            r.hit == 0,
            r.wf(),
    {
        Self {
            song_id,
            fragments,
            notes: Vec::new(),
            current_speed: 1,
            index: 0,
            score: 0,
            combo: 0,
            max_combo: 0,
            hit: 0,
        }
    }

    /// One tick of playback. A due fragment is applied first (a fragment is
    /// matched at most once: cursor and frame only grow); then every note
    /// scrolls and is judged against this tick's input snapshot; judged-off
    /// notes leave the screen. Reports `Finished` once the timeline is
    /// consumed and no note is left, `UpdateText` when a redraw is owed (a
    /// hit, or a visible combo lost), and `Continue` otherwise.
    pub fn update(&mut self, input: TickInput, frame: usize) -> (r: SongResult)
        requires
            old(self).wf(),
        ensures
            final(self).wf(),
            old(self).finished_now() ==> r == SongResult::Finished && *final(self) == *old(self),
            !old(self).finished_now() ==> ({
                let acc = old(self).tick_acc(input, frame);
                &&& final(self).song_id == old(self).song_id
                &&& final(self).fragments == old(self).fragments
                &&& final(self).index == old(self).index_after_spawn(frame)
                &&& final(self).current_speed == old(self).speed_after_spawn(frame)
                &&& final(self).notes@ == acc.notes
                &&& final(self).score == acc.score
                &&& final(self).combo == acc.combo
                &&& final(self).max_combo == acc.max_combo
                &&& final(self).hit == acc.hits
                &&& r == if acc.signal {
                    SongResult::UpdateText
                } else {
                    SongResult::Continue
                }
            }),
    {
        let ghost pre = *old(self);
        if self.index < self.fragments.len() {
            let frag = self.fragments[self.index];
            if frag.frame == frame {
                self.index = self.index + 1;
                match frag.command {
                    Command::Note(track) => {
                        self.notes.push(Note::new(track));
                    },
                    Command::NoteBoth => {
                        self.notes.push(Note::new(Track::Low));
                        self.notes.push(Note::new(Track::High));
                    },
                    Command::SetSpeed(speed) => {
                        self.current_speed = speed;
                    },
                }
            }
        } else if self.notes.is_empty() {
            return SongResult::Finished;
        }
        proof {
            assert(self.notes@ =~= pre.notes_after_spawn(frame));
            if pre.due(frame) {
                match pre.fragments@[pre.index as int].command {
                    Command::Note(t) => {
                        lemma_count_unhit_push(pre.notes@, spawn_note(t));
                    },
                    Command::NoteBoth => {
                        lemma_count_unhit_push(pre.notes@, spawn_note(Track::Low));
                        lemma_count_unhit_push(
                            pre.notes@.push(spawn_note(Track::Low)),
                            spawn_note(Track::High),
                        );
                    },
                    Command::SetSpeed(_) => {},
                }
            }
        }
        let ghost notes1 = self.notes@;
        let ghost init = pre.start_acc();
        let speed = self.current_speed;
        let mut kept: Vec<Note> = Vec::new();
        let mut signal = false;
        let n = self.notes.len();
        let mut i: usize = 0;
        while i < n
            invariant
                i <= n,
                n == notes1.len(),
                self.notes@ == notes1,
                1 <= speed <= MAX_SPEED,
                speed == pre.speed_after_spawn(frame),
                input == input,
                self.song_id == pre.song_id,
                self.fragments == pre.fragments,
                self.current_speed == speed,
                self.index == pre.index_after_spawn(frame),
                timeline_wf(self.fragments@),
                self.index <= self.fragments@.len(),
                self.fragments@.len() <= MAX_FRAGMENTS,
                init == pre.start_acc(),
                0 <= init.hits,
                0 <= init.combo <= init.hits,
                0 <= init.max_combo <= init.hits,
                0 <= init.score <= 150 * init.hits,
                init.notes.len() == 0,
                init.hits + count_unhit(notes1) <= 2 * self.index,
                forall|k: int|
                    0 <= k < notes1.len() ==> REMOVE_BELOW <= (#[trigger] notes1[k]).location
                        <= SPAWN_X,
                ({
                    let acc = tick_fold(notes1, i as int, init, speed, input);
                    &&& kept@ == acc.notes
                    &&& self.score == acc.score
                    &&& self.combo == acc.combo
                    &&& self.max_combo == acc.max_combo
                    &&& self.hit == acc.hits
                    &&& signal == acc.signal
                }),
            decreases n - i,
        {
            proof {
                lemma_fold_bounds(notes1, i as int, init, speed, input);
                lemma_count_unhit_nonneg(tick_fold(notes1, i as int, init, speed, input).notes);
                lemma_count_unhit_take_le(notes1, i as int);
                lemma_count_unhit_take_le(notes1, i + 1);
            }
            let note = self.notes[i];
            let loc = note.location - speed;
            let moved = Note { track: note.track, location: loc, hit: note.hit };
            if loc < REMOVE_BELOW {
                // gone off the left edge: dropped from the active set
            } else if WINDOW_LOW < loc && loc < WINDOW_HIGH && !moved.hit && (match moved.track {
                Track::Low => input.low,
                Track::High => input.high,
            }) {
                kept.push(Note { hit: true, ..moved });
                self.hit = self.hit + 1;
                self.combo = self.combo + 1;
                let points = calc_score(self.combo);
                self.score = self.score + points;
                signal = true;
            } else if !moved.hit && loc <= WINDOW_LOW {
                kept.push(Note { hit: true, ..moved });
                if self.combo >= 5 {
                    signal = true;
                }
                if self.combo > self.max_combo {
                    self.max_combo = self.combo;
                }
                self.combo = 0;
            } else {
                kept.push(moved);
            }
            proof {
                assert(tick_fold(notes1, i + 1, init, speed, input) == note_step(
                    tick_fold(notes1, i as int, init, speed, input),
                    notes1[i as int],
                    speed,
                    input,
                ));
            }
            i += 1;
        }
        self.notes = kept;
        proof {
            assert(notes1.take(n as int) =~= notes1);
            lemma_fold_bounds(notes1, n as int, init, speed, input);
        }
        if signal {
            SongResult::UpdateText
        } else {
            SongResult::Continue
        }
    }

    pub fn score(&self) -> (r: usize)
        ensures
            r == self.score,
    {
        self.score
    }

    pub fn combo(&self) -> (r: usize)
        ensures
            r == self.combo,
    {
        self.combo
    }

    /// The outcome of the whole play: the score, the best combo (the
    /// running streak included), and the truncating accuracy percentage.
    pub fn final_score(&self) -> (r: Score)
        requires
            self.wf(),
        ensures
            r.score == self.score,
            r.max_combo == if self.combo > self.max_combo {
                self.combo as int
            } else {
                self.max_combo as int
            },
            r.accuracy == spec_accuracy(self.hit as int, self.fragments@.len() as int),
    {
        let total = self.fragments.len();
        let max_combo = if self.combo > self.max_combo {
            self.combo
        } else {
            self.max_combo
        };
        let accuracy: u8 = if total == 0 {
            100
        } else {
            proof {
                lemma_count_unhit_nonneg(self.notes@);
                assert((self.hit as int) * 100 / (total as int) <= 200) by (nonlinear_arith)
                    requires
                        0 < total,
                        self.hit <= 2 * total,
                ;
                assert((self.hit as int) * 100 / (total as int) >= 0) by (nonlinear_arith)
                    requires
                        0 < total,
                ;
            }
            ((self.hit * 100) / total) as u8
        };
        Score::new(self.score, max_combo, accuracy)
    }
}

/// Law: judged notes are inert over a whole tick too. When every note on
/// screen is already judged, walking all of them changes no counter and no
/// signal: no score is accumulated twice and no combo is reset twice.
pub proof fn lemma_judged_notes_inert_fold(
    notes: Seq<Note>,
    i: int,
    init: TickAcc,
    speed: i32,
    input: TickInput,
)
    requires
        0 <= i <= notes.len(),
        forall|k: int| 0 <= k < notes.len() ==> (#[trigger] notes[k]).hit,
    ensures
        tick_fold(notes, i, init, speed, input).score == init.score,
        tick_fold(notes, i, init, speed, input).combo == init.combo,
        tick_fold(notes, i, init, speed, input).max_combo == init.max_combo,
        tick_fold(notes, i, init, speed, input).hits == init.hits,
        tick_fold(notes, i, init, speed, input).signal == init.signal,
    decreases i,
{
    if i > 0 {
        lemma_judged_notes_inert_fold(notes, i - 1, init, speed, input);
        lemma_judged_note_inert(
            tick_fold(notes, i - 1, init, speed, input),
            notes[i - 1],
            speed,
            input,
        );
    }
}

/// Law: a judged note is inert. Its share of a tick changes no counter and
/// no signal, and it can never be judged again: it either leaves the screen
/// or scrolls on still judged. In particular a note is hit at most once, and
/// a hit note neither scores again nor resets the combo.
pub proof fn lemma_judged_note_inert(acc: TickAcc, n: Note, speed: i32, input: TickInput)
    requires
        n.hit,
    ensures
        note_step(acc, n, speed, input).score == acc.score,
        note_step(acc, n, speed, input).combo == acc.combo,
        note_step(acc, n, speed, input).max_combo == acc.max_combo,
        note_step(acc, n, speed, input).hits == acc.hits,
        note_step(acc, n, speed, input).signal == acc.signal,
        note_step(acc, n, speed, input).notes == acc.notes || note_step(
            acc,
            n,
            speed,
            input,
        ).notes == acc.notes.push(
            Note { track: n.track, location: (n.location - speed) as i32, hit: true },
        ),
{
}

} // verus!
