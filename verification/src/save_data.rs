//! The save store: one fixed-capacity leaderboard per song, kept sorted
//! descending by raw score, with an insertion that drops anything worse than
//! the last kept entry.

use vstd::prelude::*;

use crate::score::Score;
use crate::songs::SongID;

verus! {

/// Number of leaderboard slots kept per song.
pub const SCORES_PER_SONG: usize = 5;

/// A well-formed leaderboard: exactly the fixed number of slots, filled
/// slots before empty ones, and filled slots sorted descending by score.
pub open spec fn board_ok(b: Seq<Option<Score>>) -> bool {
    &&& b.len() == SCORES_PER_SONG
    &&& forall|i: int, j: int|
        0 <= i < j < b.len() && #[trigger] b[j] is Some ==> #[trigger] b[i] is Some
            && b[i]->0.score >= b[j]->0.score
}

/// One step of the insertion scan with `carry` in hand at slot `i`: an empty
/// slot takes the carry and the scan stops; a slot with a lower score gives
/// its content up as the new carry; any other slot is left alone. A carry
/// still in hand past the last slot is dropped.
pub open spec fn board_insert_from(b: Seq<Option<Score>>, carry: Score, i: int) -> Seq<
    Option<Score>,
>
    decreases b.len() - i,
{
    if i < 0 || i >= b.len() {
        b
    } else if b[i] is None {
        b.update(i, Some(carry))
    } else if b[i]->0.score < carry.score {
        board_insert_from(b.update(i, Some(carry)), b[i]->0, i + 1)
    } else {
        board_insert_from(b, carry, i + 1)
    }
}

/// The leaderboard after offering it one new score.
pub open spec fn board_insert(b: Seq<Option<Score>>, s: Score) -> Seq<Option<Score>> {
    board_insert_from(b, s, 0)
}

/// An all-empty leaderboard.
pub open spec fn empty_board() -> Seq<Option<Score>> {
    Seq::new(SCORES_PER_SONG as nat, |i: int| None::<Score>)
}

proof fn lemma_board_insert_from_ok(b: Seq<Option<Score>>, carry: Score, i: int)
    requires
        board_ok(b),
        0 <= i <= b.len(),
        forall|j: int| 0 <= j < i ==> #[trigger] b[j] is Some && b[j]->0.score >= carry.score,
    ensures
        board_ok(board_insert_from(b, carry, i)),
    decreases b.len() - i,
{
    if i >= b.len() {
    } else if b[i] is None {
        let r = b.update(i, Some(carry));
        assert forall|p: int, q: int|
            0 <= p < q < r.len() && #[trigger] r[q] is Some implies #[trigger] r[p] is Some
            && r[p]->0.score >= r[q]->0.score by {
            if q > i {
                assert(b[q] is Some);
                assert(b[i] is Some);
            }
        }
    } else if b[i]->0.score < carry.score {
        let b2 = b.update(i, Some(carry));
        assert forall|p: int, q: int|
            0 <= p < q < b2.len() && #[trigger] b2[q] is Some implies #[trigger] b2[p] is Some
            && b2[p]->0.score >= b2[q]->0.score by {
            if q > i && p == i {
                assert(b[q] is Some);
                assert(b[i]->0.score >= b[q]->0.score);
            }
        }
        lemma_board_insert_from_ok(b2, b[i]->0, i + 1);
    } else {
        lemma_board_insert_from_ok(b, carry, i + 1);
    }
}

/// Law: offering any score to a well-formed leaderboard leaves it
/// well-formed, that is sorted descending with filled slots first.
pub proof fn lemma_board_insert_ok(b: Seq<Option<Score>>, s: Score)
    requires
        board_ok(b),
    ensures
        board_ok(board_insert(b, s)),
{
    lemma_board_insert_from_ok(b, s, 0);
}

proof fn lemma_board_insert_from_low(b: Seq<Option<Score>>, carry: Score, i: int)
    requires
        0 <= i <= b.len(),
        forall|j: int|
            i <= j < b.len() ==> #[trigger] b[j] is Some && b[j]->0.score >= carry.score,
    ensures
        board_insert_from(b, carry, i) == b,
    decreases b.len() - i,
{
    if i < b.len() {
        lemma_board_insert_from_low(b, carry, i + 1);
    }
}

/// Law: a score no better than every entry of a full leaderboard is dropped
/// and the leaderboard is left exactly as it was.
pub proof fn lemma_board_insert_full_low(b: Seq<Option<Score>>, s: Score)
    requires
        board_ok(b),
        b[b.len() - 1] is Some,
        s.score <= b[b.len() - 1]->0.score,
    ensures
        board_insert(b, s) == b,
{
    assert forall|j: int| 0 <= j < b.len() implies #[trigger] b[j] is Some && b[j]->0.score
        >= s.score by {
        if j < b.len() - 1 {
            assert(b[j] is Some && b[j]->0.score >= b[b.len() - 1]->0.score);
        }
    }
    lemma_board_insert_from_low(b, s, 0);
}

/// Number of filled slots whose score is at least `x`.
pub open spec fn count_ge_board(b: Seq<Option<Score>>, x: usize) -> int
    decreases b.len(),
{
    if b.len() == 0 {
        0
    } else {
        count_ge_board(b.drop_last(), x) + if b.last() matches Some(s) && s.score >= x {
            1int
        } else {
            0int
        }
    }
}

/// Number of entries of a score sequence whose score is at least `x`.
pub open spec fn count_ge_scores(ss: Seq<Score>, x: usize) -> int
    decreases ss.len(),
{
    if ss.len() == 0 {
        0
    } else {
        count_ge_scores(ss.drop_last(), x) + if ss.last().score >= x {
            1int
        } else {
            0int
        }
    }
}

/// The leaderboard reached by offering the scores of `ss` in order to an
/// empty one.
pub open spec fn board_after(ss: Seq<Score>) -> Seq<Option<Score>>
    decreases ss.len(),
{
    if ss.len() == 0 {
        empty_board()
    } else {
        board_insert(board_after(ss.drop_last()), ss.last())
    }
}

proof fn lemma_count_ge_update(b: Seq<Option<Score>>, i: int, v: Option<Score>, x: usize)
    requires
        0 <= i < b.len(),
    ensures
        count_ge_board(b.update(i, v), x) == count_ge_board(b, x) + (if v matches Some(s)
            && s.score >= x {
            1int
        } else {
            0int
        }) - (if b[i] matches Some(s) && s.score >= x {
            1int
        } else {
            0int
        }),
    decreases b.len(),
{
    if i == b.len() - 1 {
        assert(b.update(i, v).drop_last() =~= b.drop_last());
    } else {
        assert(b.update(i, v).drop_last() =~= b.drop_last().update(i, v));
        lemma_count_ge_update(b.drop_last(), i, v, x);
    }
}

proof fn lemma_count_ge_all(b: Seq<Option<Score>>, x: usize)
    requires
        forall|j: int| 0 <= j < b.len() ==> #[trigger] b[j] is Some && b[j]->0.score >= x,
    ensures
        count_ge_board(b, x) == b.len(),
    decreases b.len(),
{
    if b.len() > 0 {
        lemma_count_ge_all(b.drop_last(), x);
    }
}

proof fn lemma_count_ge_board_le_len(b: Seq<Option<Score>>, x: usize)
    ensures
        0 <= count_ge_board(b, x) <= b.len(),
    decreases b.len(),
{
    if b.len() > 0 {
        lemma_count_ge_board_le_len(b.drop_last(), x);
    }
}

proof fn lemma_count_ge_scores_le_len(ss: Seq<Score>, x: usize)
    ensures
        0 <= count_ge_scores(ss, x) <= ss.len(),
    decreases ss.len(),
{
    if ss.len() > 0 {
        lemma_count_ge_scores_le_len(ss.drop_last(), x);
    }
}

proof fn lemma_count_ge_empty(x: usize)
    ensures
        count_ge_board(empty_board(), x) == 0,
{
    let e = empty_board();
    assert forall|j: int| 0 <= j < e.len() implies !(#[trigger] e[j] is Some) by {}
    lemma_count_ge_none_all(e, x);
}

proof fn lemma_count_ge_none_all(b: Seq<Option<Score>>, x: usize)
    requires
        forall|j: int| 0 <= j < b.len() ==> !(#[trigger] b[j] is Some),
    ensures
        count_ge_board(b, x) == 0,
    decreases b.len(),
{
    if b.len() > 0 {
        lemma_count_ge_none_all(b.drop_last(), x);
    }
}

proof fn lemma_board_insert_from_count(b: Seq<Option<Score>>, carry: Score, i: int, x: usize)
    requires
        board_ok(b),
        0 < b.len(),
        0 <= i <= b.len(),
        forall|j: int| 0 <= j < i ==> #[trigger] b[j] is Some && b[j]->0.score >= carry.score,
    ensures
        (exists|j: int| i <= j < b.len() && !(#[trigger] b[j] is Some)) ==> count_ge_board(
            board_insert_from(b, carry, i),
            x,
        ) == count_ge_board(b, x) + (if carry.score >= x {
            1int
        } else {
            0int
        }),
        (forall|j: int| i <= j < b.len() ==> #[trigger] b[j] is Some) ==> count_ge_board(
            board_insert_from(b, carry, i),
            x,
        ) == count_ge_board(b, x) + (if carry.score >= x {
            1int
        } else {
            0int
        }) - (if (if carry.score < b[b.len() - 1]->0.score {
            carry.score
        } else {
            b[b.len() - 1]->0.score
        }) >= x {
            1int
        } else {
            0int
        }),
    decreases b.len() - i,
{
    let l = b.len() as int;
    if i >= l {
        assert(b[l - 1] is Some && b[l - 1]->0.score >= carry.score);
    } else if b[i] is None {
        lemma_count_ge_update(b, i, Some(carry), x);
    } else if b[i]->0.score < carry.score {
        let b2 = b.update(i, Some(carry));
        assert forall|p: int, q: int|
            0 <= p < q < b2.len() && #[trigger] b2[q] is Some implies #[trigger] b2[p] is Some
            && b2[p]->0.score >= b2[q]->0.score by {
            if q > i && p == i {
                assert(b[q] is Some);
                assert(b[i]->0.score >= b[q]->0.score);
            }
        }
        lemma_count_ge_update(b, i, Some(carry), x);
        lemma_board_insert_from_count(b2, b[i]->0, i + 1, x);
        if forall|j: int| i <= j < l ==> #[trigger] b[j] is Some {
            assert(forall|j: int| i + 1 <= j < l ==> #[trigger] b2[j] is Some);
            if i == l - 1 {
                assert(b2[l - 1] == Some(carry));
            } else {
                assert(b[l - 1] is Some);
                assert(b2[l - 1] == b[l - 1]);
                assert(b[i]->0.score >= b[l - 1]->0.score);
            }
        } else {
            let j = choose|j: int| i <= j < l && !(#[trigger] b[j] is Some);
            assert(j != i);
            assert(i + 1 <= j < l && !(b2[j] is Some));
        }
    } else {
        lemma_board_insert_from_count(b, carry, i + 1, x);
        if !(forall|j: int| i <= j < l ==> #[trigger] b[j] is Some) {
            let j = choose|j: int| i <= j < l && !(#[trigger] b[j] is Some);
            assert(j != i);
            assert(i + 1 <= j < l && !(b[j] is Some));
        }
    }
}

/// Law: a sequence of scores offered in order to an empty leaderboard leaves
/// exactly the largest `min(k, SCORES_PER_SONG)` of them, sorted descending:
/// the board is well-formed and, for every threshold `x`, it holds
/// `min(count of offered scores at least x, SCORES_PER_SONG)` entries at
/// least `x`. Taking `x = 0` gives the number of filled slots.
pub proof fn lemma_board_after_top(ss: Seq<Score>, x: usize)
    ensures
        board_ok(board_after(ss)),
        count_ge_board(board_after(ss), x) == if count_ge_scores(ss, x) < SCORES_PER_SONG {
            count_ge_scores(ss, x)
        } else {
            SCORES_PER_SONG as int
        },
    decreases ss.len(),
{
    let sps = SCORES_PER_SONG as int;
    if ss.len() == 0 {
        let e = empty_board();
        assert forall|j: int| 0 <= j < e.len() implies !(#[trigger] e[j] is Some) by {}
        lemma_count_ge_empty(x);
    } else {
        let prev = board_after(ss.drop_last());
        let s = ss.last();
        lemma_board_after_top(ss.drop_last(), x);
        lemma_board_after_top(ss.drop_last(), 0);
        lemma_board_insert_from_ok(prev, s, 0);
        lemma_board_insert_from_count(prev, s, 0, x);
        lemma_count_ge_scores_le_len(ss.drop_last(), x);
        lemma_count_ge_scores_le_len(ss.drop_last(), 0);
        lemma_count_ge_board_le_len(prev, x);
        assert(ss.drop_last().len() == ss.len() - 1);
        assert(count_ge_scores(ss, x) == count_ge_scores(ss.drop_last(), x) + if s.score >= x {
            1int
        } else {
            0int
        });
        lemma_count_ge_scores_mono_zero(ss.drop_last(), x);
        if forall|j: int| 0 <= j < prev.len() ==> #[trigger] prev[j] is Some {
            // The board is full: it keeps its old minimum or the new score,
            // whichever is larger, and drops the other.
            lemma_count_ge_all(prev, 0);
            let last = prev[sps - 1]->0;
            if last.score >= x {
                assert forall|j: int| 0 <= j < prev.len() implies #[trigger] prev[j] is Some
                    && prev[j]->0.score >= x by {
                    assert(prev[j] is Some);
                    if j < sps - 1 {
                        assert(prev[sps - 1] is Some);
                    }
                }
                lemma_count_ge_all(prev, x);
            } else {
                lemma_count_ge_miss(prev, sps - 1, x);
            }
        } else {
            // The board still has room: nothing has been dropped, so the
            // counts simply grow with the new score.
            let j = choose|j: int| 0 <= j < prev.len() && !(#[trigger] prev[j] is Some);
            lemma_count_ge_miss(prev, j, 0);
        }
    }
}

proof fn lemma_count_ge_x_le_count_ge_zero(b: Seq<Option<Score>>, x: usize)
    ensures
        count_ge_board(b, x) <= count_ge_board(b, 0),
    decreases b.len(),
{
    if b.len() > 0 {
        lemma_count_ge_x_le_count_ge_zero(b.drop_last(), x);
    }
}

proof fn lemma_count_ge_scores_mono_zero(ss: Seq<Score>, x: usize)
    ensures
        count_ge_scores(ss, x) <= count_ge_scores(ss, 0),
    decreases ss.len(),
{
    if ss.len() > 0 {
        lemma_count_ge_scores_mono_zero(ss.drop_last(), x);
    }
}

proof fn lemma_count_ge_miss(b: Seq<Option<Score>>, m: int, x: usize)
    requires
        0 <= m < b.len(),
        !(b[m] is Some && b[m]->0.score >= x),
    ensures
        count_ge_board(b, x) <= b.len() - 1,
    decreases b.len(),
{
    if m == b.len() - 1 {
        lemma_count_ge_board_le_len(b.drop_last(), x);
    } else {
        lemma_count_ge_miss(b.drop_last(), m, x);
    }
}

/// The in-memory save store: one leaderboard per song of the table.
pub struct SaveData {
    pub scores: Vec<Vec<Option<Score>>>,
}

/// Insertion scan over one leaderboard, carrying displaced entries down.
fn board_insert_exec(slots: &mut Vec<Option<Score>>, score: Score)
    requires
        old(slots)@.len() == SCORES_PER_SONG,
    ensures
        final(slots)@ == board_insert(old(slots)@, score),
{
    let mut carry = score;
    let mut i: usize = 0;
    while i < SCORES_PER_SONG
        invariant
            slots@.len() == SCORES_PER_SONG,
            i <= SCORES_PER_SONG,
            board_insert(old(slots)@, score) == board_insert_from(slots@, carry, i as int),
        decreases SCORES_PER_SONG - i,
    {
        match slots[i] {
            Some(current) => {
                if current.score < carry.score {
                    slots[i] = Some(carry);
                    carry = current;
                }
            },
            None => {
                slots[i] = Some(carry);
                return ;
            },
        }
        i += 1;
    }
}

impl SaveData {
    /// The leaderboard of one song, as a mathematical sequence.
    pub open spec fn board(&self, song: int) -> Seq<Option<Score>> {
        self.scores@[song]@
    }

    /// Well-formed store: every song has a well-formed leaderboard.
    pub open spec fn wf(&self) -> bool {
        forall|s: int| 0 <= s < self.scores@.len() ==> board_ok(#[trigger] self.board(s))
    }

    /// A store of all-empty leaderboards for the given number of songs.
    pub fn new(song_count: usize) -> (r: Self)
        ensures
            r.scores@.len() == song_count,
            forall|s: int| 0 <= s < song_count ==> #[trigger] r.board(s) == empty_board(),
            r.wf(),
    {
        let mut scores: Vec<Vec<Option<Score>>> = Vec::new();
        let mut s: usize = 0;
        while s < song_count
            invariant
                s <= song_count,
                scores@.len() == s,
                forall|k: int| 0 <= k < s ==> #[trigger] scores@[k]@ == empty_board(),
            decreases song_count - s,
        {
            let mut board: Vec<Option<Score>> = Vec::new();
            let mut j: usize = 0;
            while j < SCORES_PER_SONG
                invariant
                    j <= SCORES_PER_SONG,
                    board@.len() == j,
                    forall|k: int| 0 <= k < j ==> board@[k] is None,
                decreases SCORES_PER_SONG - j,
            {
                board.push(None);
                j += 1;
            }
            proof {
                assert(board@ =~= empty_board());
            }
            scores.push(board);
            s += 1;
        }
        let r = Self { scores };
        proof {
            assert forall|k: int| 0 <= k < song_count implies board_ok(#[trigger] r.board(k)) by {
                assert(r.board(k) == empty_board());
            }
        }
        r
    }

    /// Number of songs the store keeps leaderboards for.
    pub fn song_count(&self) -> (r: usize)
        ensures
            r == self.scores@.len(),
    {
        self.scores.len()
    }

    /// Offer a score to one song's leaderboard; anything worse than the last
    /// kept entry is silently dropped. Every other leaderboard is untouched.
    pub fn insert_score(&mut self, song_id: SongID, score: Score)
        requires
            old(self).wf(),
            song_id.0 < old(self).scores@.len(),
        ensures
            final(self).scores@.len() == old(self).scores@.len(),
            final(self).board(song_id.0 as int) == board_insert(
                old(self).board(song_id.0 as int),
                score,
            ),
            forall|s: int|
                0 <= s < old(self).scores@.len() && s != song_id.0 ==> #[trigger] final(self).board(
                    s,
                ) == old(self).board(s),
            final(self).wf(),
    {
        let song_index: usize = song_id.0;
        proof {
            assert(board_ok(self.board(song_index as int)));
        }
        let board = &mut self.scores[song_index];
        board_insert_exec(board, score);
        proof {
            lemma_board_insert_ok(old(self).board(song_index as int), score);
            assert forall|s: int| 0 <= s < self.scores@.len() implies board_ok(
                #[trigger] self.board(s),
            ) by {
                if s != song_index {
                    assert(board_ok(old(self).board(s)));
                    assert(self.board(s) == old(self).board(s));
                }
            }
        }
    }

    /// A copy of one song's leaderboard.
    pub fn get_scores(&self, song_id: SongID) -> (r: Vec<Option<Score>>)
        requires
            song_id.0 < self.scores@.len(),
        ensures
            r@ == self.board(song_id.0 as int),
    {
        let board = &self.scores[song_id.0];
        let mut r: Vec<Option<Score>> = Vec::new();
        let mut i: usize = 0;
        while i < board.len()
            invariant
                i <= board@.len(),
                r@.len() == i,
                board == self.scores@[song_id.0 as int],
                forall|k: int| 0 <= k < i ==> r@[k] == board@[k],
            decreases board@.len() - i,
        {
            r.push(board[i]);
            i += 1;
        }
        proof {
            assert(r@ =~= self.board(song_id.0 as int));
        }
        r
    }

    /// Overwrite every leaderboard with the empty one.
    pub fn reset(&mut self)
        ensures
            final(self).scores@.len() == old(self).scores@.len(),
            forall|s: int|
                0 <= s < old(self).scores@.len() ==> #[trigger] final(self).board(s)
                    == empty_board(),
            final(self).wf(),
    {
        let count = self.scores.len();
        *self = Self::new(count);
    }
}

} // verus!
