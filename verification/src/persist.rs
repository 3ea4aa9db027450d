//! Checksum-guarded persistence of the save store, with an explicit,
//! versioned fixed byte layout: an 8-byte checksum (little endian) over the
//! payload; the payload is one format-version byte, then one 18-byte record
//! per leaderboard slot, five per song, in table order. A slot record is a
//! tag byte (0 empty, 1 filled), the score and the best combo as 8-byte
//! little-endian values, and the accuracy byte. A version the loader does
//! not know degrades to empty leaderboards like any other corruption;
//! migration between versions is deliberately not attempted.

use vstd::bytes::{
    lemma_auto_spec_u64_to_from_le_bytes, spec_u64_from_le_bytes, spec_u64_to_le_bytes,
    u64_from_le_bytes, u64_to_le_bytes,
};
use vstd::prelude::*;
use vstd::slice::slice_subrange;

use crate::save_data::{board_ok, empty_board, SaveData, SCORES_PER_SONG};
use crate::score::Score;

verus! {

/// Bytes of one slot record.
pub const SLOT_BYTES: usize = 18;

/// Bytes of one song's leaderboard: SCORES_PER_SONG slot records.
pub const BOARD_BYTES: usize = 90;

/// Bytes of the checksum that precedes the payload.
pub const CHECKSUM_BYTES: usize = 8;

/// The format version written into the payload's first byte.
pub const SAVE_VERSION: u8 = 1;

/// Largest song count the store will load; keeps every offset computation
/// inside machine integers.
pub const MAX_SONGS: usize = 4096;

/// What `rustc_hash::FxHasher` returns for a byte string: a fixed function
/// of the bytes alone, named here and never spelled out.
pub uninterp spec fn fx_hash_of(bytes: Seq<u8>) -> u64;

/// Relies on `rustc_hash::FxHasher` (`Hasher::write`, then `finish`): a
/// deterministic polynomial hash of the byte string, with no per-process
/// seed, so the result is a function of the bytes alone.
#[verifier::external_body]
fn fx_hash64(bytes: &[u8]) -> (r: u64)
    ensures
        r == fx_hash_of(bytes@),
{
    let mut hasher = rustc_hash::FxHasher::default();
    core::hash::Hasher::write(&mut hasher, bytes);
    core::hash::Hasher::finish(&hasher)
}

/// The 18-byte record of one leaderboard slot.
pub open spec fn spec_encode_slot(slot: Option<Score>) -> Seq<u8> {
    match slot {
        None => seq![0u8] + spec_u64_to_le_bytes(0) + spec_u64_to_le_bytes(0) + seq![0u8],
        Some(s) => seq![1u8] + spec_u64_to_le_bytes(s.score as u64) + spec_u64_to_le_bytes(
            s.max_combo as u64,
        ) + seq![s.accuracy],
    }
}

/// The 90-byte record of one leaderboard, slot records in order.
pub open spec fn spec_encode_board(b: Seq<Option<Score>>) -> Seq<u8>
    decreases b.len(),
{
    if b.len() == 0 {
        Seq::empty()
    } else {
        spec_encode_board(b.drop_last()) + spec_encode_slot(b.last())
    }
}

/// The board records of the payload, in table order.
pub open spec fn spec_encode_boards(bs: Seq<Seq<Option<Score>>>) -> Seq<u8>
    decreases bs.len(),
{
    if bs.len() == 0 {
        Seq::empty()
    } else {
        spec_encode_boards(bs.drop_last()) + spec_encode_board(bs.last())
    }
}

/// The leaderboards of a store, as mathematical sequences.
pub open spec fn boards_view(store: &SaveData) -> Seq<Seq<Option<Score>>> {
    Seq::new(store.scores@.len(), |s: int| store.board(s))
}

/// The whole byte image a store persists as: the checksum, then the
/// payload of version byte and board records.
pub open spec fn spec_persist(store: &SaveData) -> Seq<u8> {
    let payload = seq![SAVE_VERSION] + spec_encode_boards(boards_view(store));
    spec_u64_to_le_bytes(fx_hash_of(payload)) + payload
}

proof fn lemma_encode_slot_len(slot: Option<Score>)
    ensures
        spec_encode_slot(slot).len() == SLOT_BYTES,
{
    lemma_auto_spec_u64_to_from_le_bytes();
    match slot {
        None => {
            assert(spec_u64_to_le_bytes(0).len() == 8);
        },
        Some(s) => {
            assert(spec_u64_to_le_bytes(s.score as u64).len() == 8);
            assert(spec_u64_to_le_bytes(s.max_combo as u64).len() == 8);
        },
    }
}

proof fn lemma_encode_board_len(b: Seq<Option<Score>>)
    ensures
        spec_encode_board(b).len() == SLOT_BYTES * b.len(),
    decreases b.len(),
{
    if b.len() > 0 {
        lemma_encode_board_len(b.drop_last());
        lemma_encode_slot_len(b.last());
    }
}

proof fn lemma_encode_boards_len(bs: Seq<Seq<Option<Score>>>)
    requires
        forall|i: int| 0 <= i < bs.len() ==> (#[trigger] bs[i]).len() == SCORES_PER_SONG,
    ensures
        spec_encode_boards(bs).len() == BOARD_BYTES * bs.len(),
    decreases bs.len(),
{
    if bs.len() > 0 {
        lemma_encode_boards_len(bs.drop_last());
        lemma_encode_board_len(bs.last());
    }
}

/// The 18 bytes of slot `i` inside a board record.
pub open spec fn slot_bytes(bs: Seq<u8>, i: int) -> Seq<u8> {
    bs.subrange(SLOT_BYTES * i, SLOT_BYTES * i + SLOT_BYTES)
}

/// The 90 bytes of song `s` inside the payload.
pub open spec fn board_bytes(bs: Seq<u8>, s: int) -> Seq<u8> {
    bs.subrange(BOARD_BYTES * s, BOARD_BYTES * s + BOARD_BYTES)
}

/// What one slot record decodes to, or nothing when its tag byte is not a
/// known tag or a stored value does not fit the machine's word.
pub open spec fn spec_decode_slot(bs: Seq<u8>) -> Option<Option<Score>> {
    if bs[0] == 0u8 {
        Some(None)
    } else if bs[0] == 1u8 {
        let score = spec_u64_from_le_bytes(bs.subrange(1, 9));
        let combo = spec_u64_from_le_bytes(bs.subrange(9, 17));
        if score <= usize::MAX as u64 && combo <= usize::MAX as u64 {
            Some(
                Some(
                    Score {
                        score: score as usize,
                        max_combo: combo as usize,
                        accuracy: bs[17],
                    },
                ),
            )
        } else {
            None
        }
    } else {
        None
    }
}

/// What one board record decodes to, or nothing when a slot is invalid or
/// the slots do not form a well-formed leaderboard.
pub open spec fn spec_decode_board(bs: Seq<u8>) -> Option<Seq<Option<Score>>> {
    if forall|i: int|
        0 <= i < SCORES_PER_SONG ==> spec_decode_slot(#[trigger] slot_bytes(bs, i)) is Some {
        let b = Seq::new(
            SCORES_PER_SONG as nat,
            |i: int| spec_decode_slot(slot_bytes(bs, i))->0,
        );
        if board_ok(b) {
            Some(b)
        } else {
            None
        }
    } else {
        None
    }
}

/// The leaderboards a byte image loads as: the decoded ones when the length
/// fits the song count, the checksum matches the payload and every board
/// decodes; all-empty ones otherwise. Corruption is recovered from locally
/// and never surfaced.
pub open spec fn spec_load(song_count: nat, bytes: Seq<u8>) -> Seq<Seq<Option<Score>>> {
    let payload = bytes.skip(CHECKSUM_BYTES as int);
    let records = payload.skip(1);
    if bytes.len() == CHECKSUM_BYTES + 1 + BOARD_BYTES * song_count && spec_u64_from_le_bytes(
        bytes.take(CHECKSUM_BYTES as int),
    ) == fx_hash_of(payload) && payload[0] == SAVE_VERSION && (forall|s: int|
        0 <= s < song_count ==> spec_decode_board(#[trigger] board_bytes(records, s)) is Some) {
        Seq::new(song_count, |s: int| spec_decode_board(board_bytes(records, s))->0)
    } else {
        Seq::new(song_count, |s: int| empty_board())
    }
}

proof fn lemma_chain(b: Seq<Option<Score>>, p: int, q: int)
    requires
        forall|i: int|
            1 <= i < b.len() && #[trigger] b[i] is Some ==> b[i - 1] is Some && b[i
                - 1]->0.score >= b[i]->0.score,
        0 <= p < q < b.len(),
        b[q] is Some,
    ensures
        b[p] is Some && b[p]->0.score >= b[q]->0.score,
    decreases q - p,
{
    if p < q - 1 {
        assert(b[q - 1] is Some);
        lemma_chain(b, p, q - 1);
    }
}

/// Adjacent order and compactness give the full pairwise board invariant.
proof fn lemma_adjacent_board_ok(b: Seq<Option<Score>>)
    requires
        b.len() == SCORES_PER_SONG,
        forall|i: int|
            1 <= i < b.len() && #[trigger] b[i] is Some ==> b[i - 1] is Some && b[i
                - 1]->0.score >= b[i]->0.score,
    ensures
        board_ok(b),
{
    assert forall|p: int, q: int|
        0 <= p < q < b.len() && #[trigger] b[q] is Some implies #[trigger] b[p] is Some
        && b[p]->0.score >= b[q]->0.score by {
        lemma_chain(b, p, q);
    }
}

proof fn lemma_board_bytes_of_encode(bs: Seq<Seq<Option<Score>>>, s: int)
    requires
        forall|i: int| 0 <= i < bs.len() ==> (#[trigger] bs[i]).len() == SCORES_PER_SONG,
        0 <= s < bs.len(),
    ensures
        board_bytes(spec_encode_boards(bs), s) == spec_encode_board(bs[s]),
    decreases bs.len(),
{
    lemma_encode_boards_len(bs);
    lemma_encode_boards_len(bs.drop_last());
    lemma_encode_board_len(bs.last());
    if s == bs.len() - 1 {
        assert(board_bytes(spec_encode_boards(bs), s) =~= spec_encode_board(bs.last()));
    } else {
        lemma_board_bytes_of_encode(bs.drop_last(), s);
        assert((BOARD_BYTES * s + BOARD_BYTES) <= BOARD_BYTES * (bs.len() - 1))
            by (nonlinear_arith)
            requires
                0 <= s < bs.len() - 1,
        ;
        assert(board_bytes(spec_encode_boards(bs), s) =~= board_bytes(
            spec_encode_boards(bs.drop_last()),
            s,
        ));
    }
}

proof fn lemma_slot_bytes_of_encode(b: Seq<Option<Score>>, i: int)
    requires
        0 <= i < b.len(),
    ensures
        slot_bytes(spec_encode_board(b), i) == spec_encode_slot(b[i]),
    decreases b.len(),
{
    lemma_encode_board_len(b);
    lemma_encode_board_len(b.drop_last());
    lemma_encode_slot_len(b.last());
    if i == b.len() - 1 {
        assert(slot_bytes(spec_encode_board(b), i) =~= spec_encode_slot(b.last()));
    } else {
        lemma_slot_bytes_of_encode(b.drop_last(), i);
        assert((SLOT_BYTES * i + SLOT_BYTES) <= SLOT_BYTES * (b.len() - 1)) by (nonlinear_arith)
            requires
                0 <= i < b.len() - 1,
        ;
        assert(slot_bytes(spec_encode_board(b), i) =~= slot_bytes(
            spec_encode_board(b.drop_last()),
            i,
        ));
    }
}

proof fn lemma_decode_encode_slot(slot: Option<Score>)
    ensures
        spec_decode_slot(spec_encode_slot(slot)) == Some(slot),
{
    lemma_auto_spec_u64_to_from_le_bytes();
    let bs = spec_encode_slot(slot);
    match slot {
        None => {
            assert(bs[0] == 0u8);
        },
        Some(s) => {
            assert(bs[0] == 1u8);
            assert(bs.subrange(1, 9) =~= spec_u64_to_le_bytes(s.score as u64));
            assert(bs.subrange(9, 17) =~= spec_u64_to_le_bytes(s.max_combo as u64));
            assert(bs[17] == s.accuracy);
        },
    }
}

proof fn lemma_decode_encode_board(b: Seq<Option<Score>>)
    requires
        board_ok(b),
    ensures
        spec_decode_board(spec_encode_board(b)) == Some(b),
{
    let bs = spec_encode_board(b);
    assert forall|i: int| 0 <= i < SCORES_PER_SONG implies spec_decode_slot(
        #[trigger] slot_bytes(bs, i),
    ) is Some by {
        lemma_slot_bytes_of_encode(b, i);
        lemma_decode_encode_slot(b[i]);
    }
    let d = Seq::new(SCORES_PER_SONG as nat, |i: int| spec_decode_slot(slot_bytes(bs, i))->0);
    assert forall|i: int| 0 <= i < SCORES_PER_SONG implies d[i] == b[i] by {
        lemma_slot_bytes_of_encode(b, i);
        lemma_decode_encode_slot(b[i]);
    }
    assert(d =~= b);
}

/// Law: loading the persisted image of a well-formed store gives back the
/// store's leaderboards exactly, bit for bit.
pub proof fn lemma_save_round_trip(store: &SaveData)
    requires
        store.wf(),
    ensures
        spec_load(store.scores@.len(), spec_persist(store)) == boards_view(store),
{
    lemma_auto_spec_u64_to_from_le_bytes();
    let n = store.scores@.len() as int;
    let bv = boards_view(store);
    let records = spec_encode_boards(bv);
    let payload = seq![SAVE_VERSION] + records;
    let image = spec_persist(store);
    assert forall|i: int| 0 <= i < bv.len() implies (#[trigger] bv[i]).len() == SCORES_PER_SONG by {
        assert(board_ok(store.board(i)));
    }
    lemma_encode_boards_len(bv);
    assert(image.skip(CHECKSUM_BYTES as int) =~= payload);
    assert(image.take(CHECKSUM_BYTES as int) =~= spec_u64_to_le_bytes(fx_hash_of(payload)));
    assert(payload.skip(1) =~= records);
    assert(payload[0] == SAVE_VERSION);
    assert forall|s: int| 0 <= s < n implies spec_decode_board(
        #[trigger] board_bytes(records, s),
    ) == Some(bv[s]) by {
        lemma_board_bytes_of_encode(bv, s);
        assert(board_ok(store.board(s)));
        lemma_decode_encode_board(bv[s]);
    }
    assert(spec_load(store.scores@.len(), image) =~= bv);
}

/// Law: an image whose checksum field is corrupted in any one byte loads as
/// all-empty leaderboards.
pub proof fn lemma_load_corrupt_checksum(store: &SaveData, bytes: Seq<u8>, k: int)
    requires
        store.wf(),
        0 <= k < CHECKSUM_BYTES,
        bytes.len() == spec_persist(store).len(),
        bytes[k] != spec_persist(store)[k],
        forall|j: int| 0 <= j < bytes.len() && j != k ==> bytes[j] == spec_persist(store)[j],
    ensures
        spec_load(store.scores@.len(), bytes) == Seq::new(
            store.scores@.len(),
            |s: int| empty_board(),
        ),
{
    lemma_auto_spec_u64_to_from_le_bytes();
    let bv = boards_view(store);
    let payload = seq![SAVE_VERSION] + spec_encode_boards(bv);
    let image = spec_persist(store);
    assert forall|i: int| 0 <= i < bv.len() implies (#[trigger] bv[i]).len() == SCORES_PER_SONG by {
        assert(board_ok(store.board(i)));
    }
    lemma_encode_boards_len(bv);
    assert(image.take(CHECKSUM_BYTES as int) =~= spec_u64_to_le_bytes(fx_hash_of(payload)));
    assert(bytes.skip(CHECKSUM_BYTES as int) =~= payload);
    let stored = spec_u64_from_le_bytes(bytes.take(CHECKSUM_BYTES as int));
    if stored == fx_hash_of(payload) {
        assert(spec_u64_to_le_bytes(stored) == image.take(CHECKSUM_BYTES as int));
        assert(bytes.take(CHECKSUM_BYTES as int).len() == 8);
        assert(spec_u64_to_le_bytes(spec_u64_from_le_bytes(bytes.take(CHECKSUM_BYTES as int)))
            == bytes.take(CHECKSUM_BYTES as int));
        assert(bytes.take(CHECKSUM_BYTES as int)[k] == bytes[k]);
        assert(image.take(CHECKSUM_BYTES as int)[k] == image[k]);
        assert(false);
    }
}

impl SaveData {
    /// The byte image of this store, ready to be written out: the checksum
    /// of the payload, then the payload itself.
    pub fn persist(&self) -> (out: Vec<u8>)
        requires
            self.wf(),
            self.scores@.len() <= MAX_SONGS,
        ensures
            out@ == spec_persist(self),
    {
        let mut records: Vec<u8> = Vec::new();
        let mut s: usize = 0;
        let n = self.scores.len();
        while s < n
            invariant
                self.wf(),
                n == self.scores@.len(),
                n <= MAX_SONGS,
                s <= n,
                records@ == spec_encode_boards(boards_view(self).take(s as int)),
            decreases n - s,
        {
            proof {
                assert(board_ok(self.board(s as int)));
            }
            let board = &self.scores[s];
            let mut i: usize = 0;
            while i < SCORES_PER_SONG
                invariant
                    i <= SCORES_PER_SONG,
                    board@ == self.board(s as int),
                    board@.len() == SCORES_PER_SONG,
                    records@ == spec_encode_boards(boards_view(self).take(s as int))
                        + spec_encode_board(board@.take(i as int)),
                decreases SCORES_PER_SONG - i,
            {
                let ghost records_before = records@;
                match board[i] {
                    None => {
                        records.push(0u8);
                        let mut zeros_a = u64_to_le_bytes(0);
                        records.append(&mut zeros_a);
                        let mut zeros_b = u64_to_le_bytes(0);
                        records.append(&mut zeros_b);
                        records.push(0u8);
                    },
                    Some(entry) => {
                        records.push(1u8);
                        let mut score_bytes = u64_to_le_bytes(entry.score as u64);
                        records.append(&mut score_bytes);
                        let mut combo_bytes = u64_to_le_bytes(entry.max_combo as u64);
                        records.append(&mut combo_bytes);
                        records.push(entry.accuracy);
                    },
                }
                proof {
                    assert(records@ =~= records_before + spec_encode_slot(board@[i as int]));
                    assert(board@.take(i + 1).drop_last() =~= board@.take(i as int));
                    assert(records@ == spec_encode_boards(boards_view(self).take(s as int))
                        + spec_encode_board(board@.take(i + 1)));
                }
                i += 1;
            }
            proof {
                assert(board@.take(SCORES_PER_SONG as int) =~= board@);
                assert(boards_view(self).take(s + 1).drop_last() =~= boards_view(self).take(
                    s as int,
                ));
                assert(boards_view(self).take(s + 1).last() == board@);
                assert(records@ == spec_encode_boards(boards_view(self).take(s + 1)));
            }
            s += 1;
        }
        proof {
            assert(boards_view(self).take(n as int) =~= boards_view(self));
        }
        let mut payload: Vec<u8> = Vec::new();
        payload.push(SAVE_VERSION);
        payload.append(&mut records);
        proof {
            assert(payload@ =~= seq![SAVE_VERSION] + spec_encode_boards(boards_view(self)));
        }
        let hash = fx_hash64(payload.as_slice());
        let mut out = u64_to_le_bytes(hash);
        out.append(&mut payload);
        out
    }

    /// Rebuild a store from a byte image. A wrong length, a checksum that
    /// does not match the payload, or any undecodable content degrades to
    /// all-empty leaderboards: corruption is never surfaced as an error.
    pub fn load(song_count: usize, bytes: &[u8]) -> (r: SaveData)
        requires
            song_count <= MAX_SONGS,
        ensures
            r.scores@.len() == song_count,
            boards_view(&r) == spec_load(song_count as nat, bytes@),
            r.wf(),
    {
        let expected: usize = CHECKSUM_BYTES + 1 + BOARD_BYTES * song_count;
        if bytes.len() != expected {
            let r = SaveData::new(song_count);
            proof {
                assert(boards_view(&r) =~= spec_load(song_count as nat, bytes@));
            }
            return r;
        }
        let payload = slice_subrange(bytes, CHECKSUM_BYTES, expected);
        let stored = u64_from_le_bytes(slice_subrange(bytes, 0, CHECKSUM_BYTES));
        let computed = fx_hash64(payload);
        proof {
            assert(payload@ =~= bytes@.skip(CHECKSUM_BYTES as int));
            assert(bytes@.subrange(0, CHECKSUM_BYTES as int) =~= bytes@.take(
                CHECKSUM_BYTES as int,
            ));
        }
        if stored != computed {
            let r = SaveData::new(song_count);
            proof {
                assert(boards_view(&r) =~= spec_load(song_count as nat, bytes@));
            }
            return r;
        }
        if payload[0] != SAVE_VERSION {
            let r = SaveData::new(song_count);
            proof {
                assert(boards_view(&r) =~= spec_load(song_count as nat, bytes@));
            }
            return r;
        }
        let ghost pv = payload@;
        let ghost rv = payload@.skip(1);
        let mut scores: Vec<Vec<Option<Score>>> = Vec::new();
        let mut s: usize = 0;
        while s < song_count
            invariant
                song_count <= MAX_SONGS,
                s <= song_count,
                pv == payload@,
                rv == pv.skip(1),
                pv == bytes@.skip(CHECKSUM_BYTES as int),
                bytes@.len() == CHECKSUM_BYTES + 1 + BOARD_BYTES * song_count,
                spec_u64_from_le_bytes(bytes@.take(CHECKSUM_BYTES as int)) == fx_hash_of(pv),
                pv[0] == SAVE_VERSION,
                payload@.len() == 1 + BOARD_BYTES * song_count,
                scores@.len() == s,
                forall|k: int|
                    0 <= k < s ==> spec_decode_board(#[trigger] board_bytes(rv, k)) is Some
                        && scores@[k]@ == spec_decode_board(board_bytes(rv, k))->0,
            decreases song_count - s,
        {
            let mut board: Vec<Option<Score>> = Vec::new();
            let mut i: usize = 0;
            let ghost bb = board_bytes(rv, s as int);
            while i < SCORES_PER_SONG
                invariant
                    song_count <= MAX_SONGS,
                    s < song_count,
                    i <= SCORES_PER_SONG,
                    pv == payload@,
                    rv == pv.skip(1),
                    pv == bytes@.skip(CHECKSUM_BYTES as int),
                    bytes@.len() == CHECKSUM_BYTES + 1 + BOARD_BYTES * song_count,
                    spec_u64_from_le_bytes(bytes@.take(CHECKSUM_BYTES as int)) == fx_hash_of(pv),
                    pv[0] == SAVE_VERSION,
                    payload@.len() == 1 + BOARD_BYTES * song_count,
                    bb == board_bytes(rv, s as int),
                    board@.len() == i,
                    forall|k: int|
                        0 <= k < i ==> spec_decode_slot(#[trigger] slot_bytes(bb, k)) is Some
                            && board@[k] == spec_decode_slot(slot_bytes(bb, k))->0,
                    forall|k: int|
                        1 <= k < i && #[trigger] board@[k] is Some ==> board@[k - 1] is Some
                            && board@[k - 1]->0.score >= board@[k]->0.score,
                decreases SCORES_PER_SONG - i,
            {
                let base: usize = 1 + BOARD_BYTES * s + SLOT_BYTES * i;
                proof {
                    assert(BOARD_BYTES * (s as int) + BOARD_BYTES <= BOARD_BYTES * (
                    song_count as int)) by (nonlinear_arith)
                        requires
                            s < song_count,
                    ;
                    assert(slot_bytes(bb, i as int) =~= pv.subrange(
                        base as int,
                        base + SLOT_BYTES,
                    ));
                }
                let ghost sb = slot_bytes(bb, i as int);
                let tag = payload[base];
                let score_u64 = u64_from_le_bytes(slice_subrange(payload, base + 1, base + 9));
                let combo_u64 = u64_from_le_bytes(slice_subrange(payload, base + 9, base + 17));
                let acc = payload[base + 17];
                proof {
                    assert(sb[0] == pv[base as int]);
                    assert(sb.subrange(1, 9) =~= pv.subrange(base + 1, base + 9));
                    assert(sb.subrange(9, 17) =~= pv.subrange(base + 9, base + 17));
                    assert(sb[17] == pv[base + 17]);
                }
                let slot: Option<Score>;
                if tag == 0 {
                    slot = None;
                } else if tag == 1 {
                    if score_u64 > usize::MAX as u64 || combo_u64 > usize::MAX as u64 {
                        let r = SaveData::new(song_count);
                        proof {
                            assert(spec_decode_slot(slot_bytes(bb, i as int)) is None);
                            assert(spec_decode_board(board_bytes(rv, s as int)) is None);
                            assert(boards_view(&r) =~= spec_load(song_count as nat, bytes@));
                        }
                        return r;
                    }
                    slot = Some(
                        Score {
                            score: score_u64 as usize,
                            max_combo: combo_u64 as usize,
                            accuracy: acc,
                        },
                    );
                } else {
                    let r = SaveData::new(song_count);
                    proof {
                        assert(spec_decode_slot(slot_bytes(bb, i as int)) is None);
                        assert(spec_decode_board(board_bytes(rv, s as int)) is None);
                        assert(boards_view(&r) =~= spec_load(song_count as nat, bytes@));
                    }
                    return r;
                }
                if i > 0 {
                    let sorted = match (board[i - 1], slot) {
                        (_, None) => true,
                        (Some(prev), Some(cur)) => prev.score >= cur.score,
                        (None, Some(_)) => false,
                    };
                    if !sorted {
                        let r = SaveData::new(song_count);
                        proof {
                            let b = Seq::new(
                                SCORES_PER_SONG as nat,
                                |k: int| spec_decode_slot(slot_bytes(bb, k))->0,
                            );
                            assert(b[i - 1] == board@[i - 1]);
                            assert(b[i as int] == slot);
                            assert(!board_ok(b));
                            assert(spec_decode_board(board_bytes(rv, s as int)) is None);
                            assert(boards_view(&r) =~= spec_load(song_count as nat, bytes@));
                        }
                        return r;
                    }
                }
                board.push(slot);
                i += 1;
            }
            proof {
                lemma_adjacent_board_ok(board@);
                let b = Seq::new(
                    SCORES_PER_SONG as nat,
                    |k: int| spec_decode_slot(slot_bytes(bb, k))->0,
                );
                assert(b =~= board@);
                assert(spec_decode_board(board_bytes(rv, s as int)) == Some(board@));
            }
            scores.push(board);
            s += 1;
        }
        let r = Self { scores };
        proof {
            assert forall|k: int| 0 <= k < song_count implies board_ok(#[trigger] r.board(k)) by {
                assert(spec_decode_board(board_bytes(rv, k)) is Some);
            }
            assert(boards_view(&r) =~= spec_load(song_count as nat, bytes@));
        }
        r
    }
}

} // verus!
