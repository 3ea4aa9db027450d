use rhythm_core::save_data::SaveData;
use rhythm_core::score::Score;
use rhythm_core::songs::SongID;

fn board_scores(save: &SaveData, song: usize) -> Vec<Option<usize>> {
    save.get_scores(SongID::new(song)).iter().map(|slot| slot.map(|s| s.score())).collect()
}

#[test]
fn empty_board_is_empty() {
    let save = SaveData::new(3);
    assert_eq!(save.song_count(), 3);
    assert_eq!(board_scores(&save, 0), vec![None, None, None, None, None]);
    assert_eq!(board_scores(&save, 2), vec![None, None, None, None, None]);
}

#[test]
fn inserts_keep_top_five_sorted() {
    let mut save = SaveData::new(1);
    for v in [10usize, 50, 30, 40, 20, 60] {
        save.insert_score(SongID::new(0), Score::new(v, 0, 0));
    }
    assert_eq!(
        board_scores(&save, 0),
        vec![Some(60), Some(50), Some(40), Some(30), Some(20)]
    );
}

#[test]
fn partial_board_sorted() {
    let mut save = SaveData::new(1);
    for v in [300usize, 100, 200] {
        save.insert_score(SongID::new(0), Score::new(v, 0, 0));
    }
    assert_eq!(
        board_scores(&save, 0),
        vec![Some(300), Some(200), Some(100), None, None]
    );
}

#[test]
fn scenario_insert_into_full_board() {
    // A board of 500..100; a middling score pushes the tail down, a low
    // score changes nothing.
    let mut save = SaveData::new(1);
    for v in [500usize, 400, 300, 200, 100] {
        save.insert_score(SongID::new(0), Score::new(v, 0, 0));
    }
    assert_eq!(
        board_scores(&save, 0),
        vec![Some(500), Some(400), Some(300), Some(200), Some(100)]
    );
    save.insert_score(SongID::new(0), Score::new(350, 0, 0));
    assert_eq!(
        board_scores(&save, 0),
        vec![Some(500), Some(400), Some(350), Some(300), Some(200)]
    );
    save.insert_score(SongID::new(0), Score::new(50, 0, 0));
    assert_eq!(
        board_scores(&save, 0),
        vec![Some(500), Some(400), Some(350), Some(300), Some(200)]
    );
}

#[test]
fn equal_score_keeps_incumbent_above() {
    let mut save = SaveData::new(1);
    save.insert_score(SongID::new(0), Score::new(100, 1, 10));
    save.insert_score(SongID::new(0), Score::new(100, 2, 20));
    let board = save.get_scores(SongID::new(0));
    assert_eq!(board[0].unwrap().max_combo(), 1);
    assert_eq!(board[1].unwrap().max_combo(), 2);
}

#[test]
fn insert_touches_only_its_song() {
    let mut save = SaveData::new(2);
    save.insert_score(SongID::new(1), Score::new(77, 0, 0));
    assert_eq!(board_scores(&save, 0), vec![None, None, None, None, None]);
    assert_eq!(
        board_scores(&save, 1),
        vec![Some(77), None, None, None, None]
    );
}

#[test]
fn reset_empties_every_board() {
    let mut save = SaveData::new(2);
    save.insert_score(SongID::new(0), Score::new(9, 0, 0));
    save.insert_score(SongID::new(1), Score::new(8, 0, 0));
    save.reset();
    assert_eq!(board_scores(&save, 0), vec![None, None, None, None, None]);
    assert_eq!(board_scores(&save, 1), vec![None, None, None, None, None]);
}
