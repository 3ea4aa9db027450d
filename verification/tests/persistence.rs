use rhythm_core::save_data::SaveData;
use rhythm_core::score::Score;
use rhythm_core::songs::SongID;

fn board_scores(save: &SaveData, song: usize) -> Vec<Option<usize>> {
    save.get_scores(SongID::new(song)).iter().map(|slot| slot.map(|s| s.score())).collect()
}

fn sample_store() -> SaveData {
    let mut save = SaveData::new(2);
    for v in [500usize, 400, 300, 200, 100] {
        save.insert_score(SongID::new(0), Score::new(v, v / 10, 90));
    }
    save.insert_score(SongID::new(1), Score::new(1010, 10, 100));
    save
}

#[test]
fn round_trip_reproduces_store() {
    let save = sample_store();
    let image = save.persist();
    let loaded = SaveData::load(2, &image);
    assert_eq!(loaded.song_count(), 2);
    for song in 0..2 {
        let a = save.get_scores(SongID::new(song));
        let b = loaded.get_scores(SongID::new(song));
        assert_eq!(a, b);
    }
}

#[test]
fn round_trip_of_empty_store() {
    let save = SaveData::new(3);
    let image = save.persist();
    let loaded = SaveData::load(3, &image);
    for song in 0..3 {
        assert_eq!(board_scores(&loaded, song), vec![None, None, None, None, None]);
    }
}

#[test]
fn corrupt_checksum_byte_loads_empty() {
    let save = sample_store();
    for k in 0..8 {
        let mut image = save.persist();
        image[k] ^= 0x5a;
        let loaded = SaveData::load(2, &image);
        assert_eq!(board_scores(&loaded, 0), vec![None, None, None, None, None]);
        assert_eq!(board_scores(&loaded, 1), vec![None, None, None, None, None]);
    }
}

#[test]
fn invalid_slot_tag_loads_empty() {
    // Byte 9, after checksum and version, is the first slot's tag; an
    // unknown tag can never decode, whatever the checksum says.
    let save = sample_store();
    let mut image = save.persist();
    image[9] = 7;
    let loaded = SaveData::load(2, &image);
    assert_eq!(board_scores(&loaded, 0), vec![None, None, None, None, None]);
    assert_eq!(board_scores(&loaded, 1), vec![None, None, None, None, None]);
}

#[test]
fn wrong_length_loads_empty() {
    let save = sample_store();
    let mut image = save.persist();
    image.pop();
    let loaded = SaveData::load(2, &image);
    assert_eq!(board_scores(&loaded, 0), vec![None, None, None, None, None]);
    let empty: Vec<u8> = Vec::new();
    let loaded = SaveData::load(2, &empty);
    assert_eq!(board_scores(&loaded, 1), vec![None, None, None, None, None]);
}

#[test]
fn checksum_depends_on_payload() {
    // Two different stores must carry different checksums, or corruption
    // of the payload could never be told apart from good data.
    let empty = SaveData::new(1).persist();
    let mut other = SaveData::new(1);
    other.insert_score(SongID::new(0), Score::new(123, 4, 56));
    let filled = other.persist();
    assert_eq!(empty.len(), filled.len());
    assert_ne!(empty[0..8], filled[0..8]);
}

#[test]
fn image_layout_is_fixed() {
    // 8 checksum bytes, 1 version byte, then 18 bytes per slot, five slots
    // per song.
    let save = SaveData::new(2);
    let image = save.persist();
    assert_eq!(image.len(), 8 + 1 + 2 * 5 * 18);
    assert_eq!(image[8], 1);
}

#[test]
fn unknown_version_loads_empty() {
    let save = sample_store();
    let mut image = save.persist();
    image[8] = 99;
    let loaded = SaveData::load(2, &image);
    assert_eq!(board_scores(&loaded, 0), vec![None, None, None, None, None]);
}
