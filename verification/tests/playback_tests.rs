use rhythm_core::playback::{Note, Song, SongResult, TickInput};
use rhythm_core::score::Grade;
use rhythm_core::song_data::{Command, Fragment, Track};
use rhythm_core::songs::SongID;

const NO_INPUT: TickInput = TickInput { low: false, high: false };

fn play_until_finished(
    song: &mut Song,
    mut input_for: impl FnMut(usize) -> TickInput,
    cap: usize,
) -> usize {
    for frame in 1..=cap {
        match song.update(input_for(frame), frame) {
            SongResult::Finished => return frame,
            _ => {},
        }
    }
    panic!("song did not finish within {} frames", cap);
}

#[test]
fn scenario_no_input_scores_zero() {
    // Two notes, nothing ever pressed: both pass unhit, everything stays 0
    // and the grade is the lowest.
    let fragments = vec![
        Fragment::new(Command::Note(Track::Low), 2),
        Fragment::new(Command::Note(Track::High), 30),
    ];
    let mut song = Song::new(SongID::new(0), fragments);
    play_until_finished(&mut song, |_| NO_INPUT, 1000);
    let score = song.final_score();
    assert_eq!(song.score(), 0);
    assert_eq!(score.score(), 0);
    assert_eq!(score.max_combo(), 0);
    assert_eq!(score.accuracy(), 0);
    assert_eq!(score.grade(), Grade::D);
}

#[test]
fn scenario_all_hit_at_window_entry() {
    // Ten low notes, each pressed the first tick it is inside the window:
    // the combo climbs 1..10 and the tenth hit is worth 110.
    let mut fragments = Vec::new();
    for i in 0..10usize {
        fragments.push(Fragment::new(Command::Note(Track::Low), 1 + 20 * i));
    }
    let mut song = Song::new(SongID::new(0), fragments);
    // A note spawned at frame f sits at 239 - (t - f) after tick t, so it
    // enters the open window (40, 52) at t = f + 188, at position 51.
    let hit_frames: Vec<usize> = (0..10).map(|i| 1 + 20 * i + 188).collect();
    play_until_finished(
        &mut song,
        |frame| TickInput { low: hit_frames.contains(&frame), high: false },
        2000,
    );
    let score = song.final_score();
    assert_eq!(score.score(), 9 * 100 + 110);
    assert_eq!(score.max_combo(), 10);
    assert_eq!(score.accuracy(), 100);
    assert_eq!(score.grade(), Grade::SSS);
}

#[test]
fn note_hit_only_once() {
    // Pressing again while the hit note is still inside the window must not
    // score a second time.
    let fragments = vec![Fragment::new(Command::Note(Track::Low), 1)];
    let mut song = Song::new(SongID::new(0), fragments);
    let entry = 1 + 188;
    play_until_finished(
        &mut song,
        |frame| TickInput { low: frame == entry || frame == entry + 2, high: false },
        1000,
    );
    let score = song.final_score();
    assert_eq!(score.score(), 100);
    assert_eq!(score.accuracy(), 100);
    assert_eq!(score.max_combo(), 1);
}

#[test]
fn missed_note_resets_combo_only_once() {
    // A missed note still on screen must not reset the combo again after a
    // later hit.
    let fragments = vec![
        Fragment::new(Command::Note(Track::Low), 1),
        Fragment::new(Command::Note(Track::Low), 60),
    ];
    let mut song = Song::new(SongID::new(0), fragments);
    let entry_second = 60 + 188;
    for frame in 1..=250 {
        song.update(
            TickInput { low: frame == entry_second, high: false },
            frame,
        );
    }
    // The first note was missed long ago and is still on screen at the
    // second note's hit; the combo from that hit must survive.
    assert_eq!(song.combo(), 1);
    assert_eq!(song.score(), 100);
}

#[test]
fn set_speed_changes_scroll() {
    // At speed 10 a note crosses the window far sooner.
    let fragments = vec![
        Fragment::new(Command::SetSpeed(10), 1),
        Fragment::new(Command::Note(Track::Low), 2),
    ];
    let mut song = Song::new(SongID::new(0), fragments);
    // After tick t >= 2 the note sits at 230 - 10 * (t - 2); at t = 20 it
    // is at 50, inside the window.
    play_until_finished(
        &mut song,
        |frame| TickInput { low: frame == 20, high: false },
        1000,
    );
    let score = song.final_score();
    assert_eq!(score.max_combo(), 1);
    // Two fragments, one hit: truncating accuracy.
    assert_eq!(score.accuracy(), 50);
}

#[test]
fn note_both_spawns_two_notes() {
    let fragments = vec![Fragment::new(Command::NoteBoth, 1)];
    let mut song = Song::new(SongID::new(0), fragments);
    let entry = 1 + 188;
    play_until_finished(
        &mut song,
        |frame| TickInput { low: frame == entry, high: frame == entry },
        1000,
    );
    let score = song.final_score();
    // Both notes hit, one fragment: the raw formula counts fragments, so
    // accuracy comes out above one hundred here.
    assert_eq!(score.score(), 100 + 100);
    assert_eq!(score.max_combo(), 2);
    assert_eq!(score.accuracy(), 200);
}

#[test]
fn empty_timeline_finishes_at_once() {
    let mut song = Song::new(SongID::new(0), Vec::new());
    assert!(matches!(song.update(NO_INPUT, 1), SongResult::Finished));
    let score = song.final_score();
    assert_eq!(score.accuracy(), 100);
    assert_eq!(score.score(), 0);
}

#[test]
fn note_scrolls_left() {
    let mut note = Note::new(Track::Low);
    assert_eq!(note.location(), 240);
    assert!(!note.hit());
    note.update(3);
    assert_eq!(note.location(), 237);
    assert!(matches!(note.track(), Track::Low));
}

#[test]
fn track_lane_rows() {
    assert_eq!(Track::Low.y_pos(), 104);
    assert_eq!(Track::High.y_pos(), 80);
}
