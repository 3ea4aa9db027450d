use rhythm_core::playback::{SongResult, TickInput};
use rhythm_core::save_data::SaveData;
use rhythm_core::session::{session_tick, transition, Event, PauseItem, SessionState};
use rhythm_core::song_data::{Command, Fragment, SongData, Track};
use rhythm_core::songs::{SongID, SongTable};

const NO_INPUT: TickInput = TickInput { low: false, high: false };

fn demo_table() -> SongTable {
    let mut table = SongTable::new();
    table.push(SongData::new(
        String::from("first"),
        vec![Fragment::new(Command::Note(Track::Low), 1)],
        Vec::new(),
    ));
    table.push(SongData::new(
        String::from("second"),
        vec![Fragment::new(Command::Note(Track::High), 2)],
        Vec::new(),
    ));
    table
}

#[test]
fn main_menu_to_song_menu_and_into_a_song() {
    let table = demo_table();
    let mut save = SaveData::new(2);
    let state = SessionState::MainMenu { option: 0 };
    let state = transition(state, Event::Confirm, &mut save, &table);
    assert!(matches!(state, SessionState::SongMenu { option: 0, offset: 0 }));
    let state = transition(state, Event::Down, &mut save, &table);
    assert!(matches!(state, SessionState::SongMenu { option: 1, offset: 0 }));
    let state = transition(state, Event::Confirm, &mut save, &table);
    match state {
        SessionState::Playing { song_id, playback, pause, frame } => {
            assert_eq!(song_id.0, 1);
            assert_eq!(playback.score(), 0);
            assert_eq!(frame, 0);
            assert!(!pause.paused);
        },
        _ => panic!("expected a playing state"),
    }
}

#[test]
fn main_menu_cursor_stays_in_bounds() {
    let table = demo_table();
    let mut save = SaveData::new(2);
    let state = SessionState::MainMenu { option: 0 };
    let state = transition(state, Event::Up, &mut save, &table);
    assert!(matches!(state, SessionState::MainMenu { option: 0 }));
    let state = transition(state, Event::Down, &mut save, &table);
    assert!(matches!(state, SessionState::MainMenu { option: 1 }));
    let state = transition(state, Event::Down, &mut save, &table);
    assert!(matches!(state, SessionState::MainMenu { option: 1 }));
}

#[test]
fn reset_option_empties_the_save_store() {
    let table = demo_table();
    let mut save = SaveData::new(2);
    save.insert_score(SongID::new(0), rhythm_core::score::Score::new(10, 1, 50));
    let state = SessionState::MainMenu { option: 1 };
    let state = transition(state, Event::Confirm, &mut save, &table);
    assert!(matches!(state, SessionState::MainMenu { option: 1 }));
    assert!(save.get_scores(SongID::new(0)).iter().all(|s| s.is_none()));
}

#[test]
fn pause_cycle_and_resume() {
    let table = demo_table();
    let mut save = SaveData::new(2);
    let state = transition(
        SessionState::SongMenu { option: 0, offset: 0 },
        Event::Confirm,
        &mut save,
        &table,
    );
    let state = transition(state, Event::Start, &mut save, &table);
    match &state {
        SessionState::Playing { pause, .. } => {
            assert!(pause.paused);
            assert_eq!(pause.item, PauseItem::Resume);
        },
        _ => panic!("expected a paused playing state"),
    }
    let state = transition(state, Event::Right, &mut save, &table);
    match &state {
        SessionState::Playing { pause, .. } => assert_eq!(pause.item, PauseItem::Exit),
        _ => panic!("expected a paused playing state"),
    }
    let state = transition(state, Event::Left, &mut save, &table);
    let state = transition(state, Event::Confirm, &mut save, &table);
    match &state {
        SessionState::Playing { pause, .. } => assert!(!pause.paused),
        _ => panic!("expected an unpaused playing state"),
    }
    // A paused song does not advance.
    let state = transition(state, Event::Start, &mut save, &table);
    let (state, result) = session_tick(state, &mut save, NO_INPUT);
    assert!(matches!(result, SongResult::Continue));
    match state {
        SessionState::Playing { playback, pause, frame, .. } => {
            assert!(pause.paused);
            assert_eq!(playback.index, 0);
            assert_eq!(frame, 0);
        },
        _ => panic!("expected a paused playing state"),
    }
}

#[test]
fn pause_exit_and_restart() {
    let table = demo_table();
    let mut save = SaveData::new(2);
    let state = transition(
        SessionState::SongMenu { option: 0, offset: 0 },
        Event::Confirm,
        &mut save,
        &table,
    );
    // Play a few frames, restart, and the playback is fresh again.
    let (state, _) = session_tick(state, &mut save, NO_INPUT);
    let (state, _) = session_tick(state, &mut save, NO_INPUT);
    match &state {
        SessionState::Playing { frame, .. } => assert_eq!(*frame, 2),
        _ => panic!("expected a playing state"),
    }
    let state = transition(state, Event::Start, &mut save, &table);
    let state = transition(state, Event::Left, &mut save, &table);
    // Left from Resume selects Restart.
    let state = transition(state, Event::Confirm, &mut save, &table);
    match &state {
        SessionState::Playing { playback, pause, frame, .. } => {
            assert_eq!(playback.index, 0);
            assert_eq!(playback.notes.len(), 0);
            assert_eq!(*frame, 0);
            assert!(!pause.paused);
        },
        _ => panic!("expected a fresh playing state"),
    }
    // Exit drops back to the song menu.
    let state = transition(state, Event::Start, &mut save, &table);
    let state = transition(state, Event::Left, &mut save, &table);
    let state = transition(state, Event::Left, &mut save, &table);
    let state = transition(state, Event::Confirm, &mut save, &table);
    assert!(matches!(state, SessionState::SongMenu { option: 0, offset: 0 }));
}

#[test]
fn finishing_a_song_records_the_score_once() {
    let table = demo_table();
    let mut save = SaveData::new(2);
    let mut state = transition(
        SessionState::SongMenu { option: 0, offset: 0 },
        Event::Confirm,
        &mut save,
        &table,
    );
    let mut finished = false;
    for _ in 0..400 {
        let (next, result) = session_tick(state, &mut save, NO_INPUT);
        state = next;
        if matches!(result, SongResult::Finished) {
            finished = true;
            break;
        }
    }
    assert!(finished);
    match &state {
        SessionState::ResultScreen { song_id, score } => {
            assert_eq!(song_id.0, 0);
            assert_eq!(score.score(), 0);
            assert_eq!(score.accuracy(), 0);
        },
        _ => panic!("expected the result screen"),
    }
    let board = save.get_scores(SongID::new(0));
    assert_eq!(board[0].map(|s| s.score()), Some(0));
    assert!(board[1].is_none());
    // Leaving the result screen goes back to the song menu and writes
    // nothing more.
    let state = transition(state, Event::Confirm, &mut save, &table);
    assert!(matches!(state, SessionState::SongMenu { option: 0, offset: 0 }));
    let board = save.get_scores(SongID::new(0));
    assert!(board[1].is_none());
}

#[test]
fn song_info_confirm_and_back() {
    let table = demo_table();
    let mut save = SaveData::new(2);
    let state = SessionState::SongInfo { song_id: SongID::new(1) };
    let state = transition(state, Event::Back, &mut save, &table);
    assert!(matches!(state, SessionState::SongMenu { option: 0, offset: 0 }));
    let state = transition(
        SessionState::SongInfo { song_id: SongID::new(1) },
        Event::Confirm,
        &mut save,
        &table,
    );
    match state {
        SessionState::Playing { song_id, .. } => assert_eq!(song_id.0, 1),
        _ => panic!("expected a playing state"),
    }
}

#[test]
fn song_id_reads_the_table() {
    let table = demo_table();
    let id = SongID::new(0);
    assert_eq!(id.name(&table), "first");
    assert_eq!(id.fragments(&table).len(), 1);
    assert_eq!(id.sound(&table).len(), 0);
    assert_eq!(table.len(), 2);
}
