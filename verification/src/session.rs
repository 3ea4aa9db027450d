//! The session state machine: menus, song info, playing (with its pause
//! overlay), and the result screen, as one tagged union with a single
//! transition function over discrete events. The save store is read by the
//! info and result screens and written only on entering the result screen
//! and on the explicit reset.

use vstd::prelude::*;

use crate::playback::{spec_accuracy, Song, SongResult, TickInput};
use crate::save_data::{board_insert, SaveData};
use crate::score::Score;
use crate::song_data::Fragment;
use crate::songs::{SongID, SongTable};

verus! {

/// Options of the main menu: play, and reset the save data.
pub const MAIN_MENU_OPTIONS: usize = 2;

/// How many songs the song menu shows at once.
pub const MENU_VISIBLE: usize = 10;

/// The entries of the pause overlay, cycled through with left and right.
#[derive(Clone, Copy, Debug, PartialEq, Eq, Structural)]
pub enum PauseItem {
    Exit,
    Restart,
    Resume,
}

impl PauseItem {
    /// The entry to the right of this one, wrapping around.
    pub open spec fn next_spec(&self) -> Self {
        match *self {
            Self::Exit => Self::Restart,
            Self::Restart => Self::Resume,
            Self::Resume => Self::Exit,
        }
    }

    /// The entry to the left of this one, wrapping around.
    pub open spec fn previous_spec(&self) -> Self {
        match *self {
            Self::Exit => Self::Resume,
            Self::Restart => Self::Exit,
            Self::Resume => Self::Restart,
        }
    }

    /// The entry to the right, wrapping around.
    pub fn next(&self) -> (r: Self)
        ensures
            r == self.next_spec(),
    {
        match self {
            Self::Exit => Self::Restart,
            Self::Restart => Self::Resume,
            Self::Resume => Self::Exit,
        }
    }

    /// The entry to the left, wrapping around.
    pub fn previous(&self) -> (r: Self)
        ensures
            r == self.previous_spec(),
    {
        match self {
            Self::Exit => Self::Resume,
            Self::Restart => Self::Exit,
            Self::Resume => Self::Restart,
        }
    }
}

/// The pause overlay: whether the song is paused, and the selected entry.
#[derive(Clone, Copy, Debug, PartialEq, Eq, Structural)]
pub struct PauseState {
    pub paused: bool,
    pub item: PauseItem,
}

impl PauseState {
    /// A fresh overlay: not paused, with `Resume` selected.
    pub fn new() -> (r: Self)
        ensures
            !r.paused,
            r.item == PauseItem::Resume,
    {
        Self { paused: false, item: PauseItem::Resume }
    }
}

/// A discrete input event handed to the session's transition function.
/// Note judgement input is not an event: it rides on each tick's snapshot.
#[derive(Clone, Copy, Debug, PartialEq, Eq, Structural)]
pub enum Event {
    Up,
    Down,
    Left,
    Right,
    Confirm,
    Back,
    Start,
}

/// The one live state of the session. A transition destroys the previous
/// state and constructs the next.
pub enum SessionState {
    MainMenu { option: usize },
    SongMenu { option: usize, offset: usize },
    SongInfo { song_id: SongID },
    Playing { song_id: SongID, playback: Song, pause: PauseState, frame: usize },
    ResultScreen { song_id: SongID, score: Score },
}

/// Internal consistency of a session state against the song table.
pub open spec fn state_wf(state: &SessionState, songs: &SongTable) -> bool {
    match *state {
        SessionState::MainMenu { option } => option < MAIN_MENU_OPTIONS,
        SessionState::SongMenu { option, offset } => if songs.songs@.len() == 0 {
            option == 0 && offset == 0
        } else {
            option < songs.songs@.len() && offset <= option && option < offset + MENU_VISIBLE
        },
        SessionState::SongInfo { song_id } => song_id.valid(songs),
        SessionState::Playing { song_id, playback, pause, frame } => song_id.valid(songs)
            && playback.wf() && playback.song_id == song_id && playback.fragments@
            == songs.songs@[song_id.0 as int].fragments@,
        SessionState::ResultScreen { song_id, score } => song_id.valid(songs),
    }
}

/// A state that has just entered playing the given song from its start.
pub open spec fn fresh_playing(r: &SessionState, sid: SongID, songs: &SongTable) -> bool {
    &&& *r matches SessionState::Playing { song_id, playback, pause, frame }
    &&& song_id == sid
    &&& playback.song_id == sid
    &&& playback.fragments@ == songs.songs@[sid.0 as int].fragments@
    &&& playback.notes@.len() == 0
    &&& playback.index == 0
    &&& playback.current_speed == 1
    &&& playback.score == 0
    &&& playback.combo == 0
    &&& playback.max_combo == 0
    &&& playback.hit == 0
    &&& pause == (PauseState { paused: false, item: PauseItem::Resume })
    &&& frame == 0
}

/// An element-for-element copy of a fragment list.
fn copy_fragments(v: &Vec<Fragment>) -> (r: Vec<Fragment>)
    ensures
        r@ == v@,
{
    let mut r: Vec<Fragment> = Vec::new();
    let mut i: usize = 0;
    while i < v.len()
        invariant
            i <= v@.len(),
            r@ == v@.take(i as int),
        decreases v@.len() - i,
    {
        r.push(v[i]);
        proof {
            assert(v@.take(i + 1).drop_last() =~= v@.take(i as int));
            assert(r@ =~= v@.take(i + 1));
        }
        i += 1;
    }
    proof {
        assert(v@.take(v@.len() as int) =~= v@);
    }
    r
}

/// A fresh playing state for one song of the table.
fn start_song(sid: SongID, songs: &SongTable) -> (r: SessionState)
    requires
        songs.wf(),
        sid.valid(songs),
    ensures
        fresh_playing(&r, sid, songs),
        state_wf(&r, songs),
{
    let fragments = copy_fragments(songs.get(sid).fragments());
    SessionState::Playing {
        song_id: sid,
        playback: Song::new(sid, fragments),
        pause: PauseState::new(),
        frame: 0,
    }
}

/// The session's transition function for one discrete input event: every
/// arrow of the state diagram in one place. The save store is written only
/// by the main menu's reset; every other event leaves it untouched.
pub fn transition(
    state: SessionState,
    event: Event,
    save: &mut SaveData,
    songs: &SongTable,
) -> (r: SessionState)
    requires
        songs.wf(),
        state_wf(&state, songs),
        old(save).wf(),
    ensures
        state_wf(&r, songs),
        final(save).wf(),
        final(save).scores@.len() == old(save).scores@.len(),
        // The save store is reset by confirming the main menu's second
        // option and untouched by everything else.
        (state is MainMenu && event == Event::Confirm && state->MainMenu_option == 1 ==> r
            == SessionState::MainMenu { option: 1usize } && (forall|s: int|
            0 <= s < old(save).scores@.len() ==> #[trigger] final(save).board(s)
                == crate::save_data::empty_board())),
        (!(state is MainMenu && event == Event::Confirm && state->MainMenu_option == 1)
            ==> *final(save) == *old(save)),
        // Main menu: the cursor moves within its two options; confirming
        // the first opens the song menu.
        (state is MainMenu && event == Event::Up ==> r == (SessionState::MainMenu {
            option: if state->MainMenu_option > 0 {
                (state->MainMenu_option - 1) as usize
            } else {
                0usize
            },
        })),
        (state is MainMenu && event == Event::Down ==> r == (SessionState::MainMenu {
            option: if state->MainMenu_option + 1 < MAIN_MENU_OPTIONS {
                (state->MainMenu_option + 1) as usize
            } else {
                state->MainMenu_option
            },
        })),
        (state is MainMenu && event == Event::Confirm && state->MainMenu_option == 0 ==> r == (
        SessionState::SongMenu { option: 0usize, offset: 0usize })),
        (state is MainMenu && (event == Event::Left || event == Event::Right || event
            == Event::Back || event == Event::Start) ==> r == state),
        // Song menu: the cursor moves over the table, the visible window
        // follows it; confirming starts the selected song afresh.
        (state is SongMenu && event == Event::Up ==> r == ({
            let o2 = if state->SongMenu_option > 0 {
                (state->SongMenu_option - 1) as usize
            } else {
                0usize
            };
            SessionState::SongMenu {
                option: o2,
                offset: if o2 < state->SongMenu_offset {
                    (state->SongMenu_offset - 1) as usize
                } else {
                    state->SongMenu_offset
                },
            }
        })),
        (state is SongMenu && event == Event::Down ==> r == ({
            let o2 = if state->SongMenu_option + 1 < songs.songs@.len() {
                (state->SongMenu_option + 1) as usize
            } else {
                state->SongMenu_option
            };
            SessionState::SongMenu {
                option: o2,
                offset: if o2 >= state->SongMenu_offset + MENU_VISIBLE {
                    (state->SongMenu_offset + 1) as usize
                } else {
                    state->SongMenu_offset
                },
            }
        })),
        (state is SongMenu && event == Event::Confirm && songs.songs@.len() > 0
            ==> fresh_playing(&r, SongID(state->SongMenu_option), songs)),
        (state is SongMenu && event == Event::Confirm && songs.songs@.len() == 0 ==> r == state),
        (state is SongMenu && (event == Event::Left || event == Event::Right || event
            == Event::Back || event == Event::Start) ==> r == state),
        // Song info: confirming starts the song, backing out returns to
        // the song menu.
        (state is SongInfo && event == Event::Confirm ==> fresh_playing(
            &r,
            state->SongInfo_song_id,
            songs,
        )),
        (state is SongInfo && event == Event::Back ==> r == (SessionState::SongMenu {
            option: 0usize,
            offset: 0usize,
        })),
        (state is SongInfo && !(event == Event::Confirm || event == Event::Back) ==> r == state),
        // Playing, not paused: only the start button does anything here, it
        // brings the pause overlay up.
        (state is Playing && !state->Playing_pause.paused ==> (if event == Event::Start {
            r == (SessionState::Playing {
                song_id: state->Playing_song_id,
                playback: state->Playing_playback,
                pause: PauseState { paused: true, item: state->Playing_pause.item },
                frame: state->Playing_frame,
            })
        } else {
            r == state
        })),
        // Paused: left and right cycle the overlay entries; confirming
        // exits to the song menu, restarts the song afresh, or resumes;
        // start and back also resume.
        (state is Playing && state->Playing_pause.paused ==> (match event {
            Event::Left => r == (SessionState::Playing {
                song_id: state->Playing_song_id,
                playback: state->Playing_playback,
                pause: PauseState {
                    paused: true,
                    item: state->Playing_pause.item.previous_spec(),
                },
                frame: state->Playing_frame,
            }),
            Event::Right => r == (SessionState::Playing {
                song_id: state->Playing_song_id,
                playback: state->Playing_playback,
                pause: PauseState { paused: true, item: state->Playing_pause.item.next_spec() },
                frame: state->Playing_frame,
            }),
            Event::Confirm => match state->Playing_pause.item {
                PauseItem::Exit => r == (SessionState::SongMenu {
                    option: 0usize,
                    offset: 0usize,
                }),
                PauseItem::Restart => fresh_playing(&r, state->Playing_song_id, songs),
                PauseItem::Resume => r == (SessionState::Playing {
                    song_id: state->Playing_song_id,
                    playback: state->Playing_playback,
                    pause: PauseState { paused: false, item: state->Playing_pause.item },
                    frame: state->Playing_frame,
                }),
            },
            Event::Start | Event::Back => r == (SessionState::Playing {
                song_id: state->Playing_song_id,
                playback: state->Playing_playback,
                pause: PauseState { paused: false, item: state->Playing_pause.item },
                frame: state->Playing_frame,
            }),
            _ => r == state,
        })),
        // Result screen: confirming returns to the song menu.
        (state is ResultScreen && event == Event::Confirm ==> r == (SessionState::SongMenu {
            option: 0usize,
            offset: 0usize,
        })),
        (state is ResultScreen && event != Event::Confirm ==> r == state),
{
    match state {
        SessionState::MainMenu { option } => match event {
            Event::Up => SessionState::MainMenu {
                option: if option > 0 {
                    option - 1
                } else {
                    0
                },
            },
            Event::Down => SessionState::MainMenu {
                option: if option + 1 < MAIN_MENU_OPTIONS {
                    option + 1
                } else {
                    option
                },
            },
            Event::Confirm => {
                if option == 0 {
                    SessionState::SongMenu { option: 0, offset: 0 }
                } else {
                    save.reset();
                    SessionState::MainMenu { option }
                }
            },
            _ => SessionState::MainMenu { option },
        },
        SessionState::SongMenu { option, offset } => match event {
            Event::Up => {
                let o2 = if option > 0 {
                    option - 1
                } else {
                    0
                };
                SessionState::SongMenu {
                    option: o2,
                    offset: if o2 < offset {
                        offset - 1
                    } else {
                        offset
                    },
                }
            },
            Event::Down => {
                let len = songs.len();
                let o2 = if option + 1 < len {
                    option + 1
                } else {
                    option
                };
                SessionState::SongMenu {
                    option: o2,
                    offset: if o2 - offset >= MENU_VISIBLE {
                        offset + 1
                    } else {
                        offset
                    },
                }
            },
            Event::Confirm => {
                if songs.len() > 0 {
                    start_song(SongID::new(option), songs)
                } else {
                    SessionState::SongMenu { option, offset }
                }
            },
            _ => SessionState::SongMenu { option, offset },
        },
        SessionState::SongInfo { song_id } => match event {
            Event::Confirm => start_song(song_id, songs),
            Event::Back => SessionState::SongMenu { option: 0, offset: 0 },
            _ => SessionState::SongInfo { song_id },
        },
        SessionState::Playing { song_id, playback, pause, frame } => {
            if !pause.paused {
                match event {
                    Event::Start => SessionState::Playing {
                        song_id,
                        playback,
                        pause: PauseState { paused: true, item: pause.item },
                        frame,
                    },
                    _ => SessionState::Playing { song_id, playback, pause, frame },
                }
            } else {
                match event {
                    Event::Left => SessionState::Playing {
                        song_id,
                        playback,
                        pause: PauseState { paused: true, item: pause.item.previous() },
                        frame,
                    },
                    Event::Right => SessionState::Playing {
                        song_id,
                        playback,
                        pause: PauseState { paused: true, item: pause.item.next() },
                        frame,
                    },
                    Event::Confirm => match pause.item {
                        PauseItem::Exit => SessionState::SongMenu { option: 0, offset: 0 },
                        PauseItem::Restart => start_song(song_id, songs),
                        PauseItem::Resume => SessionState::Playing {
                            song_id,
                            playback,
                            pause: PauseState { paused: false, item: pause.item },
                            frame,
                        },
                    },
                    Event::Start | Event::Back => SessionState::Playing {
                        song_id,
                        playback,
                        pause: PauseState { paused: false, item: pause.item },
                        frame,
                    },
                    _ => SessionState::Playing { song_id, playback, pause, frame },
                }
            }
        },
        SessionState::ResultScreen { song_id, score } => match event {
            Event::Confirm => SessionState::SongMenu { option: 0, offset: 0 },
            _ => SessionState::ResultScreen { song_id, score },
        },
    }
}

/// One tick of the session, one per display refresh. Only an unpaused
/// playing state does anything: its frame counter advances (it freezes
/// while paused and holds at the machine's limit), the playback engine
/// runs one tick, and when it signals the end of the song the final score
/// is computed, written into the song's leaderboard exactly once, and the
/// session moves to the result screen.
pub fn session_tick(state: SessionState, save: &mut SaveData, input: TickInput) -> (r: (
    SessionState,
    SongResult,
))
    requires
        old(save).wf(),
        (state is Playing ==> state->Playing_playback.wf() && state->Playing_song_id.0 < old(
            save,
        ).scores@.len()),
    ensures
        final(save).wf(),
        final(save).scores@.len() == old(save).scores@.len(),
        (!(state is Playing && !state->Playing_pause.paused) ==> r.0 == state && r.1
            == SongResult::Continue && *final(save) == *old(save)),
        (state is Playing && !state->Playing_pause.paused ==> ({
            let song_id = state->Playing_song_id;
            let playback = state->Playing_playback;
            let pause = state->Playing_pause;
            let frame = if state->Playing_frame == usize::MAX {
                usize::MAX
            } else {
                (state->Playing_frame + 1) as usize
            };
            if playback.finished_now() {
                &&& r.1 == SongResult::Finished
                &&& r.0 is ResultScreen
                &&& r.0->ResultScreen_song_id == song_id
                &&& ({
                    let rs = r.0->ResultScreen_score;
                    &&& rs.score == playback.score
                    &&& rs.max_combo == if playback.combo > playback.max_combo {
                        playback.combo as int
                    } else {
                        playback.max_combo as int
                    }
                    &&& rs.accuracy == spec_accuracy(
                        playback.hit as int,
                        playback.fragments@.len() as int,
                    )
                    &&& final(save).board(song_id.0 as int) == board_insert(
                        old(save).board(song_id.0 as int),
                        rs,
                    )
                })
                &&& (forall|s: int|
                    0 <= s < old(save).scores@.len() && s != song_id.0
                        ==> #[trigger] final(save).board(s) == old(save).board(s))
            } else {
                &&& *final(save) == *old(save)
                &&& r.0 is Playing
                &&& r.0->Playing_song_id == song_id
                &&& r.0->Playing_pause == pause
                &&& r.0->Playing_frame == frame
                &&& ({
                    let pb = r.0->Playing_playback;
                    let acc = playback.tick_acc(input, frame);
                    &&& pb.wf()
                    &&& pb.song_id == playback.song_id
                    &&& pb.fragments == playback.fragments
                    &&& pb.index == playback.index_after_spawn(frame)
                    &&& pb.current_speed == playback.speed_after_spawn(frame)
                    &&& pb.notes@ == acc.notes
                    &&& pb.score == acc.score
                    &&& pb.combo == acc.combo
                    &&& pb.max_combo == acc.max_combo
                    &&& pb.hit == acc.hits
                    &&& r.1 == if acc.signal {
                        SongResult::UpdateText
                    } else {
                        SongResult::Continue
                    }
                })
            }
        })),
{
    match state {
        SessionState::Playing { song_id, mut playback, pause, frame } => {
            if pause.paused {
                return (
                    SessionState::Playing { song_id, playback, pause, frame },
                    SongResult::Continue,
                );
            }
            let frame = if frame == usize::MAX {
                usize::MAX
            } else {
                frame + 1
            };
            let result = playback.update(input, frame);
            match result {
                SongResult::Finished => {
                    let score = playback.final_score();
                    save.insert_score(song_id, score);
                    (SessionState::ResultScreen { song_id, score }, SongResult::Finished)
                },
                _ => (SessionState::Playing { song_id, playback, pause, frame }, result),
            }
        },
        _ => (state, SongResult::Continue),
    }
}

} // verus!
