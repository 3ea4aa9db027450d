//! The timeline data model: tracks, commands, frame-stamped fragments and
//! whole songs. A timeline comes out of an authoring tool already validated;
//! its well-formedness is stated here and assumed by constructors.

use vstd::prelude::*;

verus! {

/// One of the two input lanes, each bound to one button and one fixed
/// vertical judgement lane.
#[derive(Clone, Copy, Debug, PartialEq, Eq, Structural)]
pub enum Track {
    High,
    Low,
}

/// A timeline command: spawn a note on one track, spawn one on each track,
/// or change the scroll speed.
#[derive(Clone, Copy, Debug, PartialEq, Eq, Structural)]
pub enum Command {
    Note(Track),
    NoteBoth,
    SetSpeed(i32),
}

/// A single timestamped command in a timeline.
#[derive(Clone, Copy, Debug, PartialEq, Eq, Structural)]
pub struct Fragment {
    pub command: Command,
    pub frame: usize,
}

impl Fragment {
    pub fn new(command: Command, frame: usize) -> (r: Self)
        ensures
            r.command == command,
            r.frame == frame,
    {
        Self { command, frame }
    }

    pub fn command(&self) -> (r: &Command)
        ensures
            *r == self.command,
    {
        &self.command
    }

    pub fn frame(&self) -> (r: usize)
        ensures
            r == self.frame,
    {
        self.frame
    }
}

/// Capacity bound on a timeline, so that every score, hit and accuracy
/// computation stays inside machine integers.
pub const MAX_FRAGMENTS: usize = 1048576;

/// Largest scroll speed a `SetSpeed` command may carry, in whole pixels per
/// tick; one screen width per tick is already far beyond playable.
pub const MAX_SPEED: i32 = 240;

/// A valid timeline as the authoring tool produces it: frames non-decreasing
/// in sequence order, every scroll speed a positive whole number of pixels
/// per tick, and the length under the capacity bound.
pub open spec fn timeline_wf(frags: Seq<Fragment>) -> bool {
    &&& frags.len() <= MAX_FRAGMENTS
    &&& forall|i: int, j: int|
        0 <= i <= j < frags.len() ==> #[trigger] frags[i].frame <= #[trigger] frags[j].frame
    &&& forall|i: int|
        0 <= i < frags.len() ==> (#[trigger] frags[i].command matches Command::SetSpeed(v)
            ==> 1 <= v <= MAX_SPEED)
}

/// A song: a display name, the ordered fragments of its timeline, and the
/// raw audio payload, which the core carries but never interprets.
pub struct SongData {
    pub name: String,
    pub fragments: Vec<Fragment>,
    pub sound: Vec<u8>,
}

impl SongData {
    pub open spec fn wf(&self) -> bool {
        timeline_wf(self.fragments@)
    }

    pub fn new(name: String, fragments: Vec<Fragment>, sound: Vec<u8>) -> (r: Self)
        requires
            timeline_wf(fragments@),
        ensures
            r.name == name,
            r.fragments == fragments,
            r.sound == sound,
            r.wf(),
    {
        Self { name, fragments, sound }
    }

    pub fn name(&self) -> (r: &String)
        ensures
            r == self.name,
    {
        &self.name
    }

    pub fn sound(&self) -> (r: &Vec<u8>)
        ensures
            r == self.sound,
    {
        &self.sound
    }

    pub fn fragments(&self) -> (r: &Vec<Fragment>)
        ensures
            r == self.fragments,
    {
        &self.fragments
    }
}

} // verus!
