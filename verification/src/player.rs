//! Playing a list of files one after the other: what a player's event does
//! to the place in the list.

use vstd::prelude::*;

verus! {

/// What a player reports.
#[derive(Clone, Copy, Debug, PartialEq, Eq, Structural)]
pub enum PlayerEvent {
    /// The player was closed.
    Shutdown,
    /// The player has nothing to play.
    Idle,
    /// The file that was playing came to its end.
    EndOfFile,
    /// Anything else.
    Other,
}

/// What to do with the player next.
#[derive(Clone, Copy, Debug, PartialEq, Eq, Structural)]
pub enum PlayerAction {
    /// Stop listening to the player.
    Stop,
    /// Load the file at this index of the list.
    Load(usize),
    /// Say that the name at this index of the list is no file.
    Complain(usize),
    /// Go on listening.
    Continue,
}

/// What an event does to a list of `count` files of which the one at
/// `index` is playing: the new index, and what to do. The end of a file
/// moves on to the next one, which is loaded where it is a file and
/// complained about where it is not; past the last file, and when the player
/// is closed, the list is over.
pub open spec fn playlist_step_of(
    index: usize,
    count: usize,
    event: PlayerEvent,
    next_is_file: bool,
) -> (usize, PlayerAction) {
    match event {
        PlayerEvent::Shutdown => (index, PlayerAction::Stop),
        PlayerEvent::Idle => if index >= count {
            (index, PlayerAction::Stop)
        } else {
            (index, PlayerAction::Continue)
        },
        PlayerEvent::EndOfFile => if index >= count {
            (index, PlayerAction::Stop)
        } else if index + 1 >= count {
            ((index + 1) as usize, PlayerAction::Stop)
        } else if next_is_file {
            ((index + 1) as usize, PlayerAction::Load((index + 1) as usize))
        } else {
            ((index + 1) as usize, PlayerAction::Complain((index + 1) as usize))
        },
        PlayerEvent::Other => (index, PlayerAction::Continue),
    }
}

/// The index never goes back, moves by one at most, and stays within the
/// list unless it was beyond it; a file is loaded or complained about only
/// at the new index, which then lies in the list; and a player that idles
/// or ends a file with the list used up is left.
pub proof fn lemma_playlist_step(index: usize, count: usize, event: PlayerEvent, next_is_file: bool)
    ensures
        ({
            let (next, action) = playlist_step_of(index, count, event, next_is_file);
            &&& index <= next <= index + 1
            &&& index <= count ==> next <= count
            &&& action matches PlayerAction::Load(i) ==> i == next && next < count && next_is_file
            &&& action matches PlayerAction::Complain(i) ==> i == next && next < count
                && !next_is_file
            &&& (event is Idle || event is EndOfFile) && next >= count ==> action is Stop
        }),
{
}

/// What an event does to a list of `count` files of which the one at `index`
/// is playing. `next_is_file` says whether the name after `index` is a file
/// on disk; it is looked at only when a file ends before the last.
pub fn playlist_step(index: usize, count: usize, event: PlayerEvent, next_is_file: bool) -> (r: (
    usize,
    PlayerAction,
))
    ensures
        r == playlist_step_of(index, count, event, next_is_file),
{
    match event {
        PlayerEvent::Shutdown => (index, PlayerAction::Stop),
        PlayerEvent::Idle => if index >= count {
            (index, PlayerAction::Stop)
        } else {
            (index, PlayerAction::Continue)
        },
        PlayerEvent::EndOfFile => if index >= count {
            (index, PlayerAction::Stop)
        } else if index + 1 >= count {
            (index + 1, PlayerAction::Stop)
        } else if next_is_file {
            (index + 1, PlayerAction::Load(index + 1))
        } else {
            (index + 1, PlayerAction::Complain(index + 1))
        },
        PlayerEvent::Other => (index, PlayerAction::Continue),
    }
}

} // verus!
