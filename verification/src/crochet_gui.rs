use vstd::prelude::*;

use crate::modules::PlayerState;
use crate::utils::{pause, play};

verus! {

#[derive(Clone, Copy, PartialEq, Eq, Debug, Structural)]
pub enum AddPlayerState {
    /// The "NEW" button is shown.
    Initial,
    /// A file is being picked for the new player.
    NewTriggered,
}

/// The control that adds players: a "NEW" button that, once pressed, asks for
/// an audio file until one is picked.
pub struct AddPlayer {
    state: AddPlayerState,
}

impl AddPlayer {
    pub closed spec fn state(&self) -> AddPlayerState {
        self.state
    }

    pub fn new() -> (a: Self)
        ensures
            a.state() == AddPlayerState::Initial,
    {
        AddPlayer { state: AddPlayerState::Initial }
    }

    /// Whether a file is being picked (the "NEW" button is not shown then).
    pub fn wants_path(&self) -> (b: bool)
        ensures
            b == (self.state() == AddPlayerState::NewTriggered),
    {
        self.state == AddPlayerState::NewTriggered
    }

    /// One frame of the control. `new_pressed` tells whether the "NEW" button
    /// was pressed (it only counts while the button is shown). `loaded` is
    /// the file picked and the node of the player loaded from it, if any (it
    /// only counts while a file is being picked): that player joins `players`
    /// at the end, paused.
    pub fn run(&mut self, new_pressed: bool, loaded: Option<(String, u8)>, players: &mut Vec<Player>)
        ensures
            old(self).state() == AddPlayerState::Initial ==> {
                &&& final(players)@ == old(players)@
                &&& new_pressed ==> final(self).state() == AddPlayerState::NewTriggered
                &&& !new_pressed ==> final(self).state() == AddPlayerState::Initial
            },
            old(self).state() == AddPlayerState::NewTriggered ==> {
                &&& loaded is None ==> final(players)@ == old(players)@ && final(self).state()
                    == AddPlayerState::NewTriggered
                &&& loaded matches Some((path, id)) ==> {
                    &&& final(self).state() == AddPlayerState::Initial
                    &&& final(players)@.len() == old(players)@.len() + 1
                    &&& final(players)@.take(old(players)@.len() as int) == old(players)@
                    &&& final(players)@.last().path() == path@
                    &&& final(players)@.last().id() == id
                    &&& final(players)@.last().state() == PlayerState::Pause
                }
            },
    {
        match self.state {
            AddPlayerState::Initial => {
                if new_pressed {
                    self.state = AddPlayerState::NewTriggered;
                }
            },
            AddPlayerState::NewTriggered => {
                match loaded {
                    None => {},
                    Some((path, id)) => {
                        players.push(Player::new(path, id));
                        self.state = AddPlayerState::Initial;
                        assert(players@.take(old(players)@.len() as int) =~= old(players)@);
                    },
                }
            },
        }
    }
}

/// The on-screen control of one player: the file it plays, and "PLAY" and
/// "PAUSE" buttons that send MIDI messages to the engine.
pub struct Player {
    path: String,
    play: PlayerState,
    id: u8,
}

impl Player {
    pub closed spec fn path(&self) -> Seq<char> {
        self.path@
    }

    pub closed spec fn state(&self) -> PlayerState {
        self.play
    }

    pub closed spec fn id(&self) -> u8 {
        self.id
    }

    pub fn new(path: String, id: u8) -> (p: Self)
        ensures
            p.path() == path@,
            p.id() == id,
            p.state() == PlayerState::Pause,
    {
        Player { path, play: PlayerState::Pause, id }
    }

    /// The file the player plays.
    pub fn path_str(&self) -> (s: &str)
        ensures
            s@ == self.path(),
    {
        self.path.as_str()
    }

    /// One frame of the control, given which buttons were pressed. Returns
    /// the MIDI messages to send, in order: the play message when "PLAY" was
    /// pressed, then the pause message when "PAUSE" was.
    pub fn run(&mut self, play_pressed: bool, pause_pressed: bool) -> (messages: Vec<Vec<u8>>)
        requires
            old(self).id() < 128,
        ensures
            final(self).path() == old(self).path(),
            final(self).id() == old(self).id(),
            final(self).state() == (if pause_pressed {
                PlayerState::Pause
            } else if play_pressed {
                PlayerState::Play
            } else {
                old(self).state()
            }),
            messages@.map_values(|m: Vec<u8>| m@) == (if play_pressed {
                seq![seq![0xBFu8, old(self).id(), 0u8]]
            } else {
                Seq::empty()
            }) + (if pause_pressed {
                seq![seq![0xBFu8, old(self).id(), 1u8]]
            } else {
                Seq::empty()
            }),
    {
        let mut messages: Vec<Vec<u8>> = Vec::new();
        if play_pressed {
            messages.push(play(self.id));
            self.play = PlayerState::Play;
        }
        if pause_pressed {
            messages.push(pause(self.id));
            self.play = PlayerState::Pause;
        }
        assert(messages@.map_values(|m: Vec<u8>| m@) =~= (if play_pressed {
            seq![seq![0xBFu8, old(self).id(), 0u8]]
        } else {
            Seq::empty()
        }) + (if pause_pressed {
            seq![seq![0xBFu8, old(self).id(), 1u8]]
        } else {
            Seq::empty()
        }));
        messages
    }
}

} // verus!
