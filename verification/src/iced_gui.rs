use vstd::prelude::*;

use crate::utils::{gain, pause, play};

verus! {

/// What the user asks of the window.
#[derive(PartialEq, Eq, Debug, Structural)]
pub enum Message {
    /// The "ADD" button: pick a file and load a new player.
    AddPlayer,
    /// The "PLAY" button of the player at this index.
    Play(usize),
    /// The "PAUSE" button of the player at this index.
    Pause(usize),
}

/// What the window asks of the engine after a message.
#[derive(PartialEq, Eq, Debug)]
pub enum Action {
    Nothing,
    /// Load the file into a new player, which takes this index.
    Load(String, usize),
    /// Send these MIDI bytes to the engine.
    Send(Vec<u8>),
}

/// One player of the window: the file it plays, its place in the window, its
/// node, its gain node and the gain shown (a 7-bit MIDI value).
pub struct Player {
    path: String,
    index: usize,
    id: u8,
    gain: u8,
    gain_id: u8,
}

impl Player {
    #[verifier::type_invariant]
    spec fn inv(self) -> bool {
        self.id < 128 && self.gain_id < 128 && self.gain < 128
    }

    pub closed spec fn path(&self) -> Seq<char> {
        self.path@
    }

    pub closed spec fn index(&self) -> usize {
        self.index
    }

    pub closed spec fn id(&self) -> u8 {
        self.id
    }

    pub closed spec fn gain_value(&self) -> u8 {
        self.gain
    }

    pub closed spec fn gain_id(&self) -> u8 {
        self.gain_id
    }

    /// A player of `path` at `index`, whose player and gain nodes are `ids`,
    /// with the gain at its top (127).
    pub fn new(path: String, index: usize, ids: (u8, u8)) -> (p: Self)
        requires
            ids.0 < 128,
            ids.1 < 128,
        ensures
            p.path() == path@,
            p.index() == index,
            p.id() == ids.0,
            p.gain_id() == ids.1,
            p.gain_value() == 127,
    {
        Player { path, index, id: ids.0, gain: 127, gain_id: ids.1 }
    }

    /// The file the player plays.
    pub fn path_str(&self) -> (s: &str)
        ensures
            s@ == self.path(),
    {
        self.path.as_str()
    }

    /// The bytes of the play message of this player's node.
    pub fn play(&self) -> (bytes: Vec<u8>)
        ensures
            bytes@ == seq![0xBFu8, self.id(), 0u8],
    {
        proof {
            use_type_invariant(self);
        }
        play(self.id)
    }

    /// The bytes of the pause message of this player's node.
    pub fn pause(&self) -> (bytes: Vec<u8>)
        ensures
            bytes@ == seq![0xBFu8, self.id(), 1u8],
    {
        proof {
            use_type_invariant(self);
        }
        pause(self.id)
    }

    /// Sets the gain shown to `gain_`, and returns the bytes of the message
    /// that sets the gain node to it.
    pub fn gain(&mut self, gain_: u8) -> (bytes: Vec<u8>)
        requires
            gain_ < 128,
        ensures
            final(self).gain_value() == gain_,
            final(self).path() == old(self).path(),
            final(self).index() == old(self).index(),
            final(self).id() == old(self).id(),
            final(self).gain_id() == old(self).gain_id(),
            bytes@ == seq![0xBFu8, old(self).gain_id(), gain_],
    {
        proof {
            use_type_invariant(&*self);
        }
        self.gain = gain_;
        gain(self.gain_id, self.gain)
    }
}

/// The window: its players, each at the index of its place.
pub struct Kteach {
    players: Vec<Player>,
}

impl Kteach {
    #[verifier::type_invariant]
    spec fn inv(self) -> bool {
        forall|i: int| 0 <= i < self.players@.len() ==> (#[trigger] self.players@[i]).index() == i
    }

    /// The players, in window order.
    pub closed spec fn players(&self) -> Seq<Player> {
        self.players@
    }

    /// Every player's index is its place in the window.
    pub open spec fn wf(&self) -> bool {
        forall|i: int| 0 <= i < self.players().len() ==> (#[trigger] self.players()[i]).index() == i
    }

    pub fn new() -> (k: Self)
        ensures
            k.players() == Seq::<Player>::empty(),
            k.wf(),
    {
        Kteach { players: Vec::new() }
    }

    /// The number of players.
    pub fn len(&self) -> (n: usize)
        ensures
            n == self.players().len(),
            self.wf(),
    {
        proof {
            use_type_invariant(self);
        }
        self.players.len()
    }

    /// Adds the player loaded from `path`, whose nodes are `ids`, at the end.
    pub fn add_player(&mut self, path: String, ids: (u8, u8))
        requires
            ids.0 < 128,
            ids.1 < 128,
        ensures
            final(self).wf(),
            final(self).players().len() == old(self).players().len() + 1,
            forall|i: int|
                0 <= i < old(self).players().len() ==> final(self).players()[i] == old(
                    self,
                ).players()[i],
            final(self).players().last().path() == path@,
            final(self).players().last().index() == old(self).players().len(),
            final(self).players().last().id() == ids.0,
            final(self).players().last().gain_id() == ids.1,
            final(self).players().last().gain_value() == 127,
    {
        proof {
            use_type_invariant(&*self);
        }
        let mut players: Vec<Player> = Vec::new();
        std::mem::swap(&mut players, &mut self.players);
        let index = players.len();
        players.push(Player::new(path, index, ids));
        self.players = players;
    }

    /// One message of the window. "ADD" with a picked file asks to load it
    /// into a new player at the end (`add_player` then adds it); "ADD" with
    /// no file does nothing; "PLAY" and "PAUSE" give the player's message.
    pub fn update(&self, message: Message, path: Option<String>) -> (action: Action)
        requires
            message matches Message::Play(i) ==> i < self.players().len(),
            message matches Message::Pause(i) ==> i < self.players().len(),
        ensures
            self.wf(),
            message is AddPlayer && path is None ==> action == Action::Nothing,
            message is AddPlayer && path is Some ==> (action matches Action::Load(p, i) && p@
                == path->0@ && i == self.players().len()),
            message matches Message::Play(i) ==> (action matches Action::Send(b) && b@ == seq![
                0xBFu8,
                self.players()[i as int].id(),
                0u8,
            ]),
            message matches Message::Pause(i) ==> (action matches Action::Send(b) && b@ == seq![
                0xBFu8,
                self.players()[i as int].id(),
                1u8,
            ]),
    {
        proof {
            use_type_invariant(self);
        }
        match message {
            Message::AddPlayer => match path {
                Some(path) => Action::Load(path, self.players.len()),
                None => Action::Nothing,
            },
            Message::Play(index) => Action::Send(self.players[index].play()),
            Message::Pause(index) => Action::Send(self.players[index].pause()),
        }
    }
}

} // verus!
