use vstd::prelude::*;

use vstd::arithmetic::div_mod::{lemma_fundamental_div_mod, lemma_fundamental_div_mod_converse};

verus! {

/// Number of output buffers of every module of the graph.
pub const N_BUFS_OUT: usize = 2;

#[derive(Clone, Copy, PartialEq, Eq, Debug, Structural)]
pub enum PlayerState {
    Play,
    Pause,
}

/// The chunk that a playing player plays with its cursor at `cursor`: the
/// chunk under the cursor.
pub open spec fn spec_played(track_len: int, cursor: int) -> int {
    cursor
}

/// The cursor after playing with the cursor at `cursor`: the next chunk, back
/// to the first one after the last, so that the player loops over its whole
/// track.
pub open spec fn spec_next_cursor(track_len: int, cursor: int) -> int {
    (cursor + 1) % track_len
}

/// The transport of a sample player: where it is in its track (counted in
/// chunks) and whether it plays. The samples themselves stay with the audio
/// module that owns this transport.
pub struct Player {
    track_len: usize,
    state: PlayerState,
    cursor: usize,
}

impl Player {
    /// Number of chunks of the track.
    pub closed spec fn track_len(&self) -> nat {
        self.track_len as nat
    }

    pub closed spec fn state(&self) -> PlayerState {
        self.state
    }

    /// The next chunk to play.
    pub closed spec fn cursor(&self) -> nat {
        self.cursor as nat
    }

    /// A player of a track of `track_len` chunks, at `cursor` (default the
    /// start) and in `state` (default paused).
    pub fn new(track_len: usize, cursor: Option<usize>, state: Option<PlayerState>) -> (p: Self)
        ensures
            p.track_len() == track_len,
            p.cursor() == match cursor {
                Some(c) => c,
                None => 0,
            },
            p.state() == match state {
                Some(s) => s,
                None => PlayerState::Pause,
            },
    {
        let cursor = match cursor {
            Some(c) => c,
            None => 0,
        };
        let state = match state {
            Some(s) => s,
            None => PlayerState::Pause,
        };
        Player { track_len, state, cursor }
    }

    pub fn n_bufs_out(&self) -> (n: usize)
        ensures
            n == 2,
    {
        N_BUFS_OUT
    }

    /// Whether the next `process` has a chunk to read: a paused player always
    /// has; a playing one needs its cursor inside the track.
    pub open spec fn can_process(&self) -> bool {
        self.state() == PlayerState::Pause || self.cursor() < self.track_len()
    }

    /// Tells whether the next `process` has a chunk to read.
    pub fn ready_to_process(&self) -> (b: bool)
        ensures
            b == self.can_process(),
    {
        match self.state {
            PlayerState::Pause => true,
            PlayerState::Play => self.cursor < self.track_len,
        }
    }

    /// Advances by one chunk. Returns the index of the chunk to play, or
    /// `None` for silence when paused.
    pub fn process(&mut self) -> (chunk: Option<usize>)
        requires
            old(self).can_process(),
        ensures
            final(self).track_len() == old(self).track_len(),
            final(self).state() == old(self).state(),
            old(self).state() == PlayerState::Pause ==> chunk is None && final(self).cursor()
                == old(self).cursor(),
            old(self).state() == PlayerState::Play ==> chunk == Some(
                spec_played(old(self).track_len() as int, old(self).cursor() as int) as usize,
            ) && final(self).cursor() == spec_next_cursor(
                old(self).track_len() as int,
                old(self).cursor() as int,
            ),
            old(self).state() == PlayerState::Play ==> chunk->0 < old(self).track_len(),
            old(self).cursor() < old(self).track_len() ==> final(self).cursor()
                < final(self).track_len(),
    {
        match self.state {
            PlayerState::Pause => None,
            PlayerState::Play => {
                let next = self.cursor;
                if self.cursor == self.track_len - 1 {
                    self.cursor = 0;
                } else {
                    self.cursor = self.cursor + 1;
                }
                proof {
                    let len = old(self).track_len() as int;
                    let c = next as int;
                    if c + 1 < len {
                        lemma_fundamental_div_mod_converse(c + 1, len, 0, c + 1);
                    } else {
                        lemma_fundamental_div_mod_converse(c + 1, len, 1, 0);
                    }
                }
                Some(next)
            },
        }
    }

    /// A parameter change: value 0 starts playing, value 1 pauses, any other
    /// value changes nothing. The parameter index is not looked at.
    pub fn set_param(&mut self, _param_ix: usize, val: u8)
        ensures
            final(self).track_len() == old(self).track_len(),
            final(self).cursor() == old(self).cursor(),
            final(self).state() == spec_param_state(old(self).state(), val),
            val == 0 ==> final(self).state() == PlayerState::Play,
            val == 1 ==> final(self).state() == PlayerState::Pause,
            val != 0 && val != 1 ==> final(self).state() == old(self).state(),
    {
        match val {
            0 => self.state = PlayerState::Play,
            1 => self.state = PlayerState::Pause,
            _ => (),
        }
    }
}

/// The state of a player in state `s` after a parameter change to `val`.
pub open spec fn spec_param_state(s: PlayerState, val: u8) -> PlayerState {
    if val == 0 {
        PlayerState::Play
    } else if val == 1 {
        PlayerState::Pause
    } else {
        s
    }
}

/// Sums its inputs into its first output.
pub struct Mixer {}

impl Mixer {
    pub fn n_bufs_out(&self) -> (n: usize)
        ensures
            n == 2,
    {
        N_BUFS_OUT
    }
}

/// The node at the root of the graph: it copies its first input to its first
/// output, or outputs silence when it has no input.
pub struct Root {}

impl Root {
    pub fn n_bufs_out(&self) -> (n: usize)
        ensures
            n == 2,
    {
        N_BUFS_OUT
    }

    /// The input to copy out of `n_inputs` inputs, or `None` for silence.
    pub fn process(&self, n_inputs: usize) -> (input: Option<usize>)
        ensures
            n_inputs == 0 ==> input is None,
            n_inputs > 0 ==> input == Some(0usize),
    {
        match n_inputs {
            0 => None,
            _ => Some(0),
        }
    }
}

} // verus!

verus! {

/// The cursor of a playing player that started at the first chunk of a track
/// of `track_len` chunks, after `k` chunks.
pub open spec fn spec_cursor_after(track_len: int, k: nat) -> int
    decreases k,
{
    if k == 0 {
        0
    } else {
        spec_next_cursor(track_len, spec_cursor_after(track_len, (k - 1) as nat))
    }
}

/// A playing player loops over its whole track: started at the first chunk of
/// a track of at least one chunk, the `k`-th chunk it plays (from 0) is chunk
/// `k` modulo the number of chunks, so every chunk plays once per round, and
/// its cursor never leaves the track.
pub proof fn lemma_playback_loops(track_len: int, k: nat)
    requires
        track_len >= 1,
    ensures
        0 <= spec_cursor_after(track_len, k) < track_len,
        spec_cursor_after(track_len, k) == (k as int) % track_len,
        spec_played(track_len, spec_cursor_after(track_len, k)) == (k as int) % track_len,
    decreases k,
{
    if k == 0 {
        lemma_fundamental_div_mod_converse(0, track_len, 0, 0);
    } else {
        lemma_playback_loops(track_len, (k - 1) as nat);
        let c = ((k - 1) as int) % track_len;
        lemma_fundamental_div_mod((k - 1) as int, track_len);
        let q = ((k - 1) as int) / track_len;
        if c + 1 < track_len {
            lemma_fundamental_div_mod_converse(c + 1, track_len, 0, c + 1);
            assert(k == q * track_len + (c + 1)) by (nonlinear_arith)
                requires
                    k - 1 == track_len * q + c,
            ;
            lemma_fundamental_div_mod_converse(k as int, track_len, q, c + 1);
        } else {
            lemma_fundamental_div_mod_converse(c + 1, track_len, 1, 0);
            assert(k == (q + 1) * track_len) by (nonlinear_arith)
                requires
                    k - 1 == track_len * q + c,
                    c + 1 == track_len,
            ;
            lemma_fundamental_div_mod_converse(k as int, track_len, q + 1, 0);
        }
    }
}

} // verus!

verus! {

/// Only the values 0 and 1 drive a player: 0 starts it, 1 pauses it, and
/// every other value leaves it as it was, whatever its state.
pub proof fn lemma_param_values(s: PlayerState, val: u8)
    ensures
        val == 0 ==> spec_param_state(s, val) == PlayerState::Play,
        val == 1 ==> spec_param_state(s, val) == PlayerState::Pause,
        val != 0 && val != 1 ==> spec_param_state(s, val) == s,
{
}

} // verus!
