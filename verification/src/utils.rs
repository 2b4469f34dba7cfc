use vstd::prelude::*;

use crate::engine::{
    keeps_route_ends, lemma_pushed_some_concat, pushed_some, Engine,
};
use crate::message::MidiMessage;
use crate::message::spec_decode;
use crate::midi::{
    lemma_midimap_index_in_table, spec_midimap_index, spec_routed, spec_set, spec_set_all, ParamTemplate,
    ParamUpdate, NUMBER_OF_TEMPLATES,
};
use crate::modules::{spec_param_state, PlayerState};
use crate::wire::wmidi_encode_control_change;

verus! {

/// The channel index on which players and gains are controlled (channel 16).
pub const CONTROL_CHANNEL: u8 = 15;

/// The play and pause messages of node `id`: control changes on the control
/// channel, with function `id` and value 0 (play) or 1 (pause).
pub open spec fn spec_play_pause_messages(id: u8) -> (MidiMessage, MidiMessage) {
    (
        MidiMessage::ControlChange(CONTROL_CHANNEL, id, 0),
        MidiMessage::ControlChange(CONTROL_CHANNEL, id, 1),
    )
}

pub fn get_play_pause_midi_messages(id: u8) -> (res: (MidiMessage, MidiMessage))
    requires
        id < 128,
    ensures
        res == spec_play_pause_messages(id),
        res.0.wf(),
        res.1.wf(),
{
    let play = MidiMessage::ControlChange(CONTROL_CHANNEL, id, 0);
    let pause = MidiMessage::ControlChange(CONTROL_CHANNEL, id, 1);
    (play, pause)
}

/// The message that sets the gain of node `id` to `value`.
pub fn get_gain_midi_messages(id: u8, value: u8) -> (res: MidiMessage)
    requires
        id < 128,
        value < 128,
    ensures
        res == MidiMessage::ControlChange(CONTROL_CHANNEL, id, value),
        res.wf(),
{
    MidiMessage::ControlChange(CONTROL_CHANNEL, id, value)
}

/// The routes that make the play and pause messages of player `id` drive its
/// parameters 0 and 1.
pub open spec fn spec_player_routes(id: u8) -> Seq<(ParamTemplate, MidiMessage)> {
    let (play, pause) = spec_play_pause_messages(id);
    seq![
        (ParamTemplate { ix: id as usize, param_ix: 0 }, play),
        (ParamTemplate { ix: id as usize, param_ix: 1 }, pause),
    ]
}

/// The route that makes the gain messages of node `id` drive its parameter 0.
pub open spec fn spec_gain_routes(id: u8) -> Seq<(ParamTemplate, MidiMessage)> {
    seq![
        (
            ParamTemplate { ix: id as usize, param_ix: 0 },
            MidiMessage::ControlChange(CONTROL_CHANNEL, id, 0),
        ),
    ]
}

/// Routes the play and pause messages of player `id` to it.
pub fn register_midi_map(engine: &mut Engine, id: u8)
    requires
        id < 128,
    ensures
        final(engine).wf(),
        final(engine).last_id() == old(engine).last_id(),
        final(engine).root() == old(engine).root(),
        final(engine).registered() == old(engine).registered() + spec_player_routes(id),
        final(engine).registered() == old(engine).registered().push(
            (
                ParamTemplate { ix: id as usize, param_ix: 0 },
                MidiMessage::ControlChange(CONTROL_CHANNEL, id, 0),
            ),
        ).push(
            (
                ParamTemplate { ix: id as usize, param_ix: 1 },
                MidiMessage::ControlChange(CONTROL_CHANNEL, id, 1),
            ),
        ),
        pushed_some(old(engine).pushed(), final(engine).pushed(), spec_player_routes(id)),
        keeps_route_ends(*old(engine), *final(engine)),
{
    let ghost e0 = *engine;
    let (play, pause) = get_play_pause_midi_messages(id);
    let worker_message_play = ParamTemplate { ix: id as usize, param_ix: 0 };
    let worker_message_pause = ParamTemplate { ix: id as usize, param_ix: 1 };
    engine.register_midi_message(worker_message_play, play);
    let ghost e1 = *engine;
    engine.register_midi_message(worker_message_pause, pause);
    proof {
        let r = spec_player_routes(id);
        assert(r =~= seq![r[0]] + seq![r[1]]);
        lemma_pushed_some_concat(e0.pushed(), e1.pushed(), engine.pushed(), seq![r[0]], seq![r[1]]);
    }
    assert(final(engine).registered() =~= old(engine).registered() + spec_player_routes(id));
}

/// Routes the gain messages of node `id` to it.
pub fn register_midi_map_gain(engine: &mut Engine, id: u8)
    requires
        id < 128,
    ensures
        final(engine).wf(),
        final(engine).last_id() == old(engine).last_id(),
        final(engine).root() == old(engine).root(),
        final(engine).registered() == old(engine).registered() + spec_gain_routes(id),
        final(engine).registered() == old(engine).registered().push(
            (
                ParamTemplate { ix: id as usize, param_ix: 0 },
                MidiMessage::ControlChange(CONTROL_CHANNEL, id, 0),
            ),
        ),
        pushed_some(old(engine).pushed(), final(engine).pushed(), spec_gain_routes(id)),
        keeps_route_ends(*old(engine), *final(engine)),
{
    let gain = get_gain_midi_messages(id, 0);
    let worker_message_gain = ParamTemplate { ix: id as usize, param_ix: 0 };
    engine.register_midi_message(worker_message_gain, gain);
    assert(final(engine).registered() =~= old(engine).registered() + spec_gain_routes(id));
}

/// Gives a new player and its gain their identifiers and their MIDI routes:
/// the player gets a node outside the root mixer, the gain a node that reads
/// the player's first output and feeds the root mixer. Returns the two
/// identifiers.
pub fn load_core_player(engine: &mut Engine) -> (ids: (u8, u8))
    requires
        old(engine).last_id() + 2 < 128,
    ensures
        final(engine).wf(),
        ids.0 == old(engine).last_id() + 1,
        ids.1 == old(engine).last_id() + 2,
        final(engine).last_id() == ids.1,
        final(engine).root() == old(engine).root().push((ids.1 as usize, 0usize)),
        final(engine).registered() == old(engine).registered() + spec_player_routes(ids.0)
            + spec_gain_routes(ids.1),
        pushed_some(
            old(engine).pushed(),
            final(engine).pushed(),
            spec_player_routes(ids.0) + spec_gain_routes(ids.1),
        ),
        keeps_route_ends(*old(engine), *final(engine)),
{
    let id = engine.add_module() as u8;
    let ghost e1 = *engine;
    register_midi_map(engine, id);
    let ghost e2 = *engine;
    let gain_id = engine.add() as u8;
    register_midi_map_gain(engine, gain_id);
    proof {
        lemma_pushed_some_concat(
            e1.pushed(),
            e2.pushed(),
            engine.pushed(),
            spec_player_routes(id),
            spec_gain_routes(gain_id),
        );
    }
    (id, gain_id)
}

/// The wire bytes of the play message of player `id`.
pub fn play(id: u8) -> (bytes: Vec<u8>)
    requires
        id < 128,
    ensures
        bytes@ == seq![0xBFu8, id, 0u8],
{
    wmidi_encode_control_change(CONTROL_CHANNEL, id, 0)
}

/// The wire bytes of the pause message of player `id`.
pub fn pause(id: u8) -> (bytes: Vec<u8>)
    requires
        id < 128,
    ensures
        bytes@ == seq![0xBFu8, id, 1u8],
{
    wmidi_encode_control_change(CONTROL_CHANNEL, id, 1)
}

/// The wire bytes of the message that sets the gain of node `id` to `value`.
pub fn gain(id: u8, value: u8) -> (bytes: Vec<u8>)
    requires
        id < 128,
        value < 128,
    ensures
        bytes@ == seq![0xBFu8, id, value],
{
    wmidi_encode_control_change(CONTROL_CHANNEL, id, value)
}

} // verus!

verus! {

/// The parameter changes that a player's routes add for a message of its
/// slot carrying `value`: parameter 0 (play) then parameter 1 (pause) of
/// node `id`.
pub open spec fn spec_player_updates(id: u8, value: u8) -> Seq<ParamUpdate> {
    seq![
        ParamUpdate { ix: id as usize, param_ix: 0, value },
        ParamUpdate { ix: id as usize, param_ix: 1, value },
    ]
}

/// MIDI control of a player: once the routes of player `id` are in a routing
/// table, its play bytes decode to its play message, which the table turns
/// into what it gave before followed by value 0 for both of the player's
/// parameters; its pause bytes do the same with value 1. Value 0 sets any
/// player playing, value 1 pauses it.
pub proof fn lemma_play_pause_control(map: Seq<Seq<ParamTemplate>>, id: u8, s: PlayerState)
    requires
        map.len() == NUMBER_OF_TEMPLATES,
        id < 128,
    ensures
        spec_decode(seq![0xBFu8, id, 0u8]) == Some(spec_play_pause_messages(id).0),
        spec_decode(seq![0xBFu8, id, 1u8]) == Some(spec_play_pause_messages(id).1),
        spec_routed(spec_set_all(map, spec_player_routes(id)), spec_play_pause_messages(id).0)
            == spec_routed(map, spec_play_pause_messages(id).0) + spec_player_updates(id, 0),
        spec_routed(spec_set_all(map, spec_player_routes(id)), spec_play_pause_messages(id).1)
            == spec_routed(map, spec_play_pause_messages(id).1) + spec_player_updates(id, 1),
        spec_param_state(s, 0) == PlayerState::Play,
        spec_param_state(s, 1) == PlayerState::Pause,
{
    crate::message::lemma_control_change_round_trip(CONTROL_CHANNEL, id, 0);
    crate::message::lemma_control_change_round_trip(CONTROL_CHANNEL, id, 1);
    let (play, pause) = spec_play_pause_messages(id);
    let routes = spec_player_routes(id);
    let t0 = routes[0].0;
    let t1 = routes[1].0;
    lemma_midimap_index_in_table(play);
    let idx = spec_midimap_index(play).0;
    assert(spec_midimap_index(pause).0 == idx);
    assert(routes.drop_last().drop_last() =~= Seq::<(ParamTemplate, MidiMessage)>::empty());
    assert(spec_set_all(map, routes.drop_last().drop_last()) == map);
    assert(spec_set_all(map, routes.drop_last()) == spec_set(map, t0, play));
    let routed = spec_set_all(map, routes);
    assert(routed == spec_set(spec_set(map, t0, play), t1, pause));
    assert(routed[idx] =~= map[idx].push(t0).push(t1));
    assert(spec_routed(routed, play) =~= spec_routed(map, play) + spec_player_updates(id, 0));
    assert(spec_routed(routed, pause) =~= spec_routed(map, pause) + spec_player_updates(id, 1));
}

} // verus!

verus! {

/// MIDI control of a gain: once the route of gain node `id` is in a routing
/// table, the bytes of `gain(id, v)` decode to a control change that the table
/// turns into what it gave before followed by one change of parameter 0 of
/// node `id` to `v`.
pub proof fn lemma_gain_control(map: Seq<Seq<ParamTemplate>>, id: u8, v: u8)
    requires
        map.len() == NUMBER_OF_TEMPLATES,
        id < 128,
        v < 128,
    ensures
        spec_decode(seq![0xBFu8, id, v]) == Some(MidiMessage::ControlChange(CONTROL_CHANNEL, id, v)),
        spec_routed(
            spec_set_all(map, spec_gain_routes(id)),
            MidiMessage::ControlChange(CONTROL_CHANNEL, id, v),
        ) == spec_routed(map, MidiMessage::ControlChange(CONTROL_CHANNEL, id, v)) + seq![
            ParamUpdate { ix: id as usize, param_ix: 0, value: v },
        ],
{
    crate::message::lemma_control_change_round_trip(CONTROL_CHANNEL, id, v);
    let m = MidiMessage::ControlChange(CONTROL_CHANNEL, id, v);
    let routes = spec_gain_routes(id);
    let t = routes[0].0;
    let r = routes[0].1;
    lemma_midimap_index_in_table(m);
    let idx = spec_midimap_index(m).0;
    assert(spec_midimap_index(r).0 == idx);
    assert(routes.drop_last() =~= Seq::<(ParamTemplate, MidiMessage)>::empty());
    assert(spec_set_all(map, routes.drop_last()) == map);
    let routed = spec_set_all(map, routes);
    assert(routed == spec_set(map, t, r));
    assert(routed[idx] =~= map[idx].push(t));
    assert(spec_routed(routed, m) =~= spec_routed(map, m) + seq![
        ParamUpdate { ix: id as usize, param_ix: 0, value: v },
    ]);
}

} // verus!
