use kteach::iced_gui::{Action, Kteach, Message, Player as WindowPlayer};
use kteach::crochet_gui::{AddPlayer, Player as PlayerControl};
use kteach::decoder::push_chunks;
use kteach::engine::{Engine, Ids};
use kteach::message::MidiMessage;
use kteach::midi::{
    innner_midi_index, midimap_index, parse_midi_message, process_message, MidiEngine, MidiMap,
    ParamTemplate, ParamUpdate, CHANNEL_PRESSURE_INDEX, CONTROL_CHANGE_INDEX, NOTE_ON_INDEX,
    NUMBER_OF_TEMPLATES, PROGRAM_CHANGE_INDEX,
};
use kteach::modules::{Mixer, Player, PlayerState, Root};
use kteach::utils::{
    gain, get_gain_midi_messages, get_play_pause_midi_messages, load_core_player, pause, play,
    register_midi_map, register_midi_map_gain,
};

#[test]
fn it_works() {
    assert_eq!(2 + 2, 4);
}

#[test]
fn ids_count_up_from_one() {
    let mut ids = Ids::new();
    assert_eq!(ids.new_id(), 1);
    assert_eq!(ids.new_id(), 2);
    assert_eq!(ids.new_id(), 3);
}

#[test]
fn inner_index_is_row_and_column() {
    assert_eq!(innner_midi_index(15, 127), 2047);
    assert_eq!(innner_midi_index(3, 5), 3 * 128 + 5);
    assert_eq!(innner_midi_index(0, 7), 7);
}

#[test]
fn midimap_index_of_each_kind() {
    assert_eq!(midimap_index(MidiMessage::NoteOff(0, 0, 5)), (0, Some(5)));
    assert_eq!(midimap_index(MidiMessage::NoteOn(1, 9, 100)), (NOTE_ON_INDEX + 128 + 9, Some(100)));
    assert_eq!(
        midimap_index(MidiMessage::PolyphonicKeyPressure(15, 127, 1)),
        (2 * 2048 + 15 * 128 + 127, Some(1))
    );
    assert_eq!(
        midimap_index(MidiMessage::ControlChange(15, 3, 7)),
        (CONTROL_CHANGE_INDEX + 15 * 128 + 3, Some(7))
    );
    assert_eq!(midimap_index(MidiMessage::ProgramChange(1, 2)), (PROGRAM_CHANGE_INDEX + 128 + 2, None));
    assert_eq!(
        midimap_index(MidiMessage::ChannelPressure(15, 9)),
        (CHANNEL_PRESSURE_INDEX + 15, Some(9))
    );
    assert_eq!(CHANNEL_PRESSURE_INDEX + 15, 10255);
    assert!(10255 < NUMBER_OF_TEMPLATES);
}

#[test]
fn midimap_index_gives_one_slot_per_key() {
    let a = midimap_index(MidiMessage::NoteOn(0, 3, 10)).0;
    let b = midimap_index(MidiMessage::NoteOn(1, 1, 20)).0;
    assert_ne!(a, b);
    let c = midimap_index(MidiMessage::NoteOn(0, 3, 99)).0;
    assert_eq!(a, c);
    let d = midimap_index(MidiMessage::NoteOff(15, 127, 0)).0;
    let e = midimap_index(MidiMessage::NoteOn(0, 0, 0)).0;
    assert_ne!(d, e);
    let mut seen = std::collections::HashSet::new();
    for c in 0..16u8 {
        for d in 0..128u8 {
            assert!(seen.insert(midimap_index(MidiMessage::ControlChange(c, d, 0)).0));
            assert!(seen.insert(midimap_index(MidiMessage::NoteOn(c, d, 1)).0));
        }
        assert!(seen.insert(midimap_index(MidiMessage::ChannelPressure(c, 0)).0));
    }
}

#[test]
fn parse_channel_messages() {
    assert_eq!(parse_midi_message(&[0x90, 60, 100]), Some(MidiMessage::NoteOn(0, 60, 100)));
    assert_eq!(parse_midi_message(&[0x90, 60, 0]), Some(MidiMessage::NoteOff(0, 60, 0)));
    assert_eq!(parse_midi_message(&[0x85, 61, 2]), Some(MidiMessage::NoteOff(5, 61, 2)));
    assert_eq!(
        parse_midi_message(&[0xA3, 1, 2]),
        Some(MidiMessage::PolyphonicKeyPressure(3, 1, 2))
    );
    assert_eq!(parse_midi_message(&[0xBF, 3, 1]), Some(MidiMessage::ControlChange(15, 3, 1)));
    assert_eq!(parse_midi_message(&[0xC2, 5]), Some(MidiMessage::ProgramChange(2, 5)));
    assert_eq!(parse_midi_message(&[0xD4, 77, 200]), Some(MidiMessage::ChannelPressure(4, 77)));
    assert_eq!(parse_midi_message(&[0xB0, 1, 2, 3]), Some(MidiMessage::ControlChange(0, 1, 2)));
}

#[test]
fn parse_rejects_other_and_malformed_messages() {
    assert_eq!(parse_midi_message(&[]), None);
    assert_eq!(parse_midi_message(&[0x40, 1, 2]), None);
    assert_eq!(parse_midi_message(&[0x80, 60]), None);
    assert_eq!(parse_midi_message(&[0x90, 60, 0x80]), None);
    assert_eq!(parse_midi_message(&[0xC0]), None);
    assert_eq!(parse_midi_message(&[0xE0, 0, 64]), None);
    assert_eq!(parse_midi_message(&[0xF8]), None);
    assert_eq!(parse_midi_message(&[0xF0, 1, 2, 0xF7]), None);
}

#[test]
fn midimap_get_after_set() {
    let mut map = MidiMap::new();
    let play = MidiMessage::ControlChange(15, 3, 0);
    let pause = MidiMessage::ControlChange(15, 3, 1);
    let other = MidiMessage::ControlChange(15, 4, 0);
    map.set(ParamTemplate { ix: 3, param_ix: 0 }, play);
    map.set(ParamTemplate { ix: 3, param_ix: 1 }, pause);
    let (templates, value) = map.get(play);
    assert_eq!(
        templates,
        &vec![ParamTemplate { ix: 3, param_ix: 0 }, ParamTemplate { ix: 3, param_ix: 1 }]
    );
    assert_eq!(value, Some(0));
    let (templates, value) = map.get(other);
    assert!(templates.is_empty());
    assert_eq!(value, Some(0));
    let (_, value) = map.get(MidiMessage::ProgramChange(0, 0));
    assert_eq!(value, None);
}

#[test]
fn process_message_fills_the_template() {
    let t = ParamTemplate { ix: 7, param_ix: 2 };
    assert_eq!(process_message(&t, 99), ParamUpdate { ix: 7, param_ix: 2, value: 99 });
}

#[test]
fn play_pause_and_gain_bytes() {
    assert_eq!(play(3), vec![0xBF, 3, 0]);
    assert_eq!(pause(3), vec![0xBF, 3, 1]);
    assert_eq!(gain(9, 64), vec![0xBF, 9, 64]);
    assert_eq!(
        get_play_pause_midi_messages(5),
        (MidiMessage::ControlChange(15, 5, 0), MidiMessage::ControlChange(15, 5, 1))
    );
    assert_eq!(get_gain_midi_messages(5, 100), MidiMessage::ControlChange(15, 5, 100));
}

#[test]
fn encoded_messages_decode_back() {
    let (play_message, pause_message) = get_play_pause_midi_messages(12);
    assert_eq!(parse_midi_message(&play(12)), Some(play_message));
    assert_eq!(parse_midi_message(&pause(12)), Some(pause_message));
    assert_eq!(parse_midi_message(&gain(12, 127)), Some(get_gain_midi_messages(12, 127)));
}

#[test]
fn engine_ids_and_root() {
    let (_midi, producer) = MidiEngine::new();
    let mut engine = Engine::new(producer);
    assert_eq!(engine.add_module(), 1);
    assert!(engine.update_root().is_empty());
    assert_eq!(engine.add(), 2);
    assert_eq!(engine.update_root(), vec![(2, 0)]);
    assert_eq!(engine.add(), 3);
    assert_eq!(engine.update_root(), vec![(2, 0), (3, 0)]);
    assert_eq!(engine.add_root(&[(1, 0), (2, 0)]), 0);
    assert_eq!(engine.update_root(), vec![(1, 0), (2, 0)]);
}

#[test]
fn load_core_player_gives_player_and_gain_ids() {
    let (_midi, producer) = MidiEngine::new();
    let mut engine = Engine::new(producer);
    assert_eq!(load_core_player(&mut engine), (1, 2));
    assert_eq!(load_core_player(&mut engine), (3, 4));
    assert_eq!(engine.update_root(), vec![(2, 0), (4, 0)]);
}

#[test]
fn midi_engine_routes_play_and_pause_to_the_player() {
    let (mut midi, producer) = MidiEngine::new();
    let mut engine = Engine::new(producer);
    let (id, gain_id) = load_core_player(&mut engine);
    let updates = midi.handle_midi_message(&play(id));
    assert_eq!(
        updates,
        vec![
            ParamUpdate { ix: id as usize, param_ix: 0, value: 0 },
            ParamUpdate { ix: id as usize, param_ix: 1, value: 0 },
        ]
    );
    let updates = midi.handle_midi_message(&pause(id));
    assert_eq!(
        updates,
        vec![
            ParamUpdate { ix: id as usize, param_ix: 0, value: 1 },
            ParamUpdate { ix: id as usize, param_ix: 1, value: 1 },
        ]
    );
    let updates = midi.handle_midi_message(&gain(gain_id, 90));
    assert_eq!(updates, vec![ParamUpdate { ix: gain_id as usize, param_ix: 0, value: 90 }]);
    let updates = midi.handle_midi_message(&[0x90, 60, 100]);
    assert!(updates.is_empty());

    let mut player = Player::new(10, None, None);
    for u in midi.handle_midi_message(&play(id)) {
        player.set_param(u.param_ix, u.value);
    }
    assert_eq!(player.process(), Some(0));
    for u in midi.handle_midi_message(&pause(id)) {
        player.set_param(u.param_ix, u.value);
    }
    assert_eq!(player.process(), None);
}

#[test]
fn registrations_are_taken_in_order() {
    let (mut midi, producer) = MidiEngine::new();
    let mut engine = Engine::new(producer);
    register_midi_map(&mut engine, 5);
    register_midi_map_gain(&mut engine, 5);
    let updates = midi.handle_midi_message(&[0xBF, 5, 33]);
    assert_eq!(
        updates,
        vec![
            ParamUpdate { ix: 5, param_ix: 0, value: 33 },
            ParamUpdate { ix: 5, param_ix: 1, value: 33 },
            ParamUpdate { ix: 5, param_ix: 0, value: 33 },
        ]
    );
}

#[test]
fn program_change_carries_value_zero() {
    let (mut midi, producer) = MidiEngine::new();
    let mut engine = Engine::new(producer);
    engine.register_midi_message(
        ParamTemplate { ix: 4, param_ix: 2 },
        MidiMessage::ProgramChange(0, 10),
    );
    midi.update_midi_map();
    let updates = midi.handle_midi_message(&[0xC0, 10]);
    assert_eq!(updates, vec![ParamUpdate { ix: 4, param_ix: 2, value: 0 }]);
}

#[test]
fn player_loops_over_whole_track() {
    let mut player = Player::new(4, None, Some(PlayerState::Play));
    let played: Vec<Option<usize>> = (0..9).map(|_| player.process()).collect();
    assert_eq!(
        played,
        vec![Some(0), Some(1), Some(2), Some(3), Some(0), Some(1), Some(2), Some(3), Some(0)]
    );
}

#[test]
fn one_chunk_track_repeats() {
    let mut player = Player::new(1, None, Some(PlayerState::Play));
    assert_eq!(player.process(), Some(0));
    assert_eq!(player.process(), Some(0));
    assert_eq!(player.process(), Some(0));
}

#[test]
fn player_starts_at_cursor() {
    let mut player = Player::new(4, Some(2), Some(PlayerState::Play));
    assert_eq!(player.process(), Some(2));
    assert_eq!(player.process(), Some(3));
    assert_eq!(player.process(), Some(0));
}

#[test]
fn paused_player_is_silent_and_keeps_its_place() {
    let mut player = Player::new(5, Some(1), None);
    assert_eq!(player.process(), None);
    assert_eq!(player.process(), None);
    player.set_param(0, 0);
    assert_eq!(player.process(), Some(1));
}

#[test]
fn player_set_param_values() {
    let mut player = Player::new(5, None, Some(PlayerState::Play));
    player.set_param(0, 1);
    assert_eq!(player.process(), None);
    player.set_param(1, 7);
    assert_eq!(player.process(), None);
    player.set_param(1, 0);
    assert_eq!(player.process(), Some(0));
    player.set_param(3, 200);
    assert_eq!(player.process(), Some(1));
}

#[test]
fn modules_have_two_outputs() {
    assert_eq!(Player::new(1, None, None).n_bufs_out(), 2);
    assert_eq!(Mixer {}.n_bufs_out(), 2);
    assert_eq!(Root {}.n_bufs_out(), 2);
}

#[test]
fn root_copies_first_input() {
    let root = Root {};
    assert_eq!(root.process(0), None);
    assert_eq!(root.process(1), Some(0));
    assert_eq!(root.process(3), Some(0));
}

#[test]
fn chunks_drop_the_incomplete_tail() {
    let mut track: Vec<Vec<f32>> = vec![vec![9.0, 9.0]];
    push_chunks(&mut track, &[1.0, 2.0, 3.0, 4.0, 5.0], 2);
    assert_eq!(track, vec![vec![9.0, 9.0], vec![1.0, 2.0], vec![3.0, 4.0]]);
    let mut track: Vec<Vec<i32>> = Vec::new();
    push_chunks(&mut track, &[1, 2], 3);
    assert!(track.is_empty());
    push_chunks(&mut track, &[1, 2, 3], 3);
    assert_eq!(track, vec![vec![1, 2, 3]]);
}

#[test]
fn add_player_flow() {
    let mut add = AddPlayer::new();
    let mut players: Vec<PlayerControl> = Vec::new();
    assert!(!add.wants_path());
    add.run(false, None, &mut players);
    assert!(!add.wants_path());
    add.run(true, None, &mut players);
    assert!(add.wants_path());
    add.run(false, None, &mut players);
    assert!(add.wants_path());
    assert!(players.is_empty());
    add.run(false, Some(("a.mp3".to_string(), 1)), &mut players);
    assert!(!add.wants_path());
    assert_eq!(players.len(), 1);
    assert_eq!(players[0].path_str(), "a.mp3");
    assert_eq!(players[0].run(true, false), vec![vec![0xBF, 1, 0]]);
    add.run(false, Some(("b.mp3".to_string(), 3)), &mut players);
    assert_eq!(players.len(), 1);
}

#[test]
fn player_control_sends_play_and_pause() {
    let mut control = PlayerControl::new("music/track.mp3".to_string(), 6);
    assert_eq!(control.path_str(), "music/track.mp3");
    assert!(control.run(false, false).is_empty());
    assert_eq!(control.run(true, false), vec![vec![0xBF, 6, 0]]);
    assert_eq!(control.run(false, true), vec![vec![0xBF, 6, 1]]);
    assert_eq!(control.run(true, true), vec![vec![0xBF, 6, 0], vec![0xBF, 6, 1]]);
}

#[test]
fn route_queue_holds_fifty_routes() {
    let (mut midi, producer) = MidiEngine::new();
    let mut engine = Engine::new(producer);
    for i in 0..55usize {
        engine.register_midi_message(
            ParamTemplate { ix: i, param_ix: 0 },
            MidiMessage::ControlChange(0, 9, 0),
        );
    }
    let updates = midi.handle_midi_message(&[0xB0, 9, 4]);
    assert_eq!(updates.len(), 50);
    assert_eq!(updates[0], ParamUpdate { ix: 0, param_ix: 0, value: 4 });
    assert_eq!(updates[49], ParamUpdate { ix: 49, param_ix: 0, value: 4 });
}

#[test]
fn iced_window_adds_plays_and_pauses() {
    let mut window = Kteach::new();
    assert_eq!(window.len(), 0);
    assert_eq!(window.update(Message::AddPlayer, None), Action::Nothing);
    assert_eq!(
        window.update(Message::AddPlayer, Some("a.mp3".to_string())),
        Action::Load("a.mp3".to_string(), 0)
    );
    window.add_player("a.mp3".to_string(), (1, 2));
    assert_eq!(
        window.update(Message::AddPlayer, Some("b.mp3".to_string())),
        Action::Load("b.mp3".to_string(), 1)
    );
    window.add_player("b.mp3".to_string(), (3, 4));
    assert_eq!(window.len(), 2);
    assert_eq!(window.update(Message::Play(1), None), Action::Send(vec![0xBF, 3, 0]));
    assert_eq!(window.update(Message::Pause(0), None), Action::Send(vec![0xBF, 1, 1]));
}

#[test]
fn iced_player_gain() {
    let mut player = WindowPlayer::new("a.mp3".to_string(), 0, (1, 2));
    assert_eq!(player.path_str(), "a.mp3");
    assert_eq!(player.play(), vec![0xBF, 1, 0]);
    assert_eq!(player.pause(), vec![0xBF, 1, 1]);
    assert_eq!(player.gain(64), vec![0xBF, 2, 64]);
}
