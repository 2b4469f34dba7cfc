use vstd::prelude::*;

use crate::message::{spec_decode, MidiMessage};
use crate::wire::wmidi_decode;
use crate::queue::{
    route_ends_match, route_pushed, consumer_capacity, new_route_buffer, pop_route, route_consumer_capacity, split_route_buffer,
};
use ringbuf::{Consumer, Producer};

verus! {

/// Room reserved in each slot of the routing table (chosen freely).
pub const MIDI_MAP_CAPACITY: usize = 10;

pub const NUMBER_OF_MIDI_CHANNELS: usize = 16;

/// Control functions, notes and program numbers are 7-bit values.
pub const NUMBER_OF_MIDI_OPTIONAL_INDEXES: usize = 128;

/// Number of slots of the routing table:
///
/// note_off = channels * notes                      21376 +
/// note_on = channels * notes                       21376 +
/// polyphonic_key_pressure = channels * notes       21376 +
/// control_change = channels * control_functions    21376 +
/// program_change = channels * program_numbers      21376 +
/// channel_pressure = channels                         16 +
///                                                  -------
///                                                  106896
pub const NUMBER_OF_TEMPLATES: usize = 106896;

pub const NOTE_OFF_INDEX: usize = 0 * NUMBER_OF_MIDI_CHANNELS * NUMBER_OF_MIDI_OPTIONAL_INDEXES;
pub const NOTE_ON_INDEX: usize = 1 * NUMBER_OF_MIDI_CHANNELS * NUMBER_OF_MIDI_OPTIONAL_INDEXES;
pub const PK_PRESSURE_INDEX: usize = 2 * NUMBER_OF_MIDI_CHANNELS * NUMBER_OF_MIDI_OPTIONAL_INDEXES;
pub const CONTROL_CHANGE_INDEX: usize = 3 * NUMBER_OF_MIDI_CHANNELS
    * NUMBER_OF_MIDI_OPTIONAL_INDEXES;
pub const PROGRAM_CHANGE_INDEX: usize = 4 * NUMBER_OF_MIDI_CHANNELS
    * NUMBER_OF_MIDI_OPTIONAL_INDEXES;
pub const CHANNEL_PRESSURE_INDEX: usize = 5 * NUMBER_OF_MIDI_CHANNELS
    * NUMBER_OF_MIDI_OPTIONAL_INDEXES;

/// Capacity of the queue that carries new routes to the MIDI engine.
pub const MAP_CONTROLLER_CAPACITY: usize = 50;

/// Which parameter of which audio node a MIDI message drives.
#[derive(Clone, Copy, PartialEq, Eq, Debug, Structural)]
pub struct ParamTemplate {
    /// The node.
    pub ix: usize,
    /// The parameter of the node.
    pub param_ix: usize,
}

/// A parameter change for the audio worker: the template's node and
/// parameter, and the 7-bit value that the MIDI message carried.
#[derive(Clone, Copy, PartialEq, Eq, Debug, Structural)]
pub struct ParamUpdate {
    pub ix: usize,
    pub param_ix: usize,
    pub value: u8,
}

/// The offset of (channel, data) within the block of slots of one kind.
pub open spec fn spec_offset(channel: int, data: int) -> int {
    channel * NUMBER_OF_MIDI_OPTIONAL_INDEXES + data
}

/// The slot of a message in the routing table, and the value it carries.
///
/// Each kind has a block of 16 * 128 slots, one per channel and note (or
/// control function, or program number); the slot is the block's base plus
/// channel * 128 + data. Channel pressure has one slot per channel. A program
/// change carries no value.
pub open spec fn spec_midimap_index(m: MidiMessage) -> (int, Option<u8>) {
    match m {
        MidiMessage::NoteOff(c, n, v) => (NOTE_OFF_INDEX + spec_offset(c as int, n as int), Some(v)),
        MidiMessage::NoteOn(c, n, v) => (NOTE_ON_INDEX + spec_offset(c as int, n as int), Some(v)),
        MidiMessage::PolyphonicKeyPressure(c, n, v) => (
            PK_PRESSURE_INDEX + spec_offset(c as int, n as int),
            Some(v),
        ),
        MidiMessage::ControlChange(c, f, v) => (
            CONTROL_CHANGE_INDEX + spec_offset(c as int, f as int),
            Some(v),
        ),
        MidiMessage::ProgramChange(c, p) => (
            PROGRAM_CHANGE_INDEX + spec_offset(c as int, p as int),
            None,
        ),
        MidiMessage::ChannelPressure(c, v) => (CHANNEL_PRESSURE_INDEX + c, Some(v)),
    }
}

/// What tells two messages apart for routing: the kind, the channel, and the
/// note, control function or program number (channel pressure has no such
/// data, 0 stands for it). Velocities and control values are not part of it.
pub open spec fn spec_midi_key(m: MidiMessage) -> (int, int, int) {
    match m {
        MidiMessage::NoteOff(c, n, _) => (0, c as int, n as int),
        MidiMessage::NoteOn(c, n, _) => (1, c as int, n as int),
        MidiMessage::PolyphonicKeyPressure(c, n, _) => (2, c as int, n as int),
        MidiMessage::ControlChange(c, f, _) => (3, c as int, f as int),
        MidiMessage::ProgramChange(c, p) => (4, c as int, p as int),
        MidiMessage::ChannelPressure(c, _) => (5, c as int, 0),
    }
}

/// The slot of a well-formed message is the base of its kind's block plus
/// an offset inside that block.
proof fn lemma_slot_in_block(m: MidiMessage)
    requires
        m.wf(),
    ensures
        spec_midimap_index(m).0 == spec_midi_key(m).0 * 2048 + (if m is ChannelPressure {
            spec_midi_key(m).1
        } else {
            spec_offset(spec_midi_key(m).1, spec_midi_key(m).2)
        }),
        0 <= spec_midi_key(m).1 < 16,
        0 <= spec_midi_key(m).2 < 128,
        0 <= spec_midimap_index(m).0 - spec_midi_key(m).0 * 2048 < 2048,
{
}

/// Every slot of a well-formed message lies in the table.
pub proof fn lemma_midimap_index_in_table(m: MidiMessage)
    requires
        m.wf(),
    ensures
        0 <= spec_midimap_index(m).0 < NUMBER_OF_TEMPLATES,
{
    lemma_slot_in_block(m);
}

/// One slot per key: well-formed messages that differ in kind, channel or
/// note (control function, program number) never share a slot, and messages
/// with the same key always do.
pub proof fn lemma_distinct_keys_distinct_slots(m1: MidiMessage, m2: MidiMessage)
    requires
        m1.wf(),
        m2.wf(),
    ensures
        (spec_midimap_index(m1).0 == spec_midimap_index(m2).0) <==> (spec_midi_key(m1)
            == spec_midi_key(m2)),
{
    lemma_slot_in_block(m1);
    lemma_slot_in_block(m2);
}

/// The offset of a message within the slots of its kind: its channel's row of
/// 128 slots, then its data value.
pub fn innner_midi_index(channel: u8, optional_index: u8) -> (res: u16)
    requires
        channel < NUMBER_OF_MIDI_CHANNELS,
        optional_index < NUMBER_OF_MIDI_OPTIONAL_INDEXES,
    ensures
        res == spec_offset(channel as int, optional_index as int),
        res < NUMBER_OF_MIDI_CHANNELS * NUMBER_OF_MIDI_OPTIONAL_INDEXES,
{
    channel as u16 * NUMBER_OF_MIDI_OPTIONAL_INDEXES as u16 + optional_index as u16
}

/// The slot of `message` in the routing table, and the value it carries.
pub fn midimap_index(message: MidiMessage) -> (res: (usize, Option<u8>))
    requires
        message.wf(),
    ensures
        res.0 == spec_midimap_index(message).0,
        res.1 == spec_midimap_index(message).1,
        res.0 < NUMBER_OF_TEMPLATES,
{
    proof {
        lemma_midimap_index_in_table(message);
    }
    match message {
        MidiMessage::NoteOff(channel, note, velocity) => (
            NOTE_OFF_INDEX + innner_midi_index(channel, note) as usize,
            Some(velocity),
        ),
        MidiMessage::NoteOn(channel, note, velocity) => (
            NOTE_ON_INDEX + innner_midi_index(channel, note) as usize,
            Some(velocity),
        ),
        MidiMessage::PolyphonicKeyPressure(channel, note, velocity) => (
            PK_PRESSURE_INDEX + innner_midi_index(channel, note) as usize,
            Some(velocity),
        ),
        MidiMessage::ControlChange(channel, control_function, control_value) => (
            CONTROL_CHANGE_INDEX + innner_midi_index(channel, control_function) as usize,
            Some(control_value),
        ),
        MidiMessage::ProgramChange(channel, program_number) => (
            PROGRAM_CHANGE_INDEX + innner_midi_index(channel, program_number) as usize,
            None,
        ),
        MidiMessage::ChannelPressure(channel, velocity) => (
            CHANNEL_PRESSURE_INDEX + channel as usize,
            Some(velocity),
        ),
    }
}

/// Decodes wire bytes into one of the routed message kinds; `None` when the
/// bytes are malformed or hold another kind of message.
pub fn parse_midi_message(raw_midi_message: &[u8]) -> (res: Option<MidiMessage>)
    ensures
        res == spec_decode(raw_midi_message@),
        res matches Some(m) ==> m.wf(),
{
    wmidi_decode(raw_midi_message)
}

/// The update that a template gives for a message value.
pub open spec fn spec_process_message(template: ParamTemplate, val: u8) -> ParamUpdate {
    ParamUpdate { ix: template.ix, param_ix: template.param_ix, value: val }
}

/// Fills a parameter change from a template and the message value.
pub fn process_message(message_template: &ParamTemplate, val: u8) -> (res: ParamUpdate)
    ensures
        res == spec_process_message(*message_template, val),
{
    ParamUpdate { ix: message_template.ix, param_ix: message_template.param_ix, value: val }
}

/// The routing table after adding `template` to the slot of `m`.
pub open spec fn spec_set(
    map: Seq<Seq<ParamTemplate>>,
    template: ParamTemplate,
    m: MidiMessage,
) -> Seq<Seq<ParamTemplate>> {
    let idx = spec_midimap_index(m).0;
    map.update(idx, map[idx].push(template))
}

/// The templates in the slot of `m`.
pub open spec fn spec_get(map: Seq<Seq<ParamTemplate>>, m: MidiMessage) -> Seq<ParamTemplate> {
    map[spec_midimap_index(m).0]
}

/// The routing table after adding the routes in `regs`, in order.
pub open spec fn spec_set_all(
    map: Seq<Seq<ParamTemplate>>,
    regs: Seq<(ParamTemplate, MidiMessage)>,
) -> Seq<Seq<ParamTemplate>>
    decreases regs.len(),
{
    if regs.len() == 0 {
        map
    } else {
        spec_set(
            spec_set_all(map, regs.drop_last()),
            regs.last().0,
            regs.last().1,
        )
    }
}

/// Every message of `regs` is well formed.
pub open spec fn all_wf(regs: Seq<(ParamTemplate, MidiMessage)>) -> bool {
    forall|i: int| 0 <= i < regs.len() ==> (#[trigger] regs[i]).1.wf()
}

/// The empty routing table.
pub open spec fn empty_table() -> Seq<Seq<ParamTemplate>> {
    Seq::new(NUMBER_OF_TEMPLATES as nat, |i: int| Seq::<ParamTemplate>::empty())
}

/// The routing table: for each slot, the templates that a message of that
/// slot drives, in the order they were added.
pub struct MidiMap {
    map: Vec<Vec<ParamTemplate>>,
}

impl View for MidiMap {
    type V = Seq<Seq<ParamTemplate>>;

    closed spec fn view(&self) -> Seq<Seq<ParamTemplate>> {
        self.map@.map_values(|v: Vec<ParamTemplate>| v@)
    }
}

impl MidiMap {
    /// The table has one slot per possible message.
    pub open spec fn wf(&self) -> bool {
        self@.len() == NUMBER_OF_TEMPLATES
    }

    #[verifier::type_invariant]
    spec fn inv(self) -> bool {
        self.map@.len() == NUMBER_OF_TEMPLATES
    }

    pub fn new() -> (map: Self)
        ensures
            map.wf(),
            map@ == empty_table(),
    {
        let mut map: Vec<Vec<ParamTemplate>> = Vec::with_capacity(NUMBER_OF_TEMPLATES);
        let mut i: usize = 0;
        while i < NUMBER_OF_TEMPLATES
            invariant
                i <= NUMBER_OF_TEMPLATES,
                map@.len() == i,
                forall|j: int| 0 <= j < i ==> (#[trigger] map@[j])@ == Seq::<ParamTemplate>::empty(),
            decreases NUMBER_OF_TEMPLATES - i,
        {
            let void_param_templates: Vec<ParamTemplate> = Vec::with_capacity(MIDI_MAP_CAPACITY);
            map.push(void_param_templates);
            i = i + 1;
        }
        let res = MidiMap { map };
        assert(res@ =~= empty_table());
        res
    }

    /// The templates registered for the slot of `midi_message`, and the value
    /// that the message carries.
    pub fn get(&self, midi_message: MidiMessage) -> (res: (&Vec<ParamTemplate>, Option<u8>))
        requires
            midi_message.wf(),
        ensures
            res.0@ == spec_get(self@, midi_message),
            res.1 == spec_midimap_index(midi_message).1,
    {
        proof {
            use_type_invariant(self);
        }
        let (index, value) = midimap_index(midi_message);
        let templates = &self.map[index];
        (templates, value)
    }

    /// Adds `template` to the slot of `midi_message`.
    pub fn set(&mut self, template: ParamTemplate, midi_message: MidiMessage)
        requires
            midi_message.wf(),
        ensures
            final(self).wf(),
            final(self)@ == spec_set(old(self)@, template, midi_message),
    {
        proof {
            use_type_invariant(&*self);
        }
        let (index, _) = midimap_index(midi_message);
        self.map[index].push(template);
        assert(self@ =~= spec_set(old(self)@, template, midi_message));
    }
}

/// A route on its way to the MIDI engine: a template and the message that
/// will drive it. The message is always well formed.
pub struct Registration {
    template: ParamTemplate,
    message: MidiMessage,
}

impl Registration {
    #[verifier::type_invariant]
    spec fn inv(self) -> bool {
        self.message.wf()
    }

    pub closed spec fn template(self) -> ParamTemplate {
        self.template
    }

    pub closed spec fn message(self) -> MidiMessage {
        self.message
    }

    pub fn new(template: ParamTemplate, message: MidiMessage) -> (r: Self)
        requires
            message.wf(),
        ensures
            r.template() == template,
            r.message() == message,
    {
        Registration { template, message }
    }

    pub fn into_parts(self) -> (res: (ParamTemplate, MidiMessage))
        ensures
            res.0 == self.template(),
            res.1 == self.message(),
            res.1.wf(),
    {
        proof {
            use_type_invariant(&self);
        }
        (self.template, self.message)
    }
}

/// The deciding part of the MIDI input: it keeps the routing table, takes new
/// routes from its queue, and turns each incoming message into the parameter
/// changes that the routes give.
pub struct MidiEngine {
    midi_map: MidiMap,
    map_controller: Consumer<Registration>,
    /// Every route popped from the queue, in the order popped.
    taken: Ghost<Seq<(ParamTemplate, MidiMessage)>>,
}

impl MidiEngine {
    pub open spec fn wf(&self) -> bool {
        self.map().wf()
    }

    /// The routing table.
    pub closed spec fn map(&self) -> MidiMap {
        self.midi_map
    }

    /// Every route popped from the queue so far, in the order popped.
    pub closed spec fn taken(&self) -> Seq<(ParamTemplate, MidiMessage)> {
        self.taken@
    }

    /// Whether the routes that `producer` pushes come into this engine's queue.
    pub closed spec fn fed_by(&self, producer: Producer<Registration>) -> bool {
        route_ends_match(producer, self.map_controller)
    }

    /// The capacity of the queue that carries new routes in.
    pub closed spec fn queue_capacity(&self) -> nat {
        consumer_capacity(self.map_controller)
    }

    /// A MIDI engine with an empty table, and the producing end of the queue
    /// that carries new routes to it.
    pub fn new() -> (res: (Self, Producer<Registration>))
        ensures
            res.0.wf(),
            res.0.map()@ == empty_table(),
            res.0.queue_capacity() == MAP_CONTROLLER_CAPACITY,
            res.0.fed_by(res.1),
            res.0.taken() == Seq::<(ParamTemplate, MidiMessage)>::empty(),
            route_pushed(res.1) == Seq::<(ParamTemplate, MidiMessage)>::empty(),
    {
        let update_map_buffer = new_route_buffer(MAP_CONTROLLER_CAPACITY);
        let (update_map_producer, update_map_consumer) = split_route_buffer(update_map_buffer);
        (
            MidiEngine {
                midi_map: MidiMap::new(),
                map_controller: update_map_consumer,
                taken: Ghost(Seq::empty()),
            },
            update_map_producer,
        )
    }

    /// Pops the oldest waiting route, if any, and records it as taken.
    fn take_route(&mut self) -> (popped: Option<Registration>)
        ensures
            final(self).midi_map == old(self).midi_map,
            final(self).queue_capacity() == old(self).queue_capacity(),
            keeps_feeds(*old(self), *final(self)),
            popped is None ==> final(self).taken() == old(self).taken(),
            popped matches Some(r) ==> final(self).taken() == old(self).taken().push(
                (r.template(), r.message()),
            ),
    {
        let popped = pop_route(&mut self.map_controller);
        proof {
            if popped is Some {
                self.taken@ = self.taken@.push((popped->0.template(), popped->0.message()));
            }
            assert forall|p: Producer<Registration>| old(self).fed_by(p) implies #[trigger] self.fed_by(
                p,
            ) by {
                assert(route_ends_match(p, old(self).map_controller));
            }
        }
        popped
    }

    /// One step of taking routes from the queue: adds a popped route to the
    /// table and tells to go on, or, when the queue gave nothing, leaves the
    /// table and tells to stop.
    pub fn apply_route(&mut self, popped: Option<Registration>) -> (go_on: bool)
        ensures
            go_on == popped is Some,
            final(self).wf(),
            final(self).queue_capacity() == old(self).queue_capacity(),
            keeps_feeds(*old(self), *final(self)),
            final(self).taken() == old(self).taken(),
            popped is None ==> final(self).map()@ == old(self).map()@,
            popped matches Some(r) ==> r.message().wf() && final(self).map()@ == spec_set(
                old(self).map()@,
                r.template(),
                r.message(),
            ),
    {
        proof {
            use_type_invariant(&self.midi_map);
        }
        match popped {
            None => false,
            Some(registration) => {
                let (template, midi_message) = registration.into_parts();
                self.midi_map.set(template, midi_message);
                true
            },
        }
    }

    /// Adds the routes waiting in the queue to the table, in the order they
    /// were pushed, taking at most the queue's capacity of them.
    pub fn update_midi_map(&mut self)
        ensures
            final(self).wf(),
            final(self).queue_capacity() == old(self).queue_capacity(),
            keeps_feeds(*old(self), *final(self)),
            final(self).taken().len() >= old(self).taken().len(),
            final(self).taken().take(old(self).taken().len() as int) == old(self).taken(),
            final(self).taken().len() - old(self).taken().len() <= old(self).queue_capacity(),
            final(self).map()@ == spec_set_all(
                old(self).map()@,
                final(self).taken().skip(old(self).taken().len() as int),
            ),
            exists|regs: Seq<(ParamTemplate, MidiMessage)>|
                #![trigger spec_set_all(old(self).map()@, regs)]
                regs.len() <= old(self).queue_capacity() && all_wf(regs) && final(self).map()@
                    == spec_set_all(old(self).map()@, regs),
    {
        proof {
            use_type_invariant(&self.midi_map);
        }
        let capacity = route_consumer_capacity(&self.map_controller);
        let ghost regs: Seq<(ParamTemplate, MidiMessage)> = Seq::empty();
        let ghost start = self.midi_map@;
        let mut drained: usize = 0;
        assert(spec_set_all(start, regs) == start);
        while drained < capacity
            invariant
                drained <= capacity,
                capacity == old(self).queue_capacity(),
                self.queue_capacity() == old(self).queue_capacity(),
                keeps_feeds(*old(self), *self),
                regs.len() == drained,
                all_wf(regs),
                self.midi_map.wf(),
                self.midi_map@ == spec_set_all(start, regs),
                self.taken@ == old(self).taken@ + regs,
            decreases capacity - drained,
        {
            let ghost before = *self;
            let popped = self.take_route();
            let ghost mid = *self;
            let go_on = self.apply_route(popped);
            assert(keeps_feeds(*old(self), *self)) by {
                assert forall|p: Producer<Registration>| old(self).fed_by(p) implies #[trigger] self.fed_by(
                    p,
                ) by {
                    assert(before.fed_by(p));
                    assert(mid.fed_by(p));
                }
            }
            if !go_on {
                break;
            }
            proof {
                let (template, midi_message) = (popped->0.template(), popped->0.message());
                let old_regs = regs;
                regs = regs.push((template, midi_message));
                assert(regs.drop_last() == old_regs);
                assert(self.taken@ =~= old(self).taken@ + regs);
            }
            drained = drained + 1;
        }
        assert(start == old(self).map()@);
        assert(spec_set_all(old(self).map()@, regs) == self.map()@);
        assert(self.taken@.skip(old(self).taken@.len() as int) =~= regs);
        assert(self.taken@.take(old(self).taken@.len() as int) =~= old(self).taken@);
    }

    /// Takes the waiting routes, decodes `raw_midi_message`, and returns one
    /// parameter change per template in the message's slot, in the order the
    /// templates were added, each with the message's value (0 for a program
    /// change).
    pub fn handle_midi_message(&mut self, raw_midi_message: &[u8]) -> (updates: Vec<ParamUpdate>)
        requires
            spec_decode(raw_midi_message@) is Some,
        ensures
            final(self).wf(),
            final(self).queue_capacity() == old(self).queue_capacity(),
            keeps_feeds(*old(self), *final(self)),
            final(self).taken().len() >= old(self).taken().len(),
            final(self).taken().take(old(self).taken().len() as int) == old(self).taken(),
            final(self).taken().len() - old(self).taken().len() <= old(self).queue_capacity(),
            final(self).map()@ == spec_set_all(
                old(self).map()@,
                final(self).taken().skip(old(self).taken().len() as int),
            ),
            forall|i: int|
                0 <= i < updates@.len() ==> (#[trigger] updates@[i]).value == if raw_midi_message@[0]
                    / 16 == 12 {
                    0u8
                } else if raw_midi_message@[0] / 16 == 13 {
                    raw_midi_message@[1]
                } else {
                    raw_midi_message@[2]
                },
            exists|regs: Seq<(ParamTemplate, MidiMessage)>|
                #![trigger spec_set_all(old(self).map()@, regs)]
                regs.len() <= old(self).queue_capacity() && all_wf(regs) && final(self).map()@
                    == spec_set_all(old(self).map()@, regs),
            updates@ == spec_routed(final(self).map()@, spec_decode(raw_midi_message@)->0),
    {
        self.update_midi_map();
        let midi_message = wmidi_decode(raw_midi_message).unwrap();
        let (templates, value) = self.midi_map.get(midi_message);
        let val = match value {
            Some(v) => v,
            None => 0,
        };
        let mut updates: Vec<ParamUpdate> = Vec::new();
        let mut i: usize = 0;
        while i < templates.len()
            invariant
                i <= templates@.len(),
                updates@ == templates@.take(i as int).map_values(
                    |t: ParamTemplate| spec_process_message(t, val),
                ),
            decreases templates@.len() - i,
        {
            let update = process_message(&templates[i], val);
            updates.push(update);
            proof {
                assert(templates@.take(i + 1).drop_last() == templates@.take(i as int));
            }
            i = i + 1;
            assert(updates@ =~= templates@.take(i as int).map_values(
                |t: ParamTemplate| spec_process_message(t, val),
            ));
        }
        assert(templates@.take(templates@.len() as int) == templates@);
        updates
    }
}

/// Every producer that fed `pre` still feeds `post`.
pub open spec fn keeps_feeds(pre: MidiEngine, post: MidiEngine) -> bool {
    forall|p: Producer<Registration>| pre.fed_by(p) ==> #[trigger] post.fed_by(p)
}

/// The value that the routed changes carry for `m`: its data value, or 0 when
/// it has none.
pub open spec fn spec_routed_value(m: MidiMessage) -> u8 {
    match spec_midimap_index(m).1 {
        Some(v) => v,
        None => 0,
    }
}

/// The parameter changes that `m` gives under the routing table `map`.
pub open spec fn spec_routed(map: Seq<Seq<ParamTemplate>>, m: MidiMessage) -> Seq<ParamUpdate> {
    spec_get(map, m).map_values(|t: ParamTemplate| spec_process_message(t, spec_routed_value(m)))
}

} // verus!

verus! {

/// What a lookup gives back of an insertion: after adding `template` to the
/// slot of `m`, the slot of any message `m2` holds what it held, with
/// `template` at the end when `m2` shares the slot of `m`.
pub proof fn lemma_get_after_set(
    map: Seq<Seq<ParamTemplate>>,
    template: ParamTemplate,
    m: MidiMessage,
    m2: MidiMessage,
)
    requires
        map.len() == NUMBER_OF_TEMPLATES,
        m.wf(),
        m2.wf(),
    ensures
        spec_get(spec_set(map, template, m), m2) == if spec_midimap_index(m).0
            == spec_midimap_index(m2).0 {
            spec_get(map, m2).push(template)
        } else {
            spec_get(map, m2)
        },
        spec_set(map, template, m).len() == NUMBER_OF_TEMPLATES,
{
    lemma_midimap_index_in_table(m);
    lemma_midimap_index_in_table(m2);
}

/// Control changes on one channel with different control functions land in
/// different slots, whatever their values: each function can drive its own
/// parameters.
pub proof fn lemma_control_slots_distinct(channel: u8, f1: u8, v1: u8, f2: u8, v2: u8)
    requires
        channel < 16,
        f1 < 128,
        f2 < 128,
        v1 < 128,
        v2 < 128,
        f1 != f2,
    ensures
        spec_midimap_index(MidiMessage::ControlChange(channel, f1, v1)).0
            != spec_midimap_index(MidiMessage::ControlChange(channel, f2, v2)).0,
{
    lemma_distinct_keys_distinct_slots(
        MidiMessage::ControlChange(channel, f1, v1),
        MidiMessage::ControlChange(channel, f2, v2),
    );
}

/// A control change's value does not choose its slot.
pub proof fn lemma_control_slot_ignores_value(channel: u8, f: u8, v1: u8, v2: u8)
    ensures
        spec_midimap_index(MidiMessage::ControlChange(channel, f, v1)).0
            == spec_midimap_index(MidiMessage::ControlChange(channel, f, v2)).0,
{
}

} // verus!

verus! {

/// The templates of the routes in `regs` whose message has the key of `m`,
/// in the order of `regs`.
pub open spec fn spec_routes_for(regs: Seq<(ParamTemplate, MidiMessage)>, m: MidiMessage) -> Seq<
    ParamTemplate,
>
    decreases regs.len(),
{
    if regs.len() == 0 {
        Seq::empty()
    } else {
        let earlier = spec_routes_for(regs.drop_last(), m);
        if spec_midi_key(regs.last().1) == spec_midi_key(m) {
            earlier.push(regs.last().0)
        } else {
            earlier
        }
    }
}

/// A lookup after any sequence of insertions: the slot of `m` holds what it
/// held, followed by the templates of the inserted routes whose message has
/// the key of `m`, in the order they were inserted.
pub proof fn lemma_get_after_set_all(
    map: Seq<Seq<ParamTemplate>>,
    regs: Seq<(ParamTemplate, MidiMessage)>,
    m: MidiMessage,
)
    requires
        map.len() == NUMBER_OF_TEMPLATES,
        all_wf(regs),
        m.wf(),
    ensures
        spec_set_all(map, regs).len() == NUMBER_OF_TEMPLATES,
        spec_get(spec_set_all(map, regs), m) == spec_get(map, m) + spec_routes_for(regs, m),
    decreases regs.len(),
{
    if regs.len() == 0 {
        assert(spec_get(map, m) + Seq::<ParamTemplate>::empty() =~= spec_get(map, m));
    } else {
        let earlier = regs.drop_last();
        assert(all_wf(earlier)) by {
            assert forall|i: int| 0 <= i < earlier.len() implies (#[trigger] earlier[i]).1.wf() by {
                assert(earlier[i] == regs[i]);
            }
        }
        lemma_get_after_set_all(map, earlier, m);
        let last = regs.last();
        assert(last == regs[regs.len() - 1]);
        lemma_get_after_set(spec_set_all(map, earlier), last.0, last.1, m);
        lemma_distinct_keys_distinct_slots(last.1, m);
        if spec_midi_key(last.1) == spec_midi_key(m) {
            assert(spec_get(map, m) + spec_routes_for(earlier, m).push(last.0) =~= (spec_get(map, m)
                + spec_routes_for(earlier, m)).push(last.0));
        }
    }
}

/// A table built from empty by the routes `regs` gives for `m` exactly the
/// templates of the routes with the key of `m`, in registration order.
pub proof fn lemma_lookup_in_built_table(regs: Seq<(ParamTemplate, MidiMessage)>, m: MidiMessage)
    requires
        all_wf(regs),
        m.wf(),
    ensures
        spec_get(spec_set_all(empty_table(), regs), m) == spec_routes_for(regs, m),
{
    lemma_get_after_set_all(empty_table(), regs, m);
    lemma_midimap_index_in_table(m);
    assert(spec_get(empty_table(), m) + spec_routes_for(regs, m) =~= spec_routes_for(regs, m));
}

} // verus!

verus! {

/// The wiring between the engine and the MIDI engine survives the engine's
/// registrations: if the MIDI engine's queue is fed by the engine's producer
/// before a step that keeps the producer's ends, it still is after.
pub proof fn lemma_engine_still_feeds(
    midi: MidiEngine,
    pre: crate::engine::Engine,
    post: crate::engine::Engine,
)
    requires
        midi.fed_by(pre.route_producer()),
        crate::engine::keeps_route_ends(pre, post),
    ensures
        midi.fed_by(post.route_producer()),
{
    assert(route_ends_match(pre.route_producer(), midi.map_controller));
}

} // verus!

verus! {

/// The value that a decoded message carries to its parameters is the value
/// byte it has on the wire: the third byte (velocity, pressure or control
/// value) for the three-byte kinds, the second byte (pressure) for channel
/// pressure, and 0 for a program change, which has none.
pub proof fn lemma_routed_value_is_wire_value(b: Seq<u8>)
    requires
        spec_decode(b) is Some,
    ensures
        b[0] / 16 == 12 ==> spec_routed_value(spec_decode(b)->0) == 0,
        b[0] / 16 == 13 ==> spec_routed_value(spec_decode(b)->0) == b[1],
        b[0] / 16 != 12 && b[0] / 16 != 13 ==> spec_routed_value(spec_decode(b)->0) == b[2],
{
}

} // verus!

verus! {

/// A registration reaches a MIDI engine fed by the engine whenever its queue
/// has room: if fewer routes than the queue's capacity were pushed, the route
/// registered is the one appended to what the engine pushed.
pub proof fn lemma_registration_with_room_is_pushed(
    midi: MidiEngine,
    pre: crate::engine::Engine,
    post: crate::engine::Engine,
    r: (ParamTemplate, MidiMessage),
)
    requires
        midi.fed_by(pre.route_producer()),
        pre.pushed().len() < midi.queue_capacity(),
        crate::engine::pushes_when_room(pre, post, r),
    ensures
        post.pushed() == pre.pushed().push(r),
{
    assert(route_ends_match(pre.route_producer(), midi.map_controller));
}

/// On a fresh wiring (a new MIDI engine and an engine built on its producer),
/// the first registrations up to the queue's capacity all reach the queue.
pub proof fn lemma_fresh_wiring_has_room(midi: MidiEngine, engine: crate::engine::Engine)
    requires
        midi.fed_by(engine.route_producer()),
        midi.queue_capacity() == MAP_CONTROLLER_CAPACITY,
        engine.pushed() == Seq::<(ParamTemplate, MidiMessage)>::empty(),
    ensures
        engine.pushed().len() < midi.queue_capacity(),
{
}

} // verus!
