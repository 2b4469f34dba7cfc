use vstd::prelude::*;

use crate::message::MidiMessage;
use crate::midi::{ParamTemplate, Registration};
use crate::queue::{consumer_capacity, push_route, route_ends_match, route_pushed};
use ringbuf::{Consumer, Producer};

verus! {

/// Allocator of node identifiers for the audio graph.
///
/// Identifier 0 is reserved for the root node; fresh identifiers start at 1
/// and grow by one at each allocation.
pub struct Ids {
    last_id: i64,
    removed_id: Option<usize>,
}

impl Ids {
    /// No public call gives an identifier back, so none ever waits for reuse.
    #[verifier::type_invariant]
    spec fn inv(self) -> bool {
        self.last_id >= 0 && self.removed_id is None
    }

    /// The last identifier handed out (0 when none was).
    pub closed spec fn last(self) -> int {
        self.last_id as int
    }

    /// An identifier given back for reuse, if any.
    pub closed spec fn removed(self) -> Option<usize> {
        self.removed_id
    }

    /// Whether another identifier can be handed out without leaving the
    /// range of the counter or of `usize`.
    pub open spec fn can_allocate(self) -> bool {
        self.removed() is Some || (self.last() < i64::MAX && self.last() < usize::MAX)
    }

    pub fn new() -> (ids: Self)
        ensures
            ids.last() == 0,
            ids.removed() is None,
    {
        Ids { last_id: 0, removed_id: None }
    }

    /// The last identifier handed out.
    pub fn get_last(&self) -> (id: i64)
        ensures
            id == self.last(),
    {
        self.last_id
    }

    pub fn new_id(&mut self) -> (id: usize)
        requires
            old(self).can_allocate(),
        ensures
            new_id_post(*old(self), *final(self), id),
    {
        proof { use_type_invariant(&*self); }
        match self.removed_id {
            None => {
                self.last_id = self.last_id + 1;
                self.last_id as usize
            },
            Some(x) => {
                self.removed_id = None;
                x
            },
        }
    }
}

/// What one call of `Ids::new_id` does: reuse the identifier given back if
/// there is one, else count one up from the last identifier.
pub open spec fn new_id_post(pre: Ids, post: Ids, id: usize) -> bool {
    &&& post.removed() is None
    &&& pre.last() >= 0
    &&& match pre.removed() {
        Some(x) => id == x && post.last() == pre.last(),
        None => id == pre.last() + 1 && post.last() == pre.last() + 1,
    }
}

} // verus!

verus! {

/// The part of the audio engine that decides: it hands out node identifiers,
/// keeps the inputs of the root mixer, and sends new MIDI routes to the MIDI
/// engine.
pub struct Engine {
    midi_control_buffer: Producer<Registration>,
    ids: Ids,
    root: Vec<(usize, usize)>,
    /// Every route offered to the MIDI engine, in order.
    registered: Ghost<Seq<(ParamTemplate, MidiMessage)>>,
}

/// A copy of the links `links`.
fn copy_links(links: &[(usize, usize)]) -> (res: Vec<(usize, usize)>)
    ensures
        res@ == links@,
{
    let mut res: Vec<(usize, usize)> = Vec::new();
    let mut i: usize = 0;
    while i < links.len()
        invariant
            i <= links@.len(),
            res@ == links@.take(i as int),
        decreases links@.len() - i,
    {
        res.push(links[i]);
        i = i + 1;
        assert(res@ =~= links@.take(i as int));
    }
    assert(links@.take(links@.len() as int) =~= links@);
    res
}

impl Engine {
    /// No identifier is waiting to be reused.
    pub open spec fn wf(&self) -> bool {
        self.removed_id() is None
    }

    /// The last node identifier handed out.
    pub closed spec fn last_id(&self) -> int {
        self.ids.last()
    }

    pub closed spec fn removed_id(&self) -> Option<usize> {
        self.ids.removed()
    }

    /// The inputs of the root mixer: (node, output buffer) pairs.
    pub closed spec fn root(&self) -> Seq<(usize, usize)> {
        self.root@
    }

    /// The producing end of the queue that carries routes to the MIDI engine.
    pub closed spec fn route_producer(&self) -> Producer<Registration> {
        self.midi_control_buffer
    }

    /// The routes that reached the MIDI engine's queue, in order.
    pub open spec fn pushed(&self) -> Seq<(ParamTemplate, MidiMessage)> {
        route_pushed(self.route_producer())
    }

    /// Every route offered to the MIDI engine, in order.
    pub closed spec fn registered(&self) -> Seq<(ParamTemplate, MidiMessage)> {
        self.registered@
    }

    /// Another identifier fits.
    pub open spec fn can_add(&self) -> bool {
        self.last_id() < i64::MAX && self.last_id() < usize::MAX
    }

    /// The last node identifier handed out.
    pub fn get_last_id(&self) -> (id: i64)
        ensures
            id == self.last_id(),
    {
        self.ids.get_last()
    }

    /// An engine that sends its routes through `midi_control_buffer`.
    pub fn new(midi_control_buffer: Producer<Registration>) -> (engine: Self)
        ensures
            engine.wf(),
            engine.route_producer() == midi_control_buffer,
            engine.last_id() == 0,
            engine.root() == Seq::<(usize, usize)>::empty(),
            engine.registered() == Seq::<(ParamTemplate, MidiMessage)>::empty(),
    {
        Engine { midi_control_buffer, ids: Ids::new(), root: Vec::new(), registered: Ghost(Seq::empty()) }
    }

    /// A fresh identifier for a node outside the root mixer.
    pub fn add_module(&mut self) -> (id: usize)
        requires
            old(self).can_add(),
        ensures
            final(self).wf(),
            allocates(*old(self), *final(self), id),
            final(self).root() == old(self).root(),
            final(self).registered() == old(self).registered(),
            final(self).route_producer() == old(self).route_producer(),
    {
        proof {
            use_type_invariant(&self.ids);
        }
        self.ids.new_id()
    }

    /// Makes `audio_in_out` the inputs of the root node, whose identifier is 0.
    pub fn add_root(&mut self, audio_in_out: &[(usize, usize)]) -> (id: usize)
        ensures
            final(self).wf(),
            id == 0,
            final(self).root() == audio_in_out@,
            keeps_ids(*old(self), *final(self)),
            final(self).registered() == old(self).registered(),
            final(self).route_producer() == old(self).route_producer(),
    {
        proof {
            use_type_invariant(&self.ids);
        }
        let new_root = copy_links(audio_in_out);
        self.root = new_root;
        0
    }

    /// A fresh identifier for a node whose first output joins the root mixer.
    pub fn add(&mut self) -> (id: usize)
        requires
            old(self).can_add(),
        ensures
            final(self).wf(),
            allocates(*old(self), *final(self), id),
            final(self).root() == old(self).root().push((id, 0usize)),
            final(self).registered() == old(self).registered(),
            final(self).route_producer() == old(self).route_producer(),
    {
        proof {
            use_type_invariant(&self.ids);
        }
        let id = self.ids.new_id();
        self.root.push((id, 0));
        id
    }

    /// The inputs of the root mixer, to rebuild it with.
    pub fn update_root(&self) -> (audio_in_out: Vec<(usize, usize)>)
        ensures
            audio_in_out@ == self.root(),
    {
        copy_links(self.root.as_slice())
    }

    /// Offers the route (`template`, `midi_message`) to the MIDI engine. When
    /// its queue is full the route is dropped.
    pub fn register_midi_message(&mut self, template: ParamTemplate, midi_message: MidiMessage)
        requires
            midi_message.wf(),
        ensures
            final(self).wf(),
            keeps_ids(*old(self), *final(self)),
            final(self).root() == old(self).root(),
            final(self).registered() == old(self).registered().push((template, midi_message)),
            pushed_some(old(self).pushed(), final(self).pushed(), seq![(template, midi_message)]),
            keeps_route_ends(*old(self), *final(self)),
            pushes_when_room(*old(self), *final(self), (template, midi_message)),
    {
        proof {
            use_type_invariant(&self.ids);
        }
        let _ = push_route(&mut self.midi_control_buffer, Registration::new(template, midi_message));
        proof {
            lemma_pushed_one(old(self).pushed(), self.pushed(), (template, midi_message));
        }
        proof {
            self.registered@ = self.registered@.push((template, midi_message));
        }
    }
}

} // verus!

verus! {

/// Identifiers are never handed out twice: of two successive allocations from
/// an allocator with no identifier to reuse, the second gives a larger
/// identifier than the first.
pub proof fn lemma_successive_ids_increase(a: Ids, b: Ids, c: Ids, first: usize, second: usize)
    requires
        a.removed() is None,
        new_id_post(a, b, first),
        new_id_post(b, c, second),
    ensures
        first < second,
        first >= 1,
{
}

} // verus!

verus! {

/// An engine step that hands out `id`: the next identifier after the last.
pub open spec fn allocates(pre: Engine, post: Engine, id: usize) -> bool {
    id == pre.last_id() + 1 && post.last_id() == id
}

/// When the queue behind the engine's producer has room (fewer routes were
/// pushed than its capacity), the route `r` was pushed.
pub open spec fn pushes_when_room(pre: Engine, post: Engine, r: (ParamTemplate, MidiMessage)) -> bool {
    forall|c: Consumer<Registration>|
        #[trigger] route_ends_match(pre.route_producer(), c) && pre.pushed().len()
            < consumer_capacity(c) ==> post.pushed() == pre.pushed().push(r)
}

/// The engine's route producer still feeds every consumer it fed.
pub open spec fn keeps_route_ends(pre: Engine, post: Engine) -> bool {
    forall|c: Consumer<Registration>|
        route_ends_match(pre.route_producer(), c) ==> #[trigger] route_ends_match(
            post.route_producer(),
            c,
        )
}

/// An engine step that hands out no identifier.
pub open spec fn keeps_ids(pre: Engine, post: Engine) -> bool {
    post.last_id() == pre.last_id()
}

/// The number of steps of `ops` that handed out an identifier.
pub open spec fn count_allocations(ops: Seq<Option<usize>>) -> nat
    decreases ops.len(),
{
    if ops.len() == 0 {
        0
    } else {
        count_allocations(ops.drop_last()) + if ops.last() is Some {
            1nat
        } else {
            0nat
        }
    }
}

/// `states` is a run of engine steps: step `i` goes from `states[i]` to
/// `states[i + 1]` and hands out `ops[i]`'s identifier when it has one
/// (`add`, `add_module`), none otherwise (`add_root`, `register_midi_message`).
pub open spec fn engine_run(states: Seq<Engine>, ops: Seq<Option<usize>>) -> bool {
    &&& states.len() == ops.len() + 1
    &&& forall|i: int|
        0 <= i < ops.len() ==> match #[trigger] ops[i] {
            Some(id) => allocates(states[i], states[i + 1], id),
            None => keeps_ids(states[i], states[i + 1]),
        }
}

proof fn lemma_count_take_step(ops: Seq<Option<usize>>, i: int)
    requires
        0 <= i < ops.len(),
    ensures
        count_allocations(ops.take(i + 1)) == count_allocations(ops.take(i)) + if ops[i] is Some {
            1nat
        } else {
            0nat
        },
{
    assert(ops.take(i + 1).drop_last() =~= ops.take(i));
}

proof fn lemma_count_monotone(ops: Seq<Option<usize>>, i: int, j: int)
    requires
        0 <= i <= j <= ops.len(),
    ensures
        count_allocations(ops.take(i)) <= count_allocations(ops.take(j)),
    decreases j - i,
{
    if i < j {
        lemma_count_take_step(ops, j - 1);
        lemma_count_monotone(ops, i, j - 1);
    }
}

/// Identifiers over any run of an engine that started with none handed out:
/// the `k`-th identifier handed out is `k`, so identifiers are never 0 and
/// never repeat, each larger than every earlier one.
pub proof fn lemma_engine_ids_count_allocations(states: Seq<Engine>, ops: Seq<Option<usize>>)
    requires
        engine_run(states, ops),
        states[0].last_id() == 0,
    ensures
        forall|i: int|
            0 <= i <= ops.len() ==> (#[trigger] states[i]).last_id() == count_allocations(
                ops.take(i),
            ),
        forall|i: int|
            0 <= i < ops.len() && (#[trigger] ops[i]) is Some ==> ops[i]->0 == count_allocations(
                ops.take(i),
            ) + 1,
        forall|i: int, j: int|
            0 <= i < j < ops.len() && (#[trigger] ops[i]) is Some && (#[trigger] ops[j]) is Some
                ==> ops[i]->0 < ops[j]->0,
{
    assert forall|i: int| 0 <= i <= ops.len() implies (#[trigger] states[i]).last_id()
        == count_allocations(ops.take(i)) by {
        lemma_engine_ids_prefix(states, ops, i);
    }
    assert forall|i: int| 0 <= i < ops.len() && (#[trigger] ops[i]) is Some implies ops[i]->0
        == count_allocations(ops.take(i)) + 1 by {
        lemma_engine_ids_prefix(states, ops, i);
    }
    assert forall|i: int, j: int|
        0 <= i < j < ops.len() && (#[trigger] ops[i]) is Some && (#[trigger] ops[j]) is Some
            implies ops[i]->0 < ops[j]->0 by {
        lemma_engine_ids_prefix(states, ops, i);
        lemma_engine_ids_prefix(states, ops, j);
        lemma_count_take_step(ops, i);
        lemma_count_monotone(ops, i + 1, j);
    }
}

proof fn lemma_engine_ids_prefix(states: Seq<Engine>, ops: Seq<Option<usize>>, i: int)
    requires
        engine_run(states, ops),
        states[0].last_id() == 0,
        0 <= i <= ops.len(),
    ensures
        states[i].last_id() == count_allocations(ops.take(i)),
    decreases i,
{
    if i == 0 {
        assert(ops.take(0) =~= Seq::<Option<usize>>::empty());
    } else {
        lemma_engine_ids_prefix(states, ops, i - 1);
        lemma_count_take_step(ops, i - 1);
        let _ = ops[i - 1];
    }
}

/// `states` is a run of `Ids::new_id` calls that hand out `ids`.
pub open spec fn ids_run(states: Seq<Ids>, ids: Seq<usize>) -> bool {
    &&& states.len() == ids.len() + 1
    &&& forall|i: int| 0 <= i < ids.len() ==> new_id_post(states[i], states[i + 1], #[trigger] ids[i])
}

/// Identifiers from an allocator made by `Ids::new`: over any number of
/// calls, call `i` (from 0) hands out `i + 1`, so no identifier is 0 and none
/// repeats.
pub proof fn lemma_ids_never_repeat(states: Seq<Ids>, ids: Seq<usize>)
    requires
        ids_run(states, ids),
        states[0].last() == 0,
        states[0].removed() is None,
    ensures
        forall|i: int| 0 <= i < ids.len() ==> #[trigger] ids[i] == i + 1,
        forall|i: int, j: int| 0 <= i < j < ids.len() ==> #[trigger] ids[i] < #[trigger] ids[j],
{
    assert forall|i: int| 0 <= i < ids.len() implies #[trigger] ids[i] == i + 1 by {
        lemma_ids_prefix(states, ids, i);
    }
}

proof fn lemma_ids_prefix(states: Seq<Ids>, ids: Seq<usize>, i: int)
    requires
        ids_run(states, ids),
        states[0].last() == 0,
        states[0].removed() is None,
        0 <= i <= ids.len(),
    ensures
        states[i].last() == i,
        states[i].removed() is None,
        i < ids.len() ==> ids[i] == i + 1,
    decreases i,
{
    if i > 0 {
        lemma_ids_prefix(states, ids, i - 1);
        let _ = ids[i - 1];
    }
    if i < ids.len() {
        let _ = ids[i];
    }
}

} // verus!

verus! {

/// `s` keeps some of the routes of `o`, in their order.
pub open spec fn is_subseq(
    s: Seq<(ParamTemplate, MidiMessage)>,
    o: Seq<(ParamTemplate, MidiMessage)>,
) -> bool
    decreases o.len(),
{
    if o.len() == 0 {
        s.len() == 0
    } else if s.len() > 0 && s.last() == o.last() {
        is_subseq(s.drop_last(), o.drop_last()) || is_subseq(s, o.drop_last())
    } else {
        is_subseq(s, o.drop_last())
    }
}

/// `after` is `before` followed by some of the routes of `offered`, in the
/// order offered: each offered route was either pushed or dropped.
pub open spec fn pushed_some(
    before: Seq<(ParamTemplate, MidiMessage)>,
    after: Seq<(ParamTemplate, MidiMessage)>,
    offered: Seq<(ParamTemplate, MidiMessage)>,
) -> bool {
    exists|s: Seq<(ParamTemplate, MidiMessage)>|
        #![trigger is_subseq(s, offered)]
        after == before + s && is_subseq(s, offered)
}

proof fn lemma_is_subseq_concat(
    s1: Seq<(ParamTemplate, MidiMessage)>,
    s2: Seq<(ParamTemplate, MidiMessage)>,
    a: Seq<(ParamTemplate, MidiMessage)>,
    b: Seq<(ParamTemplate, MidiMessage)>,
)
    requires
        is_subseq(s1, a),
        is_subseq(s2, b),
    ensures
        is_subseq(s1 + s2, a + b),
    decreases b.len(),
{
    if b.len() == 0 {
        assert(s2 =~= Seq::<(ParamTemplate, MidiMessage)>::empty());
        assert(s1 + s2 =~= s1);
        assert(a + b =~= a);
    } else {
        assert((a + b).drop_last() =~= a + b.drop_last());
        assert((a + b).last() == b.last());
        if s2.len() > 0 && s2.last() == b.last() && is_subseq(s2.drop_last(), b.drop_last()) {
            lemma_is_subseq_concat(s1, s2.drop_last(), a, b.drop_last());
            assert((s1 + s2).drop_last() =~= s1 + s2.drop_last());
            assert((s1 + s2).last() == s2.last());
        } else {
            assert(is_subseq(s2, b.drop_last()));
            lemma_is_subseq_concat(s1, s2, a, b.drop_last());
        }
    }
}

/// Offering `a` then `b` pushes some of `a ++ b`, in order.
pub proof fn lemma_pushed_some_concat(
    before: Seq<(ParamTemplate, MidiMessage)>,
    mid: Seq<(ParamTemplate, MidiMessage)>,
    after: Seq<(ParamTemplate, MidiMessage)>,
    a: Seq<(ParamTemplate, MidiMessage)>,
    b: Seq<(ParamTemplate, MidiMessage)>,
)
    requires
        pushed_some(before, mid, a),
        pushed_some(mid, after, b),
    ensures
        pushed_some(before, after, a + b),
{
    let s1 = choose|s: Seq<(ParamTemplate, MidiMessage)>|
        #![trigger is_subseq(s, a)]
        mid == before + s && is_subseq(s, a);
    let s2 = choose|s: Seq<(ParamTemplate, MidiMessage)>|
        #![trigger is_subseq(s, b)]
        after == mid + s && is_subseq(s, b);
    lemma_is_subseq_concat(s1, s2, a, b);
    assert(after =~= before + (s1 + s2));
}

/// One offered route is either pushed or dropped.
pub proof fn lemma_pushed_one(
    before: Seq<(ParamTemplate, MidiMessage)>,
    after: Seq<(ParamTemplate, MidiMessage)>,
    r: (ParamTemplate, MidiMessage),
)
    requires
        after == before || after == before.push(r),
    ensures
        pushed_some(before, after, seq![r]),
{
    let o = seq![r];
    let e = Seq::<(ParamTemplate, MidiMessage)>::empty();
    assert(o.drop_last() =~= e);
    assert(is_subseq(e, e));
    if after == before {
        assert(is_subseq(e, o));
        assert(after =~= before + e);
    } else {
        let s = seq![r];
        assert(s.drop_last() =~= e);
        assert(is_subseq(s, o));
        assert(after =~= before + s);
    }
}

} // verus!
