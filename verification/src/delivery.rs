//! What holds of a message on its way from the one who says it to those who are
//! sent it.
use crate::channel::{hearing, ChannelView, Heard};
use crate::laws::{in_order, is_run, law_members_miss_nothing, said_in, Step};
use crate::message::{ChatMessageView, InternalMessageView};
use crate::outgoing::{outgoing_action, OutgoingAction, OutgoingEvent};
use crate::room::CHANNEL_CAPACITY;
use crate::server::ServerView;
use vstd::prelude::*;

verus! {

/// The messages among what a receiver heard.
pub open spec fn messages(heard: Seq<Heard>) -> Seq<InternalMessageView>
    decreases heard.len(),
{
    if heard.len() == 0 {
        Seq::empty()
    } else {
        let before = messages(heard.drop_last());
        match heard.last() {
            Heard::Message(message) => before.push(message@),
            _ => before,
        }
    }
}

/// Whether a receiver of the room with that id looked for its next message in
/// the states that `when` picks, heard what `heard` says, and stood before, between
/// and after at `places`, never behind by more than the channel's capacity.
pub open spec fn is_reading(
    states: Seq<ServerView>,
    id: Seq<char>,
    when: Seq<int>,
    heard: Seq<Heard>,
    places: Seq<nat>,
) -> bool {
    &&& when.len() == heard.len()
    &&& places.len() == heard.len() + 1
    &&& forall|k: int|
        0 <= k < heard.len() ==> 0 <= #[trigger] when[k] < states.len() && hearing(
            states[when[k]].rooms[id].channel,
            places[k],
            heard[k],
            places[k + 1],
        ) && states[when[k]].rooms[id].channel.posted.len() <= places[k]
            + states[when[k]].rooms[id].channel.capacity
}

/// A member's receiver that keeps up, from the time of joining on, yields just
/// what is said in the room since, whoever says it: all of it, in order, nothing
/// twice, nothing from before and nothing from another room. It yields a message
/// whenever there is one that it has not yielded yet.
#[verifier::spinoff_prover]
#[verifier::rlimit(30)]
pub proof fn law_receiver_yields_what_is_said(
    states: Seq<ServerView>,
    steps: Seq<Step>,
    id: Seq<char>,
    name: Seq<char>,
    when: Seq<int>,
    heard: Seq<Heard>,
    places: Seq<nat>,
)
    requires
        is_run(states, steps),
        states[0].rooms.contains_key(id),
        states[0].rooms[id].users.contains_key(name),
        forall|k: int| 0 <= k < steps.len() ==> !(#[trigger] steps[k]).takes_out(id, name),
        is_reading(states, id, when, heard, places),
        places[0] == states[0].rooms[id].channel.posted.len(),
    ensures
        messages(heard).is_prefix_of(said_in(steps, id)),
        places.last() == places[0] + messages(heard).len(),
        forall|k: int|
            0 <= k < heard.len() ==> ((#[trigger] heard[k]) is Message <==> messages(
                heard.take(k),
            ).len() < said_in(steps.take(when[k]), id).len()),
        forall|k: int|
            0 <= k < heard.len() ==> (#[trigger] heard[k]) is Message || heard[k] is Nothing,
    decreases heard.len(),
{
    if heard.len() > 0 {
        let last = heard.len() - 1;
        let earlier = heard.drop_last();
        assert(is_reading(states, id, when.drop_last(), earlier, places.drop_last())) by {
            assert forall|k: int| 0 <= k < earlier.len() implies 0 <= #[trigger] when.drop_last()[k]
                < states.len() && hearing(
                states[when.drop_last()[k]].rooms[id].channel,
                places.drop_last()[k],
                earlier[k],
                places.drop_last()[k + 1],
            ) && states[when.drop_last()[k]].rooms[id].channel.posted.len()
                <= places.drop_last()[k]
                + states[when.drop_last()[k]].rooms[id].channel.capacity by {
                assert(when[k] == when.drop_last()[k]);
            }
        }
        law_receiver_yields_what_is_said(
            states,
            steps,
            id,
            name,
            when.drop_last(),
            earlier,
            places.drop_last(),
        );
        let w = when[last];
        law_members_miss_nothing(states, steps, w, id, name);
        lemma_said_in_grows(steps, w, id);
        assert(places.drop_last().last() == places[last]);
        assert(heard.take(last) =~= earlier);
        assert forall|k: int| 0 <= k < heard.len() implies ((#[trigger] heard[k]) is Message
            <==> messages(heard.take(k)).len() < said_in(steps.take(when[k]), id).len()) && (
        heard[k] is Message || heard[k] is Nothing) by {
            if k < last {
                assert(heard[k] == earlier[k]);
                assert(earlier.take(k) =~= heard.take(k));
            }
        }
        let said = said_in(steps, id);
        if let Heard::Message(message) = heard[last] {
            let n = messages(earlier).len() as int;
            assert(said_in(steps.take(w), id)[n] == said[n]);
            assert(states[w].rooms[id].channel.posted[places[last] as int] == said_in(
                steps.take(w),
                id,
            )[n]);
            assert(messages(heard) =~= messages(earlier).push(message@));
        }
    }
}

/// What was said up to some step is the beginning of what was said in all.
proof fn lemma_said_in_grows(steps: Seq<Step>, i: int, id: Seq<char>)
    requires
        0 <= i <= steps.len(),
    ensures
        said_in(steps.take(i), id).is_prefix_of(said_in(steps, id)),
    decreases steps.len(),
{
    if i == steps.len() {
        assert(steps.take(i) =~= steps);
    } else {
        lemma_said_in_grows(steps.drop_last(), i, id);
        assert(steps.drop_last().take(i) =~= steps.take(i));
    }
}

/// As many messages as the channel's capacity, sent in a room one after the other
/// while a receiver of its channel is held and not read, all get through, and the
/// receiver then yields them all, in the order in which they were sent, and
/// nothing more.
pub proof fn law_burst_arrives_whole(
    states: Seq<ServerView>,
    steps: Seq<Step>,
    id: Seq<char>,
    key: int,
    heard: Seq<Heard>,
    places: Seq<nat>,
)
    requires
        is_run(states, steps),
        in_order(states[0]),
        states[0].speaks_over(id, key),
        steps.len() <= CHANNEL_CAPACITY,
        forall|k: int|
            0 <= k < steps.len() ==> {
                &&& (#[trigger] steps[k]) matches Step::Broadcast { broadcast_id, result, .. }
                &&& broadcast_id == id
                &&& states[k].speaks_over(id, key) ==> result is Ok
            },
        heard.len() == steps.len() + 1,
        places.len() == heard.len() + 1,
        places[0] == states[0].rooms[id].channel.posted.len(),
        forall|k: int|
            0 <= k < heard.len() ==> hearing(
                states.last().rooms[id].channel,
                places[k],
                #[trigger] heard[k],
                places[k + 1],
            ),
    ensures
        forall|k: int|
            0 <= k < steps.len() ==> ((#[trigger] steps[k]) matches Step::Broadcast {
                message,
                result,
                ..
            } && result is Ok && (heard[k] matches Heard::Message(copy) && copy@ == message)),
        heard.last() is Nothing,
{
    lemma_burst_posted(states, steps, id, key, steps.len() as int);
    let n = steps.len() as int;
    let channel = states[n].rooms[id].channel;
    let start = states[0].rooms[id].channel.posted;
    assert(states.last() == states[n]);
    lemma_burst_heard(channel, start.len(), heard, places, n);
    assert forall|k: int| 0 <= k < steps.len() implies ((
    #[trigger] steps[k]) matches Step::Broadcast { message, result, .. } && result is Ok && (heard[k] matches Heard::Message(copy) && copy@ == message)) by {
        assert(heard[k] is Message);
        assert(hearing(channel, places[k], heard[k], places[k + 1]));
        assert(places[k] == start.len() + k);
        assert(channel.posted[start.len() + k] == steps[k]->message);
    }
    assert(hearing(channel, places[n], heard[n], places[n + 1]));
}

/// What a burst leaves on the channel.
proof fn lemma_burst_posted(
    states: Seq<ServerView>,
    steps: Seq<Step>,
    id: Seq<char>,
    key: int,
    i: int,
)
    requires
        is_run(states, steps),
        in_order(states[0]),
        states[0].speaks_over(id, key),
        forall|k: int|
            0 <= k < steps.len() ==> {
                &&& (#[trigger] steps[k]) matches Step::Broadcast { broadcast_id, result, .. }
                &&& broadcast_id == id
                &&& states[k].speaks_over(id, key) ==> result is Ok
            },
        0 <= i <= steps.len(),
    ensures
        states[i].speaks_over(id, key),
        states[i].rooms[id].channel.capacity == CHANNEL_CAPACITY,
        states[i].rooms[id].channel.posted.len() == states[0].rooms[id].channel.posted.len() + i,
        forall|k: int|
            0 <= k < i ==> ((#[trigger] steps[k]) matches Step::Broadcast { message, result, .. }
                && result is Ok && states[i].rooms[id].channel.posted[
                states[0].rooms[id].channel.posted.len() + k] == message),
    decreases i,
{
    if i > 0 {
        lemma_burst_posted(states, steps, id, key, i - 1);
        assert(steps[i - 1].leads(states[i - 1], states[i - 1 + 1]));
    }
}

/// What is heard of a burst.
proof fn lemma_burst_heard(
    channel: ChannelView,
    start: nat,
    heard: Seq<Heard>,
    places: Seq<nat>,
    i: int,
)
    requires
        places.len() == heard.len() + 1,
        places[0] == start,
        start + heard.len() == channel.posted.len() + 1,
        channel.posted.len() <= start + channel.capacity,
        forall|k: int|
            0 <= k < heard.len() ==> hearing(
                channel,
                places[k],
                #[trigger] heard[k],
                places[k + 1],
            ),
        0 <= i < heard.len(),
    ensures
        forall|k: int| 0 <= k <= i ==> #[trigger] places[k] == start + k,
        forall|k: int| 0 <= k < i ==> (#[trigger] heard[k]) is Message,
    decreases i,
{
    if i > 0 {
        lemma_burst_heard(channel, start, heard, places, i - 1);
        assert(hearing(channel, places[i - 1], heard[i - 1], places[i - 1 + 1]));
    }
}

/// The sending side of a connection at some time: what its room's channel has
/// handed over, what waits in the queue, what the client has been sent, and what
/// is done next.
pub struct Sending {
    pub taken: Seq<InternalMessageView>,
    pub queue: Seq<Seq<char>>,
    pub sent: Seq<Seq<char>>,
    pub doing: OutgoingAction,
}

impl Sending {
    /// The sending side at the start.
    pub open spec fn start() -> Sending {
        Sending {
            taken: Seq::empty(),
            queue: Seq::empty(),
            sent: Seq::empty(),
            doing: OutgoingAction::Wait,
        }
    }

    /// Whether the event is what comes of what is being done, and leads to `next`
    /// on the connection with that id: a message is turned into the text that
    /// `writes` gives, and the queue hands texts over in the order in which they
    /// were put in.
    pub open spec fn takes(
        self,
        user_id: Seq<char>,
        writes: spec_fn(ChatMessageView) -> Option<Seq<char>>,
        event: OutgoingEvent,
        next: Sending,
    ) -> bool {
        &&& next.doing == outgoing_action(user_id, event)
        &&& match (self.doing, event) {
            (OutgoingAction::Wait, OutgoingEvent::Received(message)) => {
                &&& next.taken == self.taken.push(message@)
                &&& next.queue == self.queue
                &&& next.sent == self.sent
            },
            (OutgoingAction::Wait, OutgoingEvent::Dequeued(Some(text))) => {
                &&& self.queue.len() > 0
                &&& text@ == self.queue[0]
                &&& next.taken == self.taken
                &&& next.queue == self.queue.drop_first()
                &&& next.sent == self.sent
            },
            (OutgoingAction::Wait, OutgoingEvent::ChannelClosed)
            | (OutgoingAction::Wait, OutgoingEvent::Dequeued(None)) => {
                &&& next.taken == self.taken
                &&& next.queue == self.queue
                &&& next.sent == self.sent
            },
            (OutgoingAction::Serialize(message), OutgoingEvent::Serialized(text)) => {
                &&& writes(message@) == (match text {
                    Some(written) => Some(written@),
                    None => None,
                })
                &&& next.taken == self.taken
                &&& next.queue == self.queue
                &&& next.sent == self.sent
            },
            (OutgoingAction::Enqueue(text), OutgoingEvent::Enqueued(done)) => {
                &&& next.taken == self.taken
                &&& next.queue == (if done {
                    self.queue.push(text@)
                } else {
                    self.queue
                })
                &&& next.sent == self.sent
            },
            (OutgoingAction::Write(text), OutgoingEvent::Written(done)) => {
                &&& next.taken == self.taken
                &&& next.queue == self.queue
                &&& next.sent == (if done {
                    self.sent.push(text@)
                } else {
                    self.sent
                })
            },
            _ => false,
        }
    }

    /// What is on its way to the client between the queue and the socket.
    spec fn leaving(self) -> Seq<Seq<char>> {
        match self.doing {
            OutgoingAction::Write(text) => seq![text@],
            _ => Seq::empty(),
        }
    }

    /// What is on its way to the client between the channel and the queue.
    spec fn arriving(
        self,
        writes: spec_fn(ChatMessageView) -> Option<Seq<char>>,
    ) -> Seq<Seq<char>> {
        match self.doing {
            OutgoingAction::Serialize(message) => match writes(message@) {
                Some(text) => seq![text],
                None => Seq::empty(),
            },
            OutgoingAction::Enqueue(text) => seq![text@],
            _ => Seq::empty(),
        }
    }

    /// What the client has been sent and what is on its way there.
    spec fn all(self, writes: spec_fn(ChatMessageView) -> Option<Seq<char>>) -> Seq<Seq<char>> {
        self.sent + self.leaving() + self.queue + self.arriving(writes)
    }
}

/// Whether the sending side of the connection with that id goes through `trace`
/// as the events come.
pub open spec fn is_sending(
    user_id: Seq<char>,
    writes: spec_fn(ChatMessageView) -> Option<Seq<char>>,
    trace: Seq<Sending>,
    events: Seq<OutgoingEvent>,
) -> bool {
    &&& trace.len() == events.len() + 1
    &&& trace[0] == Sending::start()
    &&& forall|i: int|
        0 <= i < events.len() ==> (#[trigger] trace[i]).takes(
            user_id,
            writes,
            events[i],
            trace[i + 1],
        )
}

/// The texts due to the client on the connection with that id: one for each
/// message of another connection that can be written, in order.
pub open spec fn due(
    user_id: Seq<char>,
    writes: spec_fn(ChatMessageView) -> Option<Seq<char>>,
    said: Seq<InternalMessageView>,
) -> Seq<Seq<char>>
    decreases said.len(),
{
    if said.len() == 0 {
        Seq::empty()
    } else {
        let before = due(user_id, writes, said.drop_last());
        if said.last().sender_id == user_id {
            before
        } else {
            match writes(said.last().message) {
                Some(text) => before.push(text),
                None => before,
            }
        }
    }
}

/// A client is sent what its channel handed over from other connections, in order,
/// without gaps and without anything twice; and it has been sent all of that when
/// the sending side waits with an empty queue.
pub proof fn law_client_is_sent_what_is_due(
    user_id: Seq<char>,
    writes: spec_fn(ChatMessageView) -> Option<Seq<char>>,
    trace: Seq<Sending>,
    events: Seq<OutgoingEvent>,
    i: int,
)
    requires
        is_sending(user_id, writes, trace, events),
        0 <= i < trace.len(),
    ensures
        trace[i].sent.is_prefix_of(due(user_id, writes, trace[i].taken)),
        trace[i].doing is Wait && trace[i].queue.len() == 0 ==> trace[i].sent == due(
            user_id,
            writes,
            trace[i].taken,
        ),
{
    lemma_nothing_is_lost(user_id, writes, trace, events, i);
    if !(trace[i].doing is Stop) {
        assert(trace[i].sent.is_prefix_of(trace[i].all(writes)));
        if trace[i].doing is Wait && trace[i].queue.len() == 0 {
            assert(trace[i].all(writes) =~= trace[i].sent);
        }
    }
}

/// As long as the sending side goes on, all that is due is sent or on its way.
proof fn lemma_nothing_is_lost(
    user_id: Seq<char>,
    writes: spec_fn(ChatMessageView) -> Option<Seq<char>>,
    trace: Seq<Sending>,
    events: Seq<OutgoingEvent>,
    i: int,
)
    requires
        is_sending(user_id, writes, trace, events),
        0 <= i < trace.len(),
    ensures
        !(trace[i].doing is Stop) ==> trace[i].all(writes) == due(user_id, writes, trace[i].taken),
        trace[i].sent.is_prefix_of(due(user_id, writes, trace[i].taken)),
    decreases i,
{
    let now = trace[i];
    if i == 0 {
        assert(now.all(writes) =~= Seq::empty());
    } else {
        let before = trace[i - 1];
        lemma_nothing_is_lost(user_id, writes, trace, events, i - 1);
        assert(before.takes(user_id, writes, events[i - 1], trace[i - 1 + 1]));
        match events[i - 1] {
            OutgoingEvent::Received(message) => {
                assert(now.taken.drop_last() =~= before.taken);
                assert(before.all(writes) + now.arriving(writes) =~= now.all(writes));
                assert(due(user_id, writes, now.taken) =~= due(user_id, writes, before.taken)
                    + now.arriving(writes));
            },
            OutgoingEvent::Dequeued(Some(text)) => {
                assert(now.all(writes) =~= before.all(writes));
            },
            OutgoingEvent::Serialized(text) => {
                assert(now.all(writes) =~= before.all(writes));
            },
            OutgoingEvent::Enqueued(done) => {
                if done {
                    assert(now.all(writes) =~= before.all(writes));
                }
            },
            OutgoingEvent::Written(done) => {
                if done {
                    assert(now.all(writes) =~= before.all(writes));
                }
            },
            _ => {},
        }
        if !(now.doing is Stop) {
            assert(now.sent.is_prefix_of(now.all(writes)));
        }
    }
}

/// What is due of the beginning of a conversation is the beginning of what is due
/// of all of it.
proof fn lemma_due_grows(
    user_id: Seq<char>,
    writes: spec_fn(ChatMessageView) -> Option<Seq<char>>,
    some: Seq<InternalMessageView>,
    said: Seq<InternalMessageView>,
)
    requires
        some.is_prefix_of(said),
    ensures
        due(user_id, writes, some).is_prefix_of(due(user_id, writes, said)),
    decreases said.len(),
{
    if some.len() == said.len() {
        assert(some =~= said);
    } else {
        assert(some.is_prefix_of(said.drop_last())) by {
            assert(said.drop_last().take(some.len() as int) =~= said.take(some.len() as int));
        }
        lemma_due_grows(user_id, writes, some, said.drop_last());
    }
}

/// A member whose receiver keeps up is sent, from the time of joining on, what the
/// others say in its room: in order, without gaps, nothing twice, nothing of its
/// own, nothing from before it joined and nothing from another room.
pub proof fn law_member_is_sent_what_the_others_say(
    states: Seq<ServerView>,
    steps: Seq<Step>,
    id: Seq<char>,
    name: Seq<char>,
    when: Seq<int>,
    heard: Seq<Heard>,
    places: Seq<nat>,
    user_id: Seq<char>,
    writes: spec_fn(ChatMessageView) -> Option<Seq<char>>,
    trace: Seq<Sending>,
    events: Seq<OutgoingEvent>,
)
    requires
        is_run(states, steps),
        states[0].rooms.contains_key(id),
        states[0].rooms[id].users.contains_key(name),
        forall|k: int| 0 <= k < steps.len() ==> !(#[trigger] steps[k]).takes_out(id, name),
        is_reading(states, id, when, heard, places),
        places[0] == states[0].rooms[id].channel.posted.len(),
        is_sending(user_id, writes, trace, events),
        trace.last().taken == messages(heard),
    ensures
        trace.last().sent.is_prefix_of(due(user_id, writes, said_in(steps, id))),
        trace.last().doing is Wait && trace.last().queue.len() == 0 && messages(heard).len()
            == said_in(steps, id).len() ==> trace.last().sent == due(
            user_id,
            writes,
            said_in(steps, id),
        ),
{
    law_receiver_yields_what_is_said(states, steps, id, name, when, heard, places);
    law_client_is_sent_what_is_due(user_id, writes, trace, events, trace.len() - 1);
    lemma_due_grows(user_id, writes, messages(heard), said_in(steps, id));
    if messages(heard).len() == said_in(steps, id).len() {
        assert(messages(heard) =~= said_in(steps, id));
    }
}

} // verus!
