//! What holds of the server as a whole, whatever is asked of it.
use crate::channel::ChannelView;
use crate::connection::{joined_announcement, left_announcement};
use crate::join::MAX_MESSAGE_SIZE;
use crate::message::{ChatMessage, InternalMessage, InternalMessageView};
use crate::outgoing::{outgoing_action, OutgoingAction, OutgoingEvent};
use crate::payload::{joined_notice, left_notice, notice, Json};
use crate::room::{RoomView, CHANNEL_CAPACITY, ROOM_TTL};
use crate::server::{
    byte_len, expired_rooms, sent_by, user_total, BroadcastError, CleanupAction, JoinError,
    ServerView, CLEANUP_INTERVAL_SECS, MAX_BROADCAST_ID_LEN, MAX_USERNAME_LEN,
};
use crate::session::{
    incoming_action, IncomingAction, IncomingEvent, MessageOutcome, SessionView,
    RATE_LIMIT_INTERVAL,
};
use vstd::prelude::*;

verus! {

/// One thing that can happen to the server's state.
pub enum Step {
    /// A user joins a room.
    Join {
        broadcast_id: Seq<char>,
        username: Seq<char>,
        user_id: Seq<char>,
        now: u128,
        key: int,
    },
    /// A user leaves a room.
    Leave { broadcast_id: Seq<char>, username: Seq<char>, now: u128 },
    /// A message is sent in a room, where somebody listens or nobody does, with
    /// that result.
    Broadcast {
        broadcast_id: Seq<char>,
        message: InternalMessageView,
        now: u128,
        attended: bool,
        result: Result<(), BroadcastError>,
    },
    /// The expired rooms are removed.
    Sweep { now: u128 },
    /// The shutdown starts.
    Shutdown { now: u128 },
}

impl Step {
    /// Whether this step leads from one state to the other.
    pub open spec fn leads(self, before: ServerView, after: ServerView) -> bool {
        match self {
            Step::Join { broadcast_id, username, user_id, now, key } => before.join_refusal(
                broadcast_id,
                username,
            ) is None && before.key_fits(broadcast_id, key) && after == before.joined(
                broadcast_id,
                username,
                user_id,
                now,
                key,
            ),
            Step::Leave { broadcast_id, username, now } => after == before.left(
                broadcast_id,
                username,
                now,
            ),
            Step::Broadcast { broadcast_id, message, now, attended, result } => before.broadcast(
                broadcast_id,
                message,
                now,
                attended,
                result,
                after,
            ),
            Step::Sweep { now } => after == before.swept(now),
            Step::Shutdown { .. } => after == (ServerView { shutdown: true, ..before }),
        }
    }

    /// When this step happens.
    pub open spec fn time(self) -> u128 {
        match self {
            Step::Join { now, .. } => now,
            Step::Leave { now, .. } => now,
            Step::Broadcast { now, .. } => now,
            Step::Sweep { now } => now,
            Step::Shutdown { now } => now,
        }
    }

    /// Whether this step is about the room with that id.
    pub open spec fn concerns(self, id: Seq<char>) -> bool {
        match self {
            Step::Join { broadcast_id, .. } => broadcast_id == id,
            Step::Leave { broadcast_id, .. } => broadcast_id == id,
            Step::Broadcast { broadcast_id, .. } => broadcast_id == id,
            Step::Sweep { .. } => true,
            Step::Shutdown { .. } => false,
        }
    }

    /// What this step adds to the messages in the room with that id, if anything.
    pub open spec fn adds_to(self, id: Seq<char>) -> Option<InternalMessageView> {
        match self {
            Step::Broadcast { broadcast_id, message, result, .. } => if broadcast_id == id
                && result is Ok {
                Some(message)
            } else {
                None
            },
            _ => None,
        }
    }

    /// Whether this step is that user's leaving that room.
    pub open spec fn takes_out(self, id: Seq<char>, name: Seq<char>) -> bool {
        self matches Step::Leave { broadcast_id, username, .. } && broadcast_id == id && username
            == name
    }
}

/// Whether the states follow one another by the steps, one step between each
/// two.
pub open spec fn is_run(states: Seq<ServerView>, steps: Seq<Step>) -> bool {
    &&& states.len() == steps.len() + 1
    &&& forall|i: int|
        0 <= i < steps.len() ==> (#[trigger] steps[i]).leads(states[i], states[i + 1])
}

/// What the steps add, one after the other, to the messages in the room with
/// that id.
pub open spec fn said_in(steps: Seq<Step>, id: Seq<char>) -> Seq<InternalMessageView>
    decreases steps.len(),
{
    if steps.len() == 0 {
        Seq::empty()
    } else {
        let before = said_in(steps.drop_last(), id);
        match steps.last().adds_to(id) {
            Some(message) => before.push(message),
            None => before,
        }
    }
}

/// Whether the clock never runs backwards from one step to a later one.
pub open spec fn clock_never_runs_back(steps: Seq<Step>) -> bool {
    forall|i: int, j: int|
        0 <= i <= j < steps.len() ==> (#[trigger] steps[i]).time() <= (#[trigger] steps[j]).time()
}

/// Whether the text can name a room.
pub open spec fn is_room_id(text: Seq<char>) -> bool {
    text.len() > 0 && byte_len(text) <= MAX_BROADCAST_ID_LEN
}

/// Whether the text can name a user.
pub open spec fn is_username(text: Seq<char>) -> bool {
    text.len() > 0 && byte_len(text) <= MAX_USERNAME_LEN
}

/// Whether a room is in order: finitely many members, each under a proper
/// name, and a channel of the usual capacity.
pub open spec fn room_in_order(room: RoomView) -> bool {
    &&& room.users.dom().finite()
    &&& forall|name: Seq<char>| #[trigger] room.users.contains_key(name) ==> is_username(name)
    &&& room.channel.capacity == CHANNEL_CAPACITY
}

/// Whether the server is in order: finitely many rooms, each under a proper id
/// and in order itself, and no two of them over one channel.
pub open spec fn in_order(server: ServerView) -> bool {
    &&& server.rooms.dom().finite()
    &&& forall|id: Seq<char>| #[trigger]
        server.rooms.contains_key(id) ==> is_room_id(id) && room_in_order(server.rooms[id])
    &&& forall|one: Seq<char>, other: Seq<char>|
        #![trigger server.rooms.contains_key(one), server.rooms.contains_key(other)]
        server.rooms.contains_key(one) && server.rooms.contains_key(other) && one != other
            ==> server.rooms[one].channel.key != server.rooms[other].channel.key
}

/// Whether every room was opened no later than its last activity, and neither
/// lies after `now`.
pub open spec fn times_in_order(server: ServerView, now: u128) -> bool {
    forall|id: Seq<char>| #[trigger]
        server.rooms.contains_key(id) ==> server.rooms[id].created_at
            <= server.rooms[id].last_activity <= now
}

/// A server without rooms is in order.
pub proof fn law_new_server_is_in_order(shutdown: bool)
    ensures
        in_order(ServerView { rooms: Map::empty(), shutdown }),
{
}

/// Every step keeps the server in order: no room and no user ever goes by an
/// empty or an overlong name, and no two rooms ever share a channel.
pub proof fn law_steps_keep_order(before: ServerView, step: Step, after: ServerView)
    requires
        in_order(before),
        step.leads(before, after),
    ensures
        in_order(after),
{
    match step {
        Step::Join { broadcast_id, username, user_id, now, key } => {
            let room = before.room_or_fresh(broadcast_id, now, key);
            assert(room_in_order(room));
            assert(room_in_order(room.with_user(username, user_id).touched(now)));
        },
        Step::Leave { broadcast_id, username, now } => {
            if before.rooms.contains_key(broadcast_id) {
                let room = before.rooms[broadcast_id];
                assert(room_in_order(room.without_user(username).touched(now)));
            }
        },
        Step::Broadcast { broadcast_id, message, now, .. } => {
            if before.rooms.contains_key(broadcast_id) {
                let room = before.rooms[broadcast_id];
                assert(room_in_order(room.with_message(message).touched(now)));
                assert(room_in_order(room.touched(now)));
            }
        },
        Step::Sweep { now } => {
            assert(after.rooms.dom().subset_of(before.rooms.dom()));
            vstd::set_lib::lemma_len_subset(after.rooms.dom(), before.rooms.dom());
        },
        Step::Shutdown { .. } => {},
    }
}

/// In every run from a server without rooms, every state is in order.
pub proof fn law_runs_stay_in_order(states: Seq<ServerView>, steps: Seq<Step>, i: int)
    requires
        is_run(states, steps),
        states[0].rooms == Map::<Seq<char>, RoomView>::empty(),
        0 <= i < states.len(),
    ensures
        in_order(states[i]),
    decreases i,
{
    if i == 0 {
        law_new_server_is_in_order(states[0].shutdown);
        assert(states[0] == (ServerView { rooms: Map::empty(), shutdown: states[0].shutdown }));
    } else {
        law_runs_stay_in_order(states, steps, i - 1);
        assert(steps[i - 1].leads(states[i - 1], states[i - 1 + 1]));
        law_steps_keep_order(states[i - 1], steps[i - 1], states[i]);
    }
}

/// A step that comes no earlier than anything before it keeps the times in order.
pub proof fn law_steps_keep_times_in_order(
    before: ServerView,
    last: u128,
    step: Step,
    after: ServerView,
)
    requires
        times_in_order(before, last),
        last <= step.time(),
        step.leads(before, after),
    ensures
        times_in_order(after, step.time()),
{
}

/// In every run from a server without rooms on a clock that never runs backwards,
/// as [`Clock`](crate::clock::Clock) does not, in every state: each room goes by
/// a proper id, each of its members by a proper name, no room was opened after
/// its last activity, and that lies no later than the last step.
pub proof fn law_rooms_open_before_they_are_active(
    states: Seq<ServerView>,
    steps: Seq<Step>,
    i: int,
    id: Seq<char>,
)
    requires
        is_run(states, steps),
        states[0].rooms == Map::<Seq<char>, RoomView>::empty(),
        clock_never_runs_back(steps),
        0 <= i < states.len(),
        states[i].rooms.contains_key(id),
    ensures
        i > 0,
        is_room_id(id),
        forall|name: Seq<char>| #[trigger]
            states[i].rooms[id].users.contains_key(name) ==> is_username(name),
        states[i].rooms[id].created_at <= states[i].rooms[id].last_activity,
        states[i].rooms[id].last_activity <= steps[i - 1].time(),
{
    lemma_times_in_order(states, steps, i);
    law_runs_stay_in_order(states, steps, i);
}

/// The times are in order in every state of such a run.
proof fn lemma_times_in_order(states: Seq<ServerView>, steps: Seq<Step>, i: int)
    requires
        is_run(states, steps),
        states[0].rooms == Map::<Seq<char>, RoomView>::empty(),
        clock_never_runs_back(steps),
        0 <= i < states.len(),
    ensures
        times_in_order(states[i], if i > 0 { steps[i - 1].time() } else { 0 }),
    decreases i,
{
    if i > 0 {
        lemma_times_in_order(states, steps, i - 1);
        let last = if i > 1 { steps[i - 2].time() } else { 0 };
        assert(steps[i - 1].leads(states[i - 1], states[i - 1 + 1]));
        law_steps_keep_times_in_order(states[i - 1], last, steps[i - 1], states[i]);
    }
}

/// A step changes no room but the one it is about, and opens no other.
pub proof fn law_rooms_are_isolated(
    before: ServerView,
    step: Step,
    after: ServerView,
    id: Seq<char>,
)
    requires
        step.leads(before, after),
        !step.concerns(id),
    ensures
        after.rooms.contains_key(id) == before.rooms.contains_key(id),
        before.rooms.contains_key(id) ==> after.rooms[id] == before.rooms[id],
{
}

/// Once a user is in a room, nobody else gets in there under that name.
pub proof fn law_taken_name_is_refused(
    server: ServerView,
    broadcast_id: Seq<char>,
    username: Seq<char>,
    user_id: Seq<char>,
    now: u128,
    key: int,
)
    requires
        server.join_refusal(broadcast_id, username) is None,
    ensures
        server.joined(broadcast_id, username, user_id, now, key).join_refusal(
            broadcast_id,
            username,
        ) == Some(JoinError::UsernameTaken),
{
}

/// A user in a room stands in nobody's way under another name or in another
/// room.
pub proof fn law_names_clash_only_within_a_room(
    server: ServerView,
    broadcast_id: Seq<char>,
    username: Seq<char>,
    user_id: Seq<char>,
    now: u128,
    key: int,
    other_id: Seq<char>,
    other_name: Seq<char>,
)
    requires
        server.join_refusal(broadcast_id, username) is None,
        other_id != broadcast_id || other_name != username,
    ensures
        server.joined(broadcast_id, username, user_id, now, key).join_refusal(other_id, other_name)
            == server.join_refusal(other_id, other_name),
{
}

/// Leaving undoes joining: the room has the members that it had before, and
/// the name is free again. The room itself stays, with everything said in it.
pub proof fn law_leaving_undoes_joining(
    server: ServerView,
    broadcast_id: Seq<char>,
    username: Seq<char>,
    user_id: Seq<char>,
    now: u128,
    key: int,
    later: u128,
)
    requires
        server.join_refusal(broadcast_id, username) is None,
    ensures
        ({
            let room = server.room_or_fresh(broadcast_id, now, key);
            let after = server.joined(broadcast_id, username, user_id, now, key).left(
                broadcast_id,
                username,
                later,
            );
            &&& after == server.with_room(broadcast_id, room.touched(later))
            &&& after.join_refusal(broadcast_id, username) is None
        }),
{
    let room = server.room_or_fresh(broadcast_id, now, key);
    let after = server.joined(broadcast_id, username, user_id, now, key).left(
        broadcast_id,
        username,
        later,
    );
    assert(after.rooms[broadcast_id].users =~= room.users);
    assert(after.rooms =~= server.with_room(broadcast_id, room.touched(later)).rooms);
}

/// A sweep removes exactly the rooms that are empty and have been idle for
/// longer than [`ROOM_TTL`]; it leaves every other room as it is, above all a
/// room with a member in it.
pub proof fn law_sweep_removes_only_expired_rooms(server: ServerView, now: u128, id: Seq<char>)
    ensures
        server.swept(now).rooms.contains_key(id) <==> server.rooms.contains_key(id)
            && !server.rooms[id].expired(now),
        server.swept(now).rooms.contains_key(id) ==> server.swept(now).rooms[id]
            == server.rooms[id],
        server.rooms.contains_key(id) && !server.rooms[id].users.is_empty()
            ==> server.swept(now).rooms.contains_key(id),
{
}

/// After a sweep nothing is left to sweep at that time or before.
pub proof fn law_sweeping_twice_is_sweeping_once(server: ServerView, now: u128, earlier: u128)
    requires
        earlier <= now,
    ensures
        server.swept(now).swept(earlier) == server.swept(now),
{
    assert forall|id: Seq<char>| #[trigger]
        expired_rooms(server.swept(now).rooms, earlier).contains(id) implies false by {}
    assert(server.swept(now).swept(earlier).rooms =~= server.swept(now).rooms);
}

/// A room that somebody joined, left or spoke in at `now` outlives every sweep
/// until [`ROOM_TTL`] has passed since; if it is empty then, the first sweep
/// afterwards removes it.
pub proof fn law_activity_restarts_the_clock(room: RoomView, now: u128, later: u128)
    ensures
        later <= now + ROOM_TTL ==> !room.touched(now).expired(later),
        later > now + ROOM_TTL ==> room.touched(now).expired(later) == room.users.is_empty(),
{
}

/// A room that has expired stays expired until somebody is active in it: a later
/// sweep removes it too.
pub proof fn law_expiry_is_lasting(room: RoomView, now: u128, later: u128)
    requires
        room.expired(now),
        now <= later,
    ensures
        room.expired(later),
{
}

/// Nanoseconds between two ticks of the cleanup timer.
pub open spec fn cleanup_period() -> int {
    CLEANUP_INTERVAL_SECS * 1_000_000_000
}

/// The sweeps go on as long as the server is not shutting down, and end with the
/// first tick after the shutdown has started, less than one period later; no tick
/// starts the shutdown or calls it off. The ticks are at most a period apart and
/// see the flag set from `set_at` on.
pub proof fn law_sweeps_end_with_the_shutdown(
    times: Seq<u128>,
    before: Seq<ServerView>,
    actions: Seq<CleanupAction>,
    after: Seq<ServerView>,
    set_at: u128,
) -> (end: int)
    requires
        times.len() == before.len() == actions.len() == after.len(),
        forall|i: int|
            0 <= i < times.len() ==> (#[trigger] before[i]).tick(times[i], actions[i], after[i]),
        forall|i: int|
            0 <= i < times.len() ==> ((#[trigger] before[i]).shutdown <==> set_at <= times[i]),
        forall|i: int|
            #![trigger times[i]]
            0 < i < times.len() ==> times[i - 1] <= times[i] <= times[i - 1] + cleanup_period(),
        times.len() > 0,
        times[0] <= set_at <= times.last(),
    ensures
        0 <= end < times.len(),
        actions[end] is Stop,
        forall|i: int| 0 <= i < end ==> (#[trigger] actions[i]) is Swept,
        set_at <= times[end] < set_at + cleanup_period(),
        forall|i: int|
            0 <= i < times.len() ==> (#[trigger] after[i]).shutdown == before[i].shutdown,
{
    let end = lemma_first_at_or_after(times, set_at);
    assert(before[end].shutdown);
    assert(before[end].tick(times[end], actions[end], after[end]));
    assert forall|i: int| 0 <= i < end implies (#[trigger] actions[i]) is Swept by {
        assert(!before[i].shutdown);
        assert(before[i].tick(times[i], actions[i], after[i]));
    }
    assert forall|i: int| 0 <= i < times.len() implies (#[trigger] after[i]).shutdown
        == before[i].shutdown by {
        assert(before[i].tick(times[i], actions[i], after[i]));
    }
    if end > 0 {
        assert(times[end - 1] < set_at);
        assert(times[end] <= times[end - 1] + cleanup_period());
    }
    end
}

/// The first of the times that is not before `bound`.
proof fn lemma_first_at_or_after(times: Seq<u128>, bound: u128) -> (first: int)
    requires
        times.len() > 0,
        bound <= times.last(),
    ensures
        0 <= first < times.len(),
        bound <= times[first],
        forall|i: int| 0 <= i < first ==> #[trigger] times[i] < bound,
    decreases times.len(),
{
    let rest = times.drop_last();
    if exists|i: int| 0 <= i < rest.len() && bound <= #[trigger] rest[i] {
        let i = choose|i: int| 0 <= i < rest.len() && bound <= #[trigger] rest[i];
        let first = lemma_first_at_or_after(times.take(i + 1), bound);
        assert forall|k: int| 0 <= k < first implies #[trigger] times[k] < bound by {
            assert(times.take(i + 1)[k] == times[k]);
        }
        first
    } else {
        assert forall|k: int| 0 <= k < times.len() - 1 implies #[trigger] times[k] < bound by {
            assert(rest[k] == times[k]);
        }
        times.len() - 1
    }
}

/// Once the shutdown has started, no step calls it off; and no other step
/// starts it.
pub proof fn law_shutdown_is_final(before: ServerView, step: Step, after: ServerView)
    requires
        step.leads(before, after),
    ensures
        after.shutdown == (before.shutdown || step is Shutdown),
{
}

/// The members of all rooms with ids in the set.
spec fn users_within(rooms: Map<Seq<char>, RoomView>, ids: Set<Seq<char>>) -> nat {
    ids.fold(0, |total: nat, id: Seq<char>| total + rooms[id].users.len())
}

/// What one more room adds to the number of members.
proof fn lemma_users_within_insert(
    rooms: Map<Seq<char>, RoomView>,
    ids: Set<Seq<char>>,
    id: Seq<char>,
)
    requires
        ids.finite(),
        !ids.contains(id),
    ensures
        users_within(rooms, ids.insert(id)) == users_within(rooms, ids) + rooms[id].users.len(),
{
    vstd::set::fold::lemma_fold_insert(
        ids,
        0nat,
        |total: nat, id: Seq<char>| total + rooms[id].users.len(),
        id,
    );
}

/// The number of members depends on nothing but the members of each room.
proof fn lemma_users_within_same(
    rooms: Map<Seq<char>, RoomView>,
    others: Map<Seq<char>, RoomView>,
    ids: Set<Seq<char>>,
)
    requires
        ids.finite(),
        forall|id: Seq<char>| #[trigger]
            ids.contains(id) ==> rooms[id].users.len() == others[id].users.len(),
    ensures
        users_within(rooms, ids) == users_within(others, ids),
    decreases ids.len(),
{
    if ids.len() == 0 {
        assert(ids =~= Set::empty());
        vstd::set::fold::lemma_fold_empty(
            0nat,
            |total: nat, id: Seq<char>| total + rooms[id].users.len(),
        );
        vstd::set::fold::lemma_fold_empty(
            0nat,
            |total: nat, id: Seq<char>| total + others[id].users.len(),
        );
    } else {
        let id = ids.choose();
        let rest = ids.remove(id);
        lemma_users_within_same(rooms, others, rest);
        lemma_users_within_insert(rooms, rest, id);
        lemma_users_within_insert(others, rest, id);
        assert(rest.insert(id) =~= ids);
    }
}

/// What replacing one room, or opening it, does to the number of members.
pub(crate) proof fn lemma_user_total_insert(
    rooms: Map<Seq<char>, RoomView>,
    id: Seq<char>,
    room: RoomView,
)
    requires
        rooms.dom().finite(),
    ensures
        user_total(rooms.insert(id, room)) + (if rooms.contains_key(id) {
            rooms[id].users.len()
        } else {
            0
        }) == user_total(rooms) + room.users.len(),
{
    let rest = rooms.dom().remove(id);
    let after = rooms.insert(id, room);
    lemma_users_within_same(rooms, after, rest);
    lemma_users_within_insert(after, rest, id);
    assert(rest.insert(id) =~= after.dom());
    if rooms.contains_key(id) {
        lemma_users_within_insert(rooms, rest, id);
        assert(rest.insert(id) =~= rooms.dom());
    } else {
        assert(rest =~= rooms.dom());
    }
}

/// Removing rooms without members leaves the number of members as it is.
proof fn lemma_user_total_remove_empty(rooms: Map<Seq<char>, RoomView>, ids: Set<Seq<char>>)
    requires
        rooms.dom().finite(),
        ids.subset_of(rooms.dom()),
        forall|id: Seq<char>| #[trigger] ids.contains(id) ==> rooms[id].users.len() == 0,
    ensures
        user_total(rooms.remove_keys(ids)) == user_total(rooms),
    decreases ids.len(),
{
    vstd::set_lib::lemma_len_subset(ids, rooms.dom());
    if ids.len() == 0 {
        assert(ids =~= Set::empty());
        assert(rooms.remove_keys(ids) =~= rooms);
    } else {
        let id = ids.choose();
        let rest = rooms.remove(id);
        lemma_user_total_remove_empty(rest, ids.remove(id));
        assert(rest.remove_keys(ids.remove(id)) =~= rooms.remove_keys(ids));
        lemma_user_total_insert(rest, id, rooms[id]);
        assert(rest.insert(id, rooms[id]) =~= rooms);
    }
}

/// The count of members goes up by one when a user joins, goes down by one when
/// a member leaves, and nothing else moves it: no sweep loses a member.
pub proof fn law_members_are_conserved(before: ServerView, step: Step, after: ServerView)
    requires
        in_order(before),
        step.leads(before, after),
    ensures
        match step {
            Step::Join { .. } => user_total(after.rooms) == user_total(before.rooms) + 1,
            Step::Leave { broadcast_id, username, .. } => if before.rooms.contains_key(broadcast_id)
                && before.rooms[broadcast_id].users.contains_key(username) {
                user_total(after.rooms) + 1 == user_total(before.rooms)
            } else {
                user_total(after.rooms) == user_total(before.rooms)
            },
            _ => user_total(after.rooms) == user_total(before.rooms),
        },
{
    match step {
        Step::Join { broadcast_id, username, user_id, now, key } => {
            let room = before.room_or_fresh(broadcast_id, now, key);
            assert(room_in_order(room));
            lemma_user_total_insert(
                before.rooms,
                broadcast_id,
                room.with_user(username, user_id).touched(now),
            );
        },
        Step::Leave { broadcast_id, username, now } => {
            if before.rooms.contains_key(broadcast_id) {
                let room = before.rooms[broadcast_id];
                lemma_user_total_insert(
                    before.rooms,
                    broadcast_id,
                    room.without_user(username).touched(now),
                );
                if !room.users.contains_key(username) {
                    assert(room.users.remove(username) =~= room.users);
                }
            }
        },
        Step::Broadcast { broadcast_id, message, now, .. } => {
            if before.rooms.contains_key(broadcast_id) {
                let room = before.rooms[broadcast_id];
                lemma_user_total_insert(
                    before.rooms,
                    broadcast_id,
                    room.with_message(message).touched(now),
                );
                lemma_user_total_insert(before.rooms, broadcast_id, room.touched(now));
            }
        },
        Step::Sweep { now } => {
            let ids = expired_rooms(before.rooms, now);
            assert forall|id: Seq<char>| #[trigger]
                ids.contains(id) implies before.rooms[id].users.len() == 0 by {
                assert(before.rooms[id].users.dom() =~= Set::empty());
            }
            lemma_user_total_remove_empty(before.rooms, ids);
        },
        Step::Shutdown { .. } => {},
    }
}

/// What was said in a room stays said: as long as the room is there, a step
/// adds to the messages on its channel just what is said in it, at the end, and
/// its channel and its time of opening stay the same.
pub proof fn law_what_was_said_stays(
    before: ServerView,
    step: Step,
    after: ServerView,
    id: Seq<char>,
)
    requires
        step.leads(before, after),
        before.rooms.contains_key(id),
        after.rooms.contains_key(id),
    ensures
        after.rooms[id].channel == (match step.adds_to(id) {
            Some(message) => before.rooms[id].channel.with(message),
            None => before.rooms[id].channel,
        }),
        after.rooms[id].created_at == before.rooms[id].created_at,
{
}

/// A member stays a member, under the same connection, until it leaves: its
/// room is not removed and nobody takes its place.
pub proof fn law_members_stay_until_they_leave(
    before: ServerView,
    step: Step,
    after: ServerView,
    id: Seq<char>,
    name: Seq<char>,
)
    requires
        step.leads(before, after),
        before.rooms.contains_key(id),
        before.rooms[id].users.contains_key(name),
        !step.takes_out(id, name),
    ensures
        after.rooms.contains_key(id),
        after.rooms[id].users.contains_key(name),
        after.rooms[id].users[name] == before.rooms[id].users[name],
{
}

/// As long as a member does not leave, the one channel that it subscribed to
/// holds what it held before and, behind it and in order, just what was said in
/// the room since.
pub proof fn law_members_miss_nothing(
    states: Seq<ServerView>,
    steps: Seq<Step>,
    i: int,
    id: Seq<char>,
    name: Seq<char>,
)
    requires
        is_run(states, steps),
        0 <= i < states.len(),
        states[0].rooms.contains_key(id),
        states[0].rooms[id].users.contains_key(name),
        forall|k: int| 0 <= k < i ==> !(#[trigger] steps[k]).takes_out(id, name),
    ensures
        states[i].rooms.contains_key(id),
        states[i].rooms[id].users.contains_key(name),
        states[i].rooms[id].channel == (ChannelView {
            posted: states[0].rooms[id].channel.posted + said_in(steps.take(i), id),
            ..states[0].rooms[id].channel
        }),
    decreases i,
{
    let first = states[0].rooms[id].channel;
    if i == 0 {
        assert(steps.take(0) =~= Seq::empty());
        assert(first.posted + said_in(steps.take(0), id) =~= first.posted);
    } else {
        assert(steps.take(i).drop_last() =~= steps.take(i - 1));
        assert(steps.take(i).last() == steps[i - 1]);
        law_members_miss_nothing(states, steps, i - 1, id, name);
        assert(steps[i - 1].leads(states[i - 1], states[i - 1 + 1]));
        law_members_stay_until_they_leave(states[i - 1], steps[i - 1], states[i], id, name);
        law_what_was_said_stays(states[i - 1], steps[i - 1], states[i], id);
        assert(states[i].rooms[id].channel.posted =~= first.posted + said_in(steps.take(i), id));
    }
}

/// Entering a room is two steps: joining it, and announcing it there.
pub proof fn law_entering_is_joining_and_announcing(
    before: ServerView,
    session: SessionView,
    now: u128,
    key: int,
)
    requires
        before.join_refusal(session.broadcast_id, session.username) is None,
        before.key_fits(session.broadcast_id, key),
    ensures
        ({
            let joined = before.joined(
                session.broadcast_id,
                session.username,
                session.user_id,
                now,
                key,
            );
            &&& Step::Join {
                broadcast_id: session.broadcast_id,
                username: session.username,
                user_id: session.user_id,
                now,
                key,
            }.leads(before, joined)
            &&& Step::Broadcast {
                broadcast_id: session.broadcast_id,
                message: joined_announcement(session),
                now,
                attended: true,
                result: Ok(()),
            }.leads(joined, session.entered(before, now, key))
        }),
{
}

/// Ending a session is two steps: leaving the room, and announcing it there.
pub proof fn law_disconnecting_is_leaving_and_announcing(
    before: ServerView,
    session: SessionView,
    now: u128,
    attended: bool,
    result: Result<(), BroadcastError>,
    after: ServerView,
)
    requires
        before.left(session.broadcast_id, session.username, now).broadcast(
            session.broadcast_id,
            left_announcement(session),
            now,
            attended,
            result,
            after,
        ),
    ensures
        ({
            let left = before.left(session.broadcast_id, session.username, now);
            &&& Step::Leave {
                broadcast_id: session.broadcast_id,
                username: session.username,
                now,
            }.leads(before, left)
            &&& Step::Broadcast {
                broadcast_id: session.broadcast_id,
                message: left_announcement(session),
                now,
                attended,
                result,
            }.leads(left, after)
        }),
{
}

/// Whatever a client sends comes to one step at most: a message sent in its room.
pub proof fn law_speaking_is_one_step(
    session: SessionView,
    before: ServerView,
    parsed: Result<ChatMessage, String>,
    now: u128,
    attended: bool,
    outcome: MessageOutcome,
    after: ServerView,
)
    requires
        session.handled(before, parsed, now, attended, outcome, after),
    ensures
        match (parsed, outcome) {
            (Ok(message), MessageOutcome::Broadcast(result)) => Step::Broadcast {
                broadcast_id: session.broadcast_id,
                message: sent_by(message@, session.user_id),
                now,
                attended,
                result,
            }.leads(before, after),
            _ => after == before,
        },
{
}

/// Nobody speaks for another: whatever a client sends, at most its own room's
/// channel grows, by a message under the client's own name, room and connection.
pub proof fn law_nobody_speaks_for_another(
    session: SessionView,
    before: ServerView,
    parsed: Result<ChatMessage, String>,
    now: u128,
    attended: bool,
    outcome: MessageOutcome,
    after: ServerView,
    id: Seq<char>,
)
    requires
        session.handled(before, parsed, now, attended, outcome, after),
    ensures
        after.rooms.contains_key(id) == before.rooms.contains_key(id),
        before.rooms.contains_key(id) ==> after.rooms[id].users == before.rooms[id].users,
        before.rooms.contains_key(id) && after.rooms[id].channel != before.rooms[id].channel ==> {
            let said = after.rooms[id].channel.posted.last();
            &&& id == session.broadcast_id
            &&& after.rooms[id].channel == before.rooms[id].channel.with(said)
            &&& said.sender_id == session.user_id
            &&& said.message.username == session.username
            &&& said.message.broadcastid == session.broadcast_id
        },
{
    if after.rooms.contains_key(id) {
        if let Ok(message) = parsed {
            let said = sent_by(message@, session.user_id);
            assert(before.rooms[id].channel.posted.push(said).last() == said);
        }
    }
}

/// A message that the room's channel took is handed on, word for word, to every
/// listener but the connection that it came from.
pub proof fn law_message_reaches_everyone_else(
    session: SessionView,
    before: ServerView,
    message: ChatMessage,
    now: u128,
    after: ServerView,
    copy: InternalMessage,
    listener: Seq<char>,
)
    requires
        session.handled(before, Ok(message), now, true, MessageOutcome::Broadcast(Ok(())), after),
        copy@ == after.rooms[session.broadcast_id].channel.posted.last(),
    ensures
        before.rooms.contains_key(session.broadcast_id),
        after.rooms[session.broadcast_id].channel
            == before.rooms[session.broadcast_id].channel.with(copy@),
        copy.message@ == message@,
        listener == session.user_id ==> outgoing_action(listener, OutgoingEvent::Received(copy))
            == OutgoingAction::Wait,
        listener != session.user_id ==> outgoing_action(listener, OutgoingEvent::Received(copy))
            == OutgoingAction::Serialize(copy.message),
{
    let said = sent_by(message@, session.user_id);
    let room = before.rooms[session.broadcast_id];
    assert(room.channel.posted.push(said).last() == said);
}

/// What the listener is handed on of the messages that its channel hands over.
pub open spec fn handed_on(listener: Seq<char>, messages: Seq<InternalMessage>) -> Seq<ChatMessage>
    decreases messages.len(),
{
    if messages.len() == 0 {
        Seq::empty()
    } else {
        let before = handed_on(listener, messages.drop_last());
        match outgoing_action(listener, OutgoingEvent::Received(messages.last())) {
            OutgoingAction::Serialize(message) => before.push(message),
            _ => before,
        }
    }
}

/// A listener is handed everything that the others say, in the order in which it
/// was said, and nothing that came from its own connection.
pub proof fn law_listener_hears_all_the_others(
    listener: Seq<char>,
    messages: Seq<InternalMessage>,
)
    ensures
        handed_on(listener, messages) == messages.filter(
            |internal: InternalMessage| internal.sender_id@ != listener,
        ).map_values(|internal: InternalMessage| internal.message),
    decreases messages.len(),
{
    reveal(Seq::filter);
    let foreign = |internal: InternalMessage| internal.sender_id@ != listener;
    let content = |internal: InternalMessage| internal.message;
    if messages.len() > 0 {
        law_listener_hears_all_the_others(listener, messages.drop_last());
        if foreign(messages.last()) {
            assert(messages.drop_last().filter(foreign).push(messages.last()).map_values(content)
                =~= messages.drop_last().filter(foreign).map_values(content).push(
                messages.last().message,
            ));
        }
    }
    assert(handed_on(listener, messages) =~= messages.filter(foreign).map_values(content));
}

/// A user's coming and going is told, in the server's name, to every listener
/// but the user's own connection.
pub proof fn law_announcements_go_to_the_others(
    session: SessionView,
    copy: InternalMessage,
    listener: Seq<char>,
)
    requires
        copy@ == joined_announcement(session) || copy@ == left_announcement(session),
    ensures
        copy.message@.username == "system"@,
        copy.message@.broadcastid == session.broadcast_id,
        listener == session.user_id ==> outgoing_action(listener, OutgoingEvent::Received(copy))
            == OutgoingAction::Wait,
        listener != session.user_id ==> outgoing_action(listener, OutgoingEvent::Received(copy))
            == OutgoingAction::Serialize(copy.message),
{
}

/// A notice tells who came or who went: no two users' notices look alike, nor
/// a coming like a going.
pub proof fn law_notices_tell_apart(one: Seq<char>, other: Seq<char>)
    ensures
        joined_notice(one) == joined_notice(other) ==> one == other,
        left_notice(one) == left_notice(other) ==> one == other,
        joined_notice(one) != left_notice(other),
{
    reveal_strlit("type");
    reveal_strlit("message");
    reveal_strlit("user_joined");
    reveal_strlit("user_left");
    assert("type"@.len() != "message"@.len());
    lemma_notice_fields("user_joined"@, one + " joined the chat"@);
    lemma_notice_fields("user_joined"@, other + " joined the chat"@);
    lemma_notice_fields("user_left"@, one + " left the chat"@);
    lemma_notice_fields("user_left"@, other + " left the chat"@);
    assert("user_joined"@.len() != "user_left"@.len());
    assert((one + " joined the chat"@).take(one.len() as int) =~= one);
    assert((one + " left the chat"@).take(one.len() as int) =~= one);
    assert((other + " joined the chat"@).take(other.len() as int) =~= other);
    assert((other + " left the chat"@).take(other.len() as int) =~= other);
}

/// The two members of a notice.
proof fn lemma_notice_fields(kind: Seq<char>, words: Seq<char>)
    ensures
        notice(kind, words) matches Json::Object(members) && members["type"@] == Json::Text(kind)
            && members["message"@] == Json::Text(words),
{
    reveal_strlit("type");
    reveal_strlit("message");
    assert("type"@.len() != "message"@.len());
}

/// When the texts were let through that came in on a connection, up to the end
/// of the reading, if the one before them was let through at `last`.
pub open spec fn let_through(last: u128, inputs: Seq<(IncomingEvent, u128)>) -> Seq<u128>
    decreases inputs.len(),
{
    if inputs.len() == 0 {
        Seq::empty()
    } else {
        let (event, now) = inputs[0];
        let rest = inputs.drop_first();
        match incoming_action(last, event, now) {
            IncomingAction::Parse(_) => seq![now] + let_through(now, rest),
            IncomingAction::Stop => Seq::empty(),
            _ => let_through(last, rest),
        }
    }
}

/// Whether the times lie [`RATE_LIMIT_INTERVAL`] or more apart from one another
/// and behind `last`.
pub open spec fn spaced(last: u128, times: Seq<u128>) -> bool {
    &&& forall|i: int|
        0 <= i < times.len() ==> #[trigger] times[i] >= last + RATE_LIMIT_INTERVAL
    &&& forall|i: int, j: int|
        0 <= i < j < times.len() ==> #[trigger] times[j] >= #[trigger] times[i]
            + RATE_LIMIT_INTERVAL
}

/// However fast a client sends, and whatever the clock does, any two of its
/// messages that are let through lie [`RATE_LIMIT_INTERVAL`] apart or more, and
/// so does the first one from the time of joining.
pub proof fn law_messages_keep_their_distance(last: u128, inputs: Seq<(IncomingEvent, u128)>)
    ensures
        spaced(last, let_through(last, inputs)),
    decreases inputs.len(),
{
    let times = let_through(last, inputs);
    if inputs.len() > 0 {
        let (event, now) = inputs[0];
        let rest = inputs.drop_first();
        match incoming_action(last, event, now) {
            IncomingAction::Parse(_) => {
                law_messages_keep_their_distance(now, rest);
                let later = let_through(now, rest);
                assert(times == seq![now] + later);
                assert forall|i: int| 0 < i < times.len() implies #[trigger] times[i] >= now
                    + RATE_LIMIT_INTERVAL by {
                    assert(times[i] == later[i - 1]);
                }
                assert forall|i: int, j: int| 0 < i < j < times.len() implies #[trigger] times[j]
                    >= #[trigger] times[i] + RATE_LIMIT_INTERVAL by {
                    assert(times[i] == later[i - 1]);
                    assert(times[j] == later[j - 1]);
                }
            },
            IncomingAction::Stop => {
                assert(times == Seq::<u128>::empty());
            },
            _ => {
                law_messages_keep_their_distance(last, rest);
                assert(times == let_through(last, rest));
            },
        }
    }
}

/// A client that waits out the interval is never turned away for speed: what
/// was dropped in between, however much it was, does not count.
pub proof fn law_patience_is_rewarded(
    last: u128,
    dropped: Seq<(IncomingEvent, u128)>,
    text: String,
    now: u128,
)
    requires
        forall|i: int|
            0 <= i < dropped.len() ==> {
                let action = incoming_action(last, (#[trigger] dropped[i]).0, dropped[i].1);
                !(action is Parse) && !(action is Stop)
            },
        byte_len(text@) <= MAX_MESSAGE_SIZE,
        now >= last + RATE_LIMIT_INTERVAL,
    ensures
        let_through(last, dropped.push((IncomingEvent::Text(text), now))) == seq![now],
    decreases dropped.len(),
{
    let inputs = dropped.push((IncomingEvent::Text(text), now));
    let rest = inputs.drop_first();
    if dropped.len() == 0 {
        assert(rest =~= Seq::empty());
        assert(let_through(now, rest) =~= Seq::empty());
        assert(let_through(last, inputs) =~= seq![now]);
    } else {
        assert(inputs[0] == dropped[0]);
        assert(rest =~= dropped.drop_first().push((IncomingEvent::Text(text), now)));
        law_patience_is_rewarded(last, dropped.drop_first(), text, now);
        assert(let_through(last, inputs) == let_through(last, rest));
    }
}

} // verus!
