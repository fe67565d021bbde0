//! The table of rooms. It is only ever changed through a unique reference, so
//! a room can be taken out, worked on and put back without anybody noticing.
use crate::room::{BroadcastRoom, RoomState, RoomStatus, RoomView};
use dashmap::DashMap;
use vstd::prelude::*;

verus! {

/// `dashmap::DashMap`, a hash map of keys to values.
#[verifier::external_type_specification]
#[verifier::external_body]
#[verifier::reject_recursive_types(K)]
#[verifier::reject_recursive_types(V)]
#[verifier::reject_recursive_types(S)]
pub struct ExDashMap<K, V, S>(DashMap<K, V, S>);

/// The rooms that a table holds, by their ids.
pub uninterp spec fn table(rooms: DashMap<String, BroadcastRoom>) -> Map<Seq<char>, RoomState>;

/// The rooms that a table holds, whether or not anybody listens in them.
pub open spec fn rooms_in(rooms: DashMap<String, BroadcastRoom>) -> Map<Seq<char>, RoomView> {
    table(rooms).map_values(|state: RoomState| state.room)
}

/// Whether no room speaks over the channel with that key.
pub open spec fn unused_key(rooms: Map<Seq<char>, RoomView>, key: int) -> bool {
    forall|id: Seq<char>| #[trigger] rooms.contains_key(id) ==> rooms[id].channel.key != key
}

/// `DashMap::new` gives a table without rooms.
#[verifier::external_body]
pub(crate) fn new_table() -> (rooms: DashMap<String, BroadcastRoom>)
    ensures
        table(rooms).is_empty(),
{
    DashMap::new()
}

/// `DashMap::remove` takes the room with that id out of the table, if it is
/// there, and hands it over with its id.
#[verifier::external_body]
pub(crate) fn take_room(rooms: &mut DashMap<String, BroadcastRoom>, id: &str) -> (taken: Option<
    (String, BroadcastRoom),
>)
    ensures
        table(*final(rooms)) == table(*old(rooms)).remove(id@),
        taken is Some <==> table(*old(rooms)).contains_key(id@),
        taken matches Some(entry) ==> entry.0@ == id@ && entry.1.state() == table(
            *old(rooms),
        )[id@],
{
    rooms.remove(id)
}

/// `DashMap::insert` files a room under an id, and hands back the room that
/// was filed there before.
#[verifier::external_body]
pub(crate) fn put_room(
    rooms: &mut DashMap<String, BroadcastRoom>,
    id: String,
    room: BroadcastRoom,
) -> (previous: Option<BroadcastRoom>)
    ensures
        table(*final(rooms)) == table(*old(rooms)).insert(id@, room.state()),
        previous is Some <==> table(*old(rooms)).contains_key(id@),
        previous matches Some(before) ==> before.state() == table(*old(rooms))[id@],
{
    rooms.insert(id, room)
}

/// `DashMap::view` looks at the room with that id, if it is there; its figures
/// are handed out.
#[verifier::external_body]
pub(crate) fn view_room(rooms: &DashMap<String, BroadcastRoom>, id: &str) -> (status: Option<
    RoomStatus,
>)
    ensures
        status is Some <==> table(*rooms).contains_key(id@),
        status matches Some(figures) ==> figures.describes(table(*rooms)[id@].room),
{
    rooms.view(id, |_, room| room.status())
}

/// `DashMap::iter` walks over every room once, in an order that is not
/// stated; of each room the id and the figures are handed out.
#[verifier::external_body]
pub(crate) fn list_rooms(rooms: &DashMap<String, BroadcastRoom>) -> (listed: Vec<
    (String, RoomStatus),
>)
    ensures
        forall|i: int, j: int|
            0 <= i < j < listed@.len() ==> (#[trigger] listed@[i]).0@ != (#[trigger] listed@[j]).0@,
        forall|i: int|
            0 <= i < listed@.len() ==> table(*rooms).contains_key((#[trigger] listed@[i]).0@)
                && listed@[i].1.describes(table(*rooms)[listed@[i].0@].room),
        forall|id: Seq<char>| #[trigger]
            table(*rooms).contains_key(id) ==> exists|i: int|
                0 <= i < listed@.len() && (#[trigger] listed@[i]).0@ == id,
{
    rooms.iter().map(|entry| (entry.key().clone(), entry.value().status())).collect()
}

/// `DashMap::len` counts the rooms.
#[verifier::external_body]
pub(crate) fn count_rooms(rooms: &DashMap<String, BroadcastRoom>) -> (count: usize)
    ensures
        count == table(*rooms).len(),
{
    rooms.len()
}

} // verus!
