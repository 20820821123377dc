//! Rooms: named, ordered collections of game objects. A room's name is its
//! identity; the order of its objects decides both dispatch order and draw
//! order. Room tables are fixed at build time: only the objects' internal
//! state ever changes at runtime.

use vstd::prelude::*;

verus! {

/// A named, ordered list of game objects.
pub struct Room<T> {
    pub name: String,
    pub objs: Vec<T>,
}

/// The mathematical value of a room: its name and its objects.
#[verifier::ext_equal]
#[verifier::reject_recursive_types(T)]
pub ghost struct RoomV<T> {
    pub name: Seq<char>,
    pub objs: Seq<T>,
}

impl<T> View for Room<T> {
    type V = RoomV<T>;

    open spec fn view(&self) -> RoomV<T> {
        RoomV { name: self.name@, objs: self.objs@ }
    }
}

/// The view of a whole room table.
pub open spec fn rooms_view<T>(rooms: Seq<Room<T>>) -> Seq<RoomV<T>> {
    rooms.map_values(|r: Room<T>| r@)
}

/// Whether some room of the table carries this name.
pub open spec fn has_room<T>(rooms: Seq<RoomV<T>>, name: Seq<char>) -> bool {
    exists|i: int| 0 <= i < rooms.len() && rooms[i].name == name
}

/// The index of the room with this name. Meaningful where names are unique,
/// which every room table of this crate keeps as an invariant.
pub open spec fn room_index<T>(rooms: Seq<RoomV<T>>, name: Seq<char>) -> int {
    choose|i: int| 0 <= i < rooms.len() && rooms[i].name == name
}

/// No two rooms of the table share a name.
pub open spec fn names_unique<T>(rooms: Seq<RoomV<T>>) -> bool {
    forall|i: int, j: int|
        0 <= i < j < rooms.len() ==> #[trigger] rooms[i].name != #[trigger] rooms[j].name
}

/// Under unique names, an index whose room carries the name is the one that
/// `room_index` picks.
pub proof fn lemma_room_index_unique<T>(rooms: Seq<RoomV<T>>, name: Seq<char>, i: int)
    requires
        names_unique(rooms),
        0 <= i < rooms.len(),
        rooms[i].name == name,
    ensures
        has_room(rooms, name),
        room_index(rooms, name) == i,
{
    assert(has_room(rooms, name));
    let j = room_index(rooms, name);
    if j != i {
        if j < i {
            assert(rooms[j].name != rooms[i].name);
        } else {
            assert(rooms[i].name != rooms[j].name);
        }
    }
}

/// Find the room with this name, scanning in table order.
pub fn find_room<T>(rooms: &Vec<Room<T>>, name: &String) -> (r: Option<usize>)
    ensures
        match r {
            Some(i) => i < rooms@.len() && rooms_view(rooms@)[i as int].name == name@,
            None => !has_room(rooms_view(rooms@), name@),
        },
{
    let mut i: usize = 0;
    while i < rooms.len()
        invariant
            i <= rooms@.len(),
            forall|j: int| 0 <= j < i ==> #[trigger] rooms_view(rooms@)[j].name != name@,
        decreases rooms@.len() - i,
    {
        let r = &rooms[i];
        if r.name == *name {
            return Some(i);
        }
        i += 1;
    }
    None
}

} // verus!
