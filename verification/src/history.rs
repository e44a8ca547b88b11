//! Room membership over whole histories of broker operations.
//!
//! The broker's operations are stated as functions on room lists. This
//! module runs a history of them and says, for every id and every room,
//! whether the id is a member at the end.

use crate::chat_server::{
    enter, has_room, lemma_enter_wf, lemma_vacate_wf, lemma_with_room_wf, lemma_without, main_room,
    members_of, names, rooms_wf, step, vacate, with_room, without, Event, RoomView,
};
use vstd::prelude::*;

verus! {

/// The rooms after a history of events, oldest first.
pub open spec fn run(rooms: Seq<RoomView>, events: Seq<Event>) -> Seq<RoomView>
    decreases events.len(),
{
    if events.len() == 0 {
        rooms
    } else {
        step(run(rooms, events.drop_last()), events.last())
    }
}

/// The rooms that a history has put `id` in and not taken it out of again:
/// a disconnect empties the set, a join makes it the one joined room, and a
/// connect adds the starting room.
pub open spec fn placed(events: Seq<Event>, id: usize) -> Set<Seq<char>>
    decreases events.len(),
{
    if events.len() == 0 {
        Set::empty()
    } else {
        let before = placed(events.drop_last(), id);
        match events.last() {
            Event::Connect(who) => if who == id {
                before.insert(main_room())
            } else {
                before
            },
            Event::Disconnect(who) => if who == id {
                Set::empty()
            } else {
                before
            },
            Event::Join(who, name) => if who == id {
                set![name]
            } else {
                before
            },
        }
    }
}

/// Whether `id` is a member of no room.
pub open spec fn nowhere(rooms: Seq<RoomView>, id: usize) -> bool {
    forall|name: Seq<char>| !(#[trigger] members_of(rooms, name)).contains(id)
}

/// Leaving every room takes `id` out of each member list and changes
/// nothing else.
pub proof fn lemma_vacate_members(rooms: Seq<RoomView>, id: usize, name: Seq<char>)
    requires
        names(rooms).no_duplicates(),
    ensures
        members_of(vacate(rooms, id), name) == without(members_of(rooms, name), id),
{
    let after = vacate(rooms, id);
    assert(names(after) =~= names(rooms));
    if has_room(rooms, name) {
        let at = names(rooms).index_of(name);
        assert(names(rooms)[at] == name);
    }
}

/// Adding a missing room changes nobody's membership.
pub proof fn lemma_with_room_members(rooms: Seq<RoomView>, added: Seq<char>, name: Seq<char>)
    requires
        names(rooms).no_duplicates(),
    ensures
        members_of(with_room(rooms, added), name) == members_of(rooms, name),
{
    if !has_room(rooms, added) {
        let after = with_room(rooms, added);
        let end = rooms.len() as int;
        assert(names(after) =~= names(rooms).push(added));
        assert(names(after)[end] == added);
        if name == added {
            let at = names(after).index_of(name);
            assert(names(after)[at] == name);
            if at < end {
                assert(names(rooms)[at] == name);
            }
        } else if has_room(rooms, name) {
            let was = names(rooms).index_of(name);
            assert(names(rooms)[was] == name);
            assert(names(after)[was] == name);
            let at = names(after).index_of(name);
            assert(names(after)[at] == name);
            assert(names(rooms)[at] == name);
        } else if has_room(after, name) {
            let at = names(after).index_of(name);
            assert(names(after)[at] == name);
            assert(names(rooms)[at] == name);
        }
    }
}

/// Entering a room adds `id` to that room's members, if the room exists and
/// `id` is not yet among them, and changes nothing else.
pub proof fn lemma_enter_members(rooms: Seq<RoomView>, target: Seq<char>, id: usize, name: Seq<char>)
    requires
        names(rooms).no_duplicates(),
    ensures
        members_of(enter(rooms, target, id), name) == if name == target && has_room(rooms, target)
            && !members_of(rooms, target).contains(id) {
            members_of(rooms, target).push(id)
        } else {
            members_of(rooms, name)
        },
{
    let after = enter(rooms, target, id);
    assert(names(after) =~= names(rooms));
    if has_room(rooms, name) {
        let at = names(rooms).index_of(name);
        assert(names(rooms)[at] == name);
    }
}

/// Every step keeps the rooms' invariant.
pub proof fn lemma_step_wf(rooms: Seq<RoomView>, event: Event)
    requires
        rooms_wf(rooms),
    ensures
        rooms_wf(step(rooms, event)),
{
    match event {
        Event::Connect(id) => {
            lemma_enter_wf(rooms, main_room(), id);
        },
        Event::Disconnect(id) => {
            lemma_vacate_wf(rooms, id);
        },
        Event::Join(id, name) => {
            lemma_vacate_wf(rooms, id);
            lemma_with_room_wf(vacate(rooms, id), name);
            lemma_enter_wf(with_room(vacate(rooms, id), name), name, id);
        },
    }
}

/// Every history keeps the rooms' invariant.
pub proof fn lemma_run_wf(rooms: Seq<RoomView>, events: Seq<Event>)
    requires
        rooms_wf(rooms),
    ensures
        rooms_wf(run(rooms, events)),
    decreases events.len(),
{
    if events.len() > 0 {
        lemma_run_wf(rooms, events.drop_last());
        lemma_step_wf(run(rooms, events.drop_last()), events.last());
    }
}

/// How one step changes whether `who` is a member of the room `name`.
pub proof fn step_membership(rooms: Seq<RoomView>, event: Event, who: usize, name: Seq<char>)
    requires
        rooms_wf(rooms),
    ensures
        members_of(step(rooms, event), name).contains(who) == (match event {
            Event::Connect(id) => members_of(rooms, name).contains(who) || (who == id && name
                == main_room()),
            Event::Disconnect(id) => who != id && members_of(rooms, name).contains(who),
            Event::Join(id, target) => if who == id {
                name == target
            } else {
                members_of(rooms, name).contains(who)
            },
        }),
{
    match event {
        Event::Connect(id) => {
            lemma_enter_members(rooms, main_room(), id, name);
            lemma_push_contains(members_of(rooms, main_room()), id, who);
        },
        Event::Disconnect(id) => {
            lemma_vacate_members(rooms, id, name);
            lemma_without(members_of(rooms, name), id);
        },
        Event::Join(id, target) => {
            let cleared = vacate(rooms, id);
            let ready = with_room(cleared, target);
            lemma_vacate_wf(rooms, id);
            lemma_with_room_wf(cleared, target);
            lemma_vacate_members(rooms, id, name);
            lemma_vacate_members(rooms, id, target);
            lemma_without(members_of(rooms, name), id);
            lemma_without(members_of(rooms, target), id);
            lemma_with_room_members(cleared, target, name);
            lemma_with_room_members(cleared, target, target);
            lemma_enter_members(ready, target, id, name);
            lemma_push_contains(members_of(ready, target), id, who);
        },
    }
}

/// What a list holds once one more item is added at its end.
pub proof fn lemma_push_contains(members: Seq<usize>, id: usize, who: usize)
    ensures
        members.push(id).contains(who) == (members.contains(who) || who == id),
{
    let longer = members.push(id);
    if members.contains(who) {
        let k = choose|k: int| 0 <= k < members.len() && members[k] == who;
        assert(longer[k] == who);
    }
    if who == id {
        assert(longer[members.len() as int] == who);
    }
    if longer.contains(who) {
        let k = choose|k: int| 0 <= k < longer.len() && longer[k] == who;
        if k < members.len() {
            assert(members[k] == who);
        }
    }
}

/// After any history that starts with `id` in no room, `id` is a member of
/// exactly the rooms the history has put it in since its last disconnect:
/// the starting room after a connect, the joined room and no other after a
/// join, and none after a disconnect.
pub proof fn membership_follows_history(
    rooms: Seq<RoomView>,
    events: Seq<Event>,
    id: usize,
    name: Seq<char>,
)
    requires
        rooms_wf(rooms),
        nowhere(rooms, id),
    ensures
        members_of(run(rooms, events), name).contains(id) == placed(events, id).contains(name),
    decreases events.len(),
{
    if events.len() == 0 {
        assert(!members_of(rooms, name).contains(id));
    } else {
        let earlier = events.drop_last();
        membership_follows_history(rooms, earlier, id, name);
        lemma_run_wf(rooms, earlier);
        step_membership(run(rooms, earlier), events.last(), id, name);
    }
}

/// A join takes the id out of the room it was in and puts it in the joined
/// room, in one step: afterwards it is a member there and nowhere else.
pub proof fn join_moves(rooms: Seq<RoomView>, id: usize, target: Seq<char>, name: Seq<char>)
    requires
        rooms_wf(rooms),
    ensures
        members_of(step(rooms, Event::Join(id, target)), name).contains(id) == (name == target),
{
    step_membership(rooms, Event::Join(id, target), id, name);
}

/// Once an id has disconnected it is a member of no room.
pub proof fn disconnect_clears(rooms: Seq<RoomView>, id: usize)
    requires
        rooms_wf(rooms),
    ensures
        nowhere(step(rooms, Event::Disconnect(id)), id),
{
    assert forall|name: Seq<char>|
        !(#[trigger] members_of(step(rooms, Event::Disconnect(id)), name)).contains(id) by {
        step_membership(rooms, Event::Disconnect(id), id, name);
    }
}

} // verus!
