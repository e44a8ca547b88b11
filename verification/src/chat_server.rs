//! The broker: the one owner of session records and room membership.
//!
//! Every operation takes the broker from one state to the next and returns
//! the notices that the runtime has to hand to the sessions named in them.

use crate::text::{same_text, texts};
use rand::rngs::ThreadRng;
use rand::Rng;
use std::collections::HashMap;
use vstd::prelude::*;

verus! {

broadcast use vstd::std_specs::hash::group_hash_axioms;

/// A new session asks to be registered; `addr` is its outbound handle.
pub struct Connect<H> {
    pub addr: H,
}

/// A session is gone.
pub struct Disconnect {
    pub id: usize,
}

/// Session `id` says `msg` in `room`.
pub struct Message {
    pub id: usize,
    pub msg: String,
    pub room: String,
}

/// Acknowledges a `Message`.
pub struct MessageValue {}

/// Asks for the names of all rooms.
pub struct ListRooms;

/// Session `id` moves to the room `name`.
pub struct Join {
    pub id: usize,
    pub name: String,
}

/// One notice on its way to one session.
#[derive(Debug, Clone, PartialEq, Eq)]
pub struct Delivery {
    pub id: usize,
    pub msg: String,
}

/// A notice as a value: who gets it and what it says.
pub type Note = (usize, Seq<char>);

impl View for Delivery {
    type V = Note;

    open spec fn view(&self) -> Note {
        (self.id, self.msg@)
    }
}

/// The notices that a list of deliveries carries, in order.
pub open spec fn sent(out: Seq<Delivery>) -> Seq<Note> {
    out.map_values(|d: Delivery| d@)
}

/// A room as a value: its name and its members in the order they came.
pub struct RoomView {
    pub name: Seq<char>,
    pub members: Seq<usize>,
}

/// The name of the room that every session starts in.
pub open spec fn main_room() -> Seq<char> {
    "main"@
}

/// The names of `rooms`, in order.
pub open spec fn names(rooms: Seq<RoomView>) -> Seq<Seq<char>> {
    rooms.map_values(|r: RoomView| r.name)
}

/// Whether a room called `name` is among `rooms`.
pub open spec fn has_room(rooms: Seq<RoomView>, name: Seq<char>) -> bool {
    names(rooms).contains(name)
}

/// The members of the room called `name`; none where there is no such room.
pub open spec fn members_of(rooms: Seq<RoomView>, name: Seq<char>) -> Seq<usize> {
    if has_room(rooms, name) {
        rooms[names(rooms).index_of(name)].members
    } else {
        Seq::empty()
    }
}

/// No two rooms share a name, no room lists a member twice, and the
/// starting room exists.
pub open spec fn rooms_wf(rooms: Seq<RoomView>) -> bool {
    &&& names(rooms).no_duplicates()
    &&& forall|i: int| 0 <= i < rooms.len() ==> (#[trigger] rooms[i]).members.no_duplicates()
    &&& has_room(rooms, main_room())
}

/// `members` without `id`, order kept.
pub open spec fn without(members: Seq<usize>, id: usize) -> Seq<usize>
    decreases members.len(),
{
    if members.len() == 0 {
        members
    } else if members.last() == id {
        without(members.drop_last(), id)
    } else {
        without(members.drop_last(), id).push(members.last())
    }
}

/// Whether a notice that skips `skip` goes to member `m`, given the ids
/// that have a session record.
pub open spec fn hears(live: Set<usize>, skip: Option<usize>, m: usize) -> bool {
    live.contains(m) && skip != Some(m)
}

/// The notices that carry `text` to those of `members` who hear it, in
/// member order.
pub open spec fn notices(
    members: Seq<usize>,
    live: Set<usize>,
    skip: Option<usize>,
    text: Seq<char>,
) -> Seq<Note>
    decreases members.len(),
{
    if members.len() == 0 {
        Seq::empty()
    } else {
        let before = notices(members.drop_last(), live, skip, text);
        if hears(live, skip, members.last()) {
            before.push((members.last(), text))
        } else {
            before
        }
    }
}

/// The notices of one broadcast of `text` to the room called `name`.
pub open spec fn fan_out(
    rooms: Seq<RoomView>,
    live: Set<usize>,
    name: Seq<char>,
    skip: Option<usize>,
    text: Seq<char>,
) -> Seq<Note> {
    notices(members_of(rooms, name), live, skip, text)
}

/// `rooms` once `id` has left every one of them.
pub open spec fn vacate(rooms: Seq<RoomView>, id: usize) -> Seq<RoomView> {
    rooms.map_values(|r: RoomView| RoomView { name: r.name, members: without(r.members, id) })
}

/// The notices that tell each room which `id` leaves, room by room, that it
/// has left. They go to the members that stay.
pub open spec fn farewells(
    rooms: Seq<RoomView>,
    live: Set<usize>,
    id: usize,
    text: Seq<char>,
) -> Seq<Note>
    decreases rooms.len(),
{
    if rooms.len() == 0 {
        Seq::empty()
    } else {
        let before = farewells(rooms.drop_last(), live, id, text);
        let room = rooms.last();
        if room.members.contains(id) {
            before + notices(without(room.members, id), live, None, text)
        } else {
            before
        }
    }
}

/// `rooms` with an empty room called `name` added at the end, unless a room
/// of that name is there already.
pub open spec fn with_room(rooms: Seq<RoomView>, name: Seq<char>) -> Seq<RoomView> {
    if has_room(rooms, name) {
        rooms
    } else {
        rooms.push(RoomView { name, members: Seq::empty() })
    }
}

/// `rooms` with `id` added as the newest member of the room called `name`,
/// unless it is a member of it already.
pub open spec fn enter(rooms: Seq<RoomView>, name: Seq<char>, id: usize) -> Seq<RoomView> {
    rooms.map_values(
        |r: RoomView|
            if r.name == name && !r.members.contains(id) {
                RoomView { name: r.name, members: r.members.push(id) }
            } else {
                r
            },
    )
}

/// One operation that changes room membership.
pub enum Event {
    /// A session registers under this id.
    Connect(usize),
    /// The session of this id is gone.
    Disconnect(usize),
    /// The session of this id moves to the named room.
    Join(usize, Seq<char>),
}

/// The rooms after one event: a connect enters the starting room; a
/// disconnect leaves every room; a join leaves every room, makes the named
/// room if it is missing, and enters it.
pub open spec fn step(rooms: Seq<RoomView>, event: Event) -> Seq<RoomView> {
    match event {
        Event::Connect(id) => enter(rooms, main_room(), id),
        Event::Disconnect(id) => vacate(rooms, id),
        Event::Join(id, name) => enter(with_room(vacate(rooms, id), name), name, id),
    }
}

struct Room {
    name: String,
    members: Vec<usize>,
}

impl View for Room {
    type V = RoomView;

    closed spec fn view(&self) -> RoomView {
        RoomView { name: self.name@, members: self.members@ }
    }
}

spec fn views(rooms: Seq<Room>) -> Seq<RoomView> {
    rooms.map_values(|r: Room| r@)
}

/// Whether `id` is among `members`.
fn is_member(members: &Vec<usize>, id: usize) -> (found: bool)
    ensures
        found == members@.contains(id),
{
    let mut i: usize = 0;
    while i < members.len()
        invariant
            i <= members.len(),
            forall|k: int| 0 <= k < i ==> members@[k] != id,
        decreases members.len() - i,
    {
        if members[i] == id {
            return true;
        }
        i += 1;
    }
    false
}

/// A copy of `members` that leaves out `id`.
fn strip(members: &Vec<usize>, id: usize) -> (kept: Vec<usize>)
    ensures
        kept@ == without(members@, id),
{
    let mut kept: Vec<usize> = Vec::new();
    let mut i: usize = 0;
    while i < members.len()
        invariant
            i <= members.len(),
            kept@ == without(members@.take(i as int), id),
        decreases members.len() - i,
    {
        assert(members@.take(i + 1).drop_last() =~= members@.take(i as int));
        if members[i] != id {
            kept.push(members[i]);
        }
        i += 1;
    }
    assert(members@.take(i as int) =~= members@);
    kept
}

/// The place of the room called `name`, if there is one.
fn find_room(rooms: &Vec<Room>, name: &str) -> (place: Option<usize>)
    ensures
        place is Some <==> has_room(views(rooms@), name@),
        place is Some ==> place->0 < rooms.len() && rooms@[place->0 as int]@.name == name@,
{
    let mut i: usize = 0;
    while i < rooms.len()
        invariant
            i <= rooms.len(),
            forall|k: int| 0 <= k < i ==> rooms@[k]@.name != name@,
        decreases rooms.len() - i,
    {
        if same_text(rooms[i].name.as_str(), name) {
            assert(names(views(rooms@))[i as int] == name@);
            return Some(i);
        }
        i += 1;
    }
    assert forall|k: int| 0 <= k < names(views(rooms@)).len() implies names(views(rooms@))[k]
        != name@ by {
        assert(names(views(rooms@))[k] == rooms@[k]@.name);
    }
    None
}

/// What taking `id` out of a member list does and does not change.
pub proof fn lemma_without(members: Seq<usize>, id: usize)
    ensures
        !without(members, id).contains(id),
        forall|m: usize|
            m != id ==> #[trigger] without(members, id).contains(m) == members.contains(m),
        members.no_duplicates() ==> without(members, id).no_duplicates(),
        !members.contains(id) ==> without(members, id) == members,
        without(members, id).len() <= members.len(),
    decreases members.len(),
{
    if members.len() > 0 {
        let front = members.drop_last();
        let last = members.last();
        lemma_without(front, id);
        let kept = without(front, id);
        assert(members =~= front.push(last));
        assert forall|m: usize| m != id implies without(members, id).contains(m)
            == members.contains(m) by {
            if members.contains(m) {
                let k = choose|k: int| 0 <= k < members.len() && members[k] == m;
                if k < front.len() {
                    assert(front[k] == m);
                    assert(front.contains(m));
                    assert(kept.contains(m));
                    let j = choose|j: int| 0 <= j < kept.len() && kept[j] == m;
                    assert(without(members, id)[j] == m);
                } else {
                    assert(without(members, id).last() == m);
                }
            }
            if without(members, id).contains(m) {
                let j = choose|j: int|
                    0 <= j < without(members, id).len() && without(members, id)[j] == m;
                if j < kept.len() {
                    assert(kept[j] == m);
                    assert(kept.contains(m));
                    assert(front.contains(m));
                    let k = choose|k: int| 0 <= k < front.len() && front[k] == m;
                    assert(members[k] == m);
                } else {
                    assert(members[members.len() - 1] == m);
                }
            }
        }
        if last != id {
            assert(!without(members, id).contains(id)) by {
                if without(members, id).contains(id) {
                    let j = choose|j: int|
                        0 <= j < without(members, id).len() && without(members, id)[j] == id;
                    assert(kept[j] == id);
                }
            }
            if members.no_duplicates() {
                assert(front.no_duplicates());
                assert(!kept.contains(last)) by {
                    if kept.contains(last) {
                        assert(front.contains(last));
                        let k = choose|k: int| 0 <= k < front.len() && front[k] == last;
                        assert(members[k] == members[members.len() - 1]);
                    }
                }
            }
            if !members.contains(id) {
                assert(!front.contains(id)) by {
                    if front.contains(id) {
                        let k = choose|k: int| 0 <= k < front.len() && front[k] == id;
                        assert(members[k] == id);
                    }
                }
            }
        } else {
            assert(members[members.len() - 1] == id);
            if members.no_duplicates() {
                assert(front.no_duplicates());
            }
        }
    }
}

/// Appends to `out` the notices that carry `text` to those of `members` who
/// hear it.
fn announce<H>(
    members: &Vec<usize>,
    sessions: &HashMap<usize, H>,
    skip: Option<usize>,
    text: &str,
    out: &mut Vec<Delivery>,
)
    ensures
        sent(final(out)@) == sent(old(out)@) + notices(members@, sessions@.dom(), skip, text@),
{
    let mut i: usize = 0;
    assert(sent(out@) =~= sent(old(out)@) + Seq::<Note>::empty());
    while i < members.len()
        invariant
            i <= members.len(),
            sent(out@) == sent(old(out)@) + notices(
                members@.take(i as int),
                sessions@.dom(),
                skip,
                text@,
            ),
        decreases members.len() - i,
    {
        let m = members[i];
        let skipped = match skip {
            Some(s) => s == m,
            None => false,
        };
        assert(members@.take(i + 1).drop_last() =~= members@.take(i as int));
        if !skipped && sessions.contains_key(&m) {
            let ghost before = out@;
            let d = Delivery { id: m, msg: text.to_owned() };
            out.push(d);
            assert(sent(out@) =~= sent(before).push((m, text@)));
        }
        i += 1;
    }
    assert(members@.take(i as int) =~= members@);
}

/// Takes `id` out of every room and tells each room that it was in.
fn leave_all<H>(
    rooms: &mut Vec<Room>,
    sessions: &HashMap<usize, H>,
    id: usize,
    text: &str,
) -> (out: Vec<Delivery>)
    ensures
        views(final(rooms)@) == vacate(views(old(rooms)@), id),
        sent(out@) == farewells(views(old(rooms)@), sessions@.dom(), id, text@),
{
    let mut out: Vec<Delivery> = Vec::new();
    let mut i: usize = 0;
    let ghost before = views(rooms@);
    assert(sent(out@) =~= Seq::<Note>::empty());
    while i < rooms.len()
        invariant
            i <= rooms.len(),
            rooms.len() == before.len(),
            before == views(old(rooms)@),
            forall|k: int| 0 <= k < i ==> (#[trigger] rooms@[k])@ == vacate(before, id)[k],
            forall|k: int| i <= k < rooms.len() ==> (#[trigger] rooms@[k])@ == before[k],
            sent(out@) == farewells(before.take(i as int), sessions@.dom(), id, text@),
        decreases rooms.len() - i,
    {
        assert(before.take(i + 1).drop_last() =~= before.take(i as int));
        assert(before.take(i + 1).last() == rooms@[i as int]@);
        proof {
            lemma_without(rooms@[i as int]@.members, id);
        }
        if is_member(&rooms[i].members, id) {
            let kept = strip(&rooms[i].members, id);
            announce(&kept, sessions, None, text, &mut out);
            rooms[i].members = kept;
        }
        i += 1;
    }
    assert(before.take(i as int) =~= before);
    assert(views(rooms@) =~= vacate(before, id));
    out
}

/// Makes `id` the newest member of the room at `place`, unless it is a
/// member already.
fn seat(rooms: &mut Vec<Room>, place: usize, id: usize)
    requires
        place < old(rooms).len(),
        names(views(old(rooms)@)).no_duplicates(),
    ensures
        views(final(rooms)@) == enter(views(old(rooms)@), old(rooms)@[place as int]@.name, id),
{
    let ghost before = views(rooms@);
    if !is_member(&rooms[place].members, id) {
        rooms[place].members.push(id);
    }
    assert forall|k: int| 0 <= k < before.len() && k != place implies before[k].name
        != before[place as int].name by {
        assert(names(before)[k] == before[k].name);
        assert(names(before)[place as int] == before[place as int].name);
    }
    assert(views(rooms@) =~= enter(before, before[place as int].name, id));
}

#[verifier::external_type_specification]
#[verifier::external_body]
pub struct ExThreadRng(ThreadRng);

/// `rand::thread_rng`: a handle to the calling thread's generator.
#[verifier::external_body]
fn local_rng() -> (rng: ThreadRng) {
    rand::thread_rng()
}

/// `Rng::gen::<usize>` on the thread's generator: any id may come back.
#[verifier::external_body]
fn draw_id(rng: &mut ThreadRng) -> (id: usize) {
    rng.gen::<usize>()
}

/// The broker's state: one outbound handle per registered session, and the
/// rooms with their members.
pub struct ChatServer<H> {
    sessions: HashMap<usize, H>,
    rooms: Vec<Room>,
    rng: ThreadRng,
}

impl<H> Default for ChatServer<H> {
    /// A broker with no session and the empty starting room.
    fn default() -> (server: Self)
        ensures
            server.wf(),
            server.sessions() == Map::<usize, H>::empty(),
            server.rooms() == seq![RoomView { name: main_room(), members: Seq::empty() }],
    {
        let mut rooms: Vec<Room> = Vec::new();
        rooms.push(Room { name: "main".to_owned(), members: Vec::new() });
        let server = ChatServer { sessions: HashMap::new(), rooms, rng: local_rng() };
        let ghost expected = seq![RoomView { name: main_room(), members: Seq::<usize>::empty() }];
        assert(server.rooms() =~= expected);
        assert(names(expected)[0] == main_room());
        server
    }
}

impl<H> ChatServer<H> {
    /// The session records: id to outbound handle.
    pub closed spec fn sessions(&self) -> Map<usize, H> {
        self.sessions@
    }

    /// The rooms, oldest first.
    pub closed spec fn rooms(&self) -> Seq<RoomView> {
        views(self.rooms@)
    }

    /// The ids that have a session record.
    pub open spec fn live(&self) -> Set<usize> {
        self.sessions().dom()
    }

    /// The broker's invariant.
    pub open spec fn wf(&self) -> bool {
        rooms_wf(self.rooms())
    }

    /// Registers a session under `id` with its outbound handle, makes it a
    /// member of the starting room and tells that room, the newcomer
    /// included. A record that `id` had before is replaced.
    pub fn register(&mut self, id: usize, addr: H) -> (out: Vec<Delivery>)
        requires
            old(self).wf(),
        ensures
            final(self).wf(),
            final(self).sessions() == old(self).sessions().insert(id, addr),
            final(self).rooms() == step(old(self).rooms(), Event::Connect(id)),
            sent(out@) == fan_out(
                final(self).rooms(),
                final(self).live(),
                main_room(),
                None,
                "Someone Joined"@,
            ),
    {
        self.sessions.insert(id, addr);
        proof {
            lemma_enter_wf(old(self).rooms(), main_room(), id);
        }
        match find_room(&self.rooms, "main") {
            Some(place) => {
                seat(&mut self.rooms, place, id);
            },
            None => {},
        }
        self.send_message("main", "Someone Joined", None)
    }

    /// Registers a new session under a freshly drawn id, which is returned
    /// with the notices. The id is not checked against those in use.
    pub fn connect(&mut self, msg: Connect<H>) -> (reply: (usize, Vec<Delivery>))
        requires
            old(self).wf(),
        ensures
            final(self).wf(),
            final(self).sessions() == old(self).sessions().insert(reply.0, msg.addr),
            final(self).rooms() == step(old(self).rooms(), Event::Connect(reply.0)),
            sent(reply.1@) == fan_out(
                final(self).rooms(),
                final(self).live(),
                main_room(),
                None,
                "Someone Joined"@,
            ),
    {
        let id = draw_id(&mut self.rng);
        let out = self.register(id, msg.addr);
        (id, out)
    }

    /// Drops the record of `msg.id`, takes the id out of every room and
    /// tells each room that it was in. The rooms are cleaned up even where
    /// the id had no record.
    pub fn disconnect(&mut self, msg: Disconnect) -> (out: Vec<Delivery>)
        requires
            old(self).wf(),
        ensures
            final(self).wf(),
            final(self).sessions() == old(self).sessions().remove(msg.id),
            final(self).rooms() == step(old(self).rooms(), Event::Disconnect(msg.id)),
            sent(out@) == farewells(
                old(self).rooms(),
                final(self).live(),
                msg.id,
                "Someone disconnected"@,
            ),
    {
        let id = msg.id;
        self.sessions.remove(&id);
        proof {
            lemma_vacate_wf(old(self).rooms(), id);
        }
        leave_all(&mut self.rooms, &self.sessions, id, "Someone disconnected")
    }

    /// Relays `msg.msg` to the members of `msg.room`, but not to the sender.
    pub fn message(&self, msg: Message) -> (reply: (MessageValue, Vec<Delivery>))
        requires
            self.wf(),
        ensures
            sent(reply.1@) == fan_out(
                self.rooms(),
                self.live(),
                msg.room@,
                Some(msg.id),
                msg.msg@,
            ),
    {
        let out = self.send_message(msg.room.as_str(), msg.msg.as_str(), Some(msg.id));
        (MessageValue {  }, out)
    }

    /// The names of all rooms, oldest first.
    pub fn list_rooms(&self, msg: ListRooms) -> (out: Vec<String>)
        ensures
            texts(out@) == names(self.rooms()),
    {
        let mut out: Vec<String> = Vec::new();
        let mut i: usize = 0;
        while i < self.rooms.len()
            invariant
                i <= self.rooms.len(),
                out.len() == i,
                forall|k: int| 0 <= k < i ==> (#[trigger] out@[k])@ == self.rooms@[k]@.name,
            decreases self.rooms.len() - i,
        {
            out.push(self.rooms[i].name.clone());
            i += 1;
        }
        assert(texts(out@) =~= names(self.rooms()));
        out
    }

    /// Moves `msg.id` to the room `msg.name`: takes it out of every room and
    /// tells each room that it was in, makes the room if it is missing,
    /// tells the room's members of the newcomer, and then adds it.
    pub fn join(&mut self, msg: Join) -> (out: Vec<Delivery>)
        requires
            old(self).wf(),
        ensures
            final(self).wf(),
            final(self).sessions() == old(self).sessions(),
            final(self).rooms() == step(old(self).rooms(), Event::Join(msg.id, msg.name@)),
            sent(out@) == farewells(
                old(self).rooms(),
                old(self).live(),
                msg.id,
                "Someone disconnected"@,
            ) + fan_out(
                with_room(vacate(old(self).rooms(), msg.id), msg.name@),
                old(self).live(),
                msg.name@,
                Some(msg.id),
                "Someone connected"@,
            ),
    {
        let Join { id, name } = msg;
        let ghost cleared = vacate(old(self).rooms(), id);
        let ghost ready = with_room(cleared, name@);
        proof {
            lemma_vacate_wf(old(self).rooms(), id);
            lemma_with_room_wf(cleared, name@);
            lemma_enter_wf(ready, name@, id);
        }
        let mut out = leave_all(&mut self.rooms, &self.sessions, id, "Someone disconnected");
        let place = match find_room(&self.rooms, name.as_str()) {
            Some(place) => place,
            None => {
                self.rooms.push(Room { name: name.clone(), members: Vec::new() });
                self.rooms.len() - 1
            },
        };
        assert(views(self.rooms@) =~= ready);
        proof {
            lemma_room_at(ready, place as int);
        }
        announce(&self.rooms[place].members, &self.sessions, Some(id), "Someone connected", &mut out);
        seat(&mut self.rooms, place, id);
        out
    }

    /// The members of `room`, oldest first; none where there is no such
    /// room.
    pub fn members(&self, room: &str) -> (list: Vec<usize>)
        requires
            self.wf(),
        ensures
            list@ == members_of(self.rooms(), room@),
    {
        match find_room(&self.rooms, room) {
            Some(place) => {
                proof {
                    lemma_room_at(self.rooms(), place as int);
                }
                self.rooms[place].members.clone()
            },
            None => Vec::new(),
        }
    }

    /// The outbound handle of session `id`, if it has a record.
    pub fn recipient(&self, id: usize) -> (handle: Option<&H>)
        ensures
            handle is Some <==> self.live().contains(id),
            handle is Some ==> *handle->0 == self.sessions()[id],
    {
        self.sessions.get(&id)
    }

    /// The notices of one broadcast of `message` to `room`: one for each
    /// member that has a session record, but for `skip`. A room that does
    /// not exist has no members.
    pub fn send_message(&self, room: &str, message: &str, skip: Option<usize>) -> (out: Vec<
        Delivery,
    >)
        requires
            self.wf(),
        ensures
            sent(out@) == fan_out(self.rooms(), self.live(), room@, skip, message@),
    {
        let mut out: Vec<Delivery> = Vec::new();
        assert(sent(out@) =~= Seq::<Note>::empty());
        match find_room(&self.rooms, room) {
            Some(place) => {
                proof {
                    lemma_room_at(self.rooms(), place as int);
                }
                announce(&self.rooms[place].members, &self.sessions, skip, message, &mut out);
            },
            None => {},
        }
        out
    }
}

/// Leaving every room keeps the rooms and their names, and the invariant.
pub proof fn lemma_vacate_wf(rooms: Seq<RoomView>, id: usize)
    requires
        rooms_wf(rooms),
    ensures
        rooms_wf(vacate(rooms, id)),
        names(vacate(rooms, id)) == names(rooms),
{
    let after = vacate(rooms, id);
    assert(names(after) =~= names(rooms));
    assert forall|i: int| 0 <= i < after.len() implies (#[trigger] after[i]).members.no_duplicates() by {
        assert(rooms[i].members.no_duplicates());
        lemma_without(rooms[i].members, id);
    }
}

/// Adding a missing room keeps the invariant, and the room is then there.
pub proof fn lemma_with_room_wf(rooms: Seq<RoomView>, name: Seq<char>)
    requires
        rooms_wf(rooms),
    ensures
        rooms_wf(with_room(rooms, name)),
        has_room(with_room(rooms, name), name),
{
    if !has_room(rooms, name) {
        let after = with_room(rooms, name);
        assert(names(after) =~= names(rooms).push(name));
        assert(names(after)[rooms.len() as int] == name);
        let k = choose|k: int| 0 <= k < names(rooms).len() && names(rooms)[k] == main_room();
        assert(names(after)[k] == main_room());
        assert forall|i: int| 0 <= i < after.len() implies (#[trigger] after[i]).members.no_duplicates() by {
            if i < rooms.len() {
                assert(rooms[i].members.no_duplicates());
            }
        }
    }
}

/// Entering a room keeps the rooms and their names, and the invariant.
pub proof fn lemma_enter_wf(rooms: Seq<RoomView>, name: Seq<char>, id: usize)
    requires
        rooms_wf(rooms),
    ensures
        rooms_wf(enter(rooms, name, id)),
        names(enter(rooms, name, id)) == names(rooms),
{
    let after = enter(rooms, name, id);
    assert(names(after) =~= names(rooms));
    assert forall|i: int| 0 <= i < after.len() implies (#[trigger] after[i]).members.no_duplicates() by {
        assert(rooms[i].members.no_duplicates());
    }
}

/// A notice goes to exactly those members who hear it, and says `text`.
pub proof fn notices_reach(
    members: Seq<usize>,
    live: Set<usize>,
    skip: Option<usize>,
    text: Seq<char>,
    note: Note,
)
    ensures
        notices(members, live, skip, text).contains(note) == (members.contains(note.0) && hears(
            live,
            skip,
            note.0,
        ) && note.1 == text),
    decreases members.len(),
{
    if members.len() > 0 {
        let front = members.drop_last();
        let last = members.last();
        let before = notices(front, live, skip, text);
        let all = notices(members, live, skip, text);
        notices_reach(front, live, skip, text, note);
        assert(members =~= front.push(last));
        if before.contains(note) {
            let k = choose|k: int| 0 <= k < before.len() && before[k] == note;
            assert(all[k] == note);
            let j = choose|j: int| 0 <= j < front.len() && front[j] == note.0;
            assert(members[j] == note.0);
        }
        if all.contains(note) {
            let k = choose|k: int| 0 <= k < all.len() && all[k] == note;
            if k < before.len() {
                assert(before[k] == note);
            } else {
                assert(members[members.len() - 1] == note.0);
            }
        }
        if members.contains(note.0) && hears(live, skip, note.0) && note.1 == text {
            let j = choose|j: int| 0 <= j < members.len() && members[j] == note.0;
            if j < front.len() {
                assert(front[j] == note.0);
            } else {
                assert(all[all.len() - 1] == note);
            }
        }
    }
}

/// A message is never handed back to the session that sent it.
pub proof fn sender_is_skipped(
    rooms: Seq<RoomView>,
    live: Set<usize>,
    room: Seq<char>,
    sender: usize,
    text: Seq<char>,
)
    ensures
        forall|k: int|
            0 <= k < fan_out(rooms, live, room, Some(sender), text).len() ==> (#[trigger] fan_out(
                rooms,
                live,
                room,
                Some(sender),
                text,
            )[k]).0 != sender,
{
    let out = fan_out(rooms, live, room, Some(sender), text);
    assert forall|k: int| 0 <= k < out.len() implies (#[trigger] out[k]).0 != sender by {
        notices_reach(members_of(rooms, room), live, Some(sender), text, out[k]);
    }
}

/// In rooms with distinct names, looking a room up by its name finds it.
pub proof fn lemma_room_at(rooms: Seq<RoomView>, place: int)
    requires
        0 <= place < rooms.len(),
    ensures
        has_room(rooms, rooms[place].name),
        names(rooms).no_duplicates() ==> members_of(rooms, rooms[place].name)
            == rooms[place].members,
{
    let name = rooms[place].name;
    assert(names(rooms)[place] == name);
    if names(rooms).no_duplicates() {
        let found = names(rooms).index_of(name);
        assert(names(rooms)[found] == name);
    }
}

} // verus!
