//! The session of one connection on the binary transport.
//!
//! A session is a state machine. The runtime hands it what happens (a
//! decoded request, a reply from the broker, a tick of the heartbeat timer)
//! together with the current time, and carries out the actions it returns.

use crate::chat_server::{rooms_wf, step, Event, RoomView};
use crate::codec::{ChatRequest, ChatRequestView, ChatResponse, ChatResponseView};
use crate::history::{disconnect_clears, nowhere};
use crate::text::texts;
use vstd::prelude::*;

verus! {

/// A line of chat that the broker pushes to a session.
pub struct Message(pub String);

/// Where a session is in its life.
#[derive(Debug, Clone, Copy, PartialEq, Eq, Structural)]
pub enum Phase {
    /// Waiting for the broker to assign an id.
    Connecting,
    /// Serving the peer.
    Active,
    /// The session serves the peer no more and is about to end.
    Disconnecting,
    /// Nothing is processed any more.
    Terminated,
}

/// Why a frame could not be had from the transport.
#[derive(Debug, Clone, Copy, PartialEq, Eq, Structural)]
pub enum StreamError {
    /// The transport failed.
    Io,
    /// The bytes were no valid request.
    Malformed,
}

/// Milliseconds between two heartbeat ticks on the binary transport.
pub const HEARTBEAT_INTERVAL: u64 = 1000;

/// Milliseconds of silence after which a binary session is given up.
pub const CLIENT_TIMEOUT: u64 = 10000;

/// Whether a peer last heard of at `last` is overdue at `now`. A clock
/// reading before `last` counts as no time gone by.
pub open spec fn expired(last: u64, now: u64, timeout: u64) -> bool {
    now - last > timeout
}

/// Decides whether a peer last heard of at `last` is overdue at `now`.
pub fn is_expired(last: u64, now: u64, timeout: u64) -> (late: bool)
    ensures
        late == expired(last, now, timeout),
{
    now > last && now - last > timeout
}

/// What a session asks the runtime to do.
#[derive(Debug, Clone, PartialEq, Eq)]
pub enum Action {
    /// Register with the broker; the reply goes to `connected`.
    Connect,
    /// Tell the broker that session `id` is gone.
    Disconnect { id: usize },
    /// Ask the broker for the room names and hold further frames back
    /// until the reply has gone to `listed`.
    ListRooms,
    /// Tell the broker that session `id` moves to `name`.
    Join { id: usize, name: String },
    /// Hand the broker a line that session `id` says in `room`.
    Message { id: usize, room: String, msg: String },
    /// Write a response frame to the peer.
    Write(ChatResponse),
    /// Stop the session. The runtime then lets it end, which `stopping`
    /// answers.
    Stop,
}

/// An action as a value.
pub enum ActionView {
    Connect,
    Disconnect { id: usize },
    ListRooms,
    Join { id: usize, name: Seq<char> },
    Message { id: usize, room: Seq<char>, msg: Seq<char> },
    Write(ChatResponseView),
    Stop,
}

impl View for Action {
    type V = ActionView;

    open spec fn view(&self) -> ActionView {
        match self {
            Action::Connect => ActionView::Connect,
            Action::Disconnect { id } => ActionView::Disconnect { id: *id },
            Action::ListRooms => ActionView::ListRooms,
            Action::Join { id, name } => ActionView::Join { id: *id, name: name@ },
            Action::Message { id, room, msg } => ActionView::Message {
                id: *id,
                room: room@,
                msg: msg@,
            },
            Action::Write(response) => ActionView::Write(response@),
            Action::Stop => ActionView::Stop,
        }
    }
}

/// The actions that a list holds, in order.
pub open spec fn shown(out: Seq<Action>) -> Seq<ActionView> {
    out.map_values(|a: Action| a@)
}

/// A session as a value.
pub struct SessionView {
    /// The id that the broker assigned; 0 until then.
    pub id: usize,
    /// When the peer was last heard of.
    pub hb: u64,
    /// The room that the session is in.
    pub room: Seq<char>,
    pub phase: Phase,
    /// Whether the broker has been told that the session is gone.
    pub told: bool,
}

/// The session once it has stopped serving the peer. Its end will tell
/// the broker.
pub open spec fn leaving(s: SessionView) -> SessionView {
    SessionView { phase: Phase::Disconnecting, ..s }
}

/// The session once the heartbeat has given its peer up and told the
/// broker.
pub open spec fn given_up(s: SessionView) -> SessionView {
    SessionView { phase: Phase::Disconnecting, told: true, ..s }
}

/// What a session does when its peer is overdue: tell the broker, then
/// stop.
pub open spec fn goodbye(s: SessionView) -> Seq<ActionView> {
    seq![ActionView::Disconnect { id: s.id }, ActionView::Stop]
}

/// A new session.
pub open spec fn fresh(now: u64) -> SessionView {
    SessionView { id: 0, hb: now, room: "main"@, phase: Phase::Connecting, told: false }
}

/// What the broker's reply to the registration does.
pub open spec fn on_connected(s: SessionView, reply: Option<usize>) -> (SessionView, Seq<
    ActionView,
>) {
    if s.phase != Phase::Connecting {
        (s, Seq::empty())
    } else {
        match reply {
            Some(id) => (SessionView { id, phase: Phase::Active, ..s }, Seq::empty()),
            None => (leaving(s), seq![ActionView::Stop]),
        }
    }
}

/// What one item of the inbound stream does.
pub open spec fn on_frame(
    s: SessionView,
    frame: Result<ChatRequestView, StreamError>,
    now: u64,
) -> (SessionView, Seq<ActionView>) {
    if s.phase != Phase::Active {
        (s, Seq::empty())
    } else {
        match frame {
            Ok(ChatRequestView::List) => (s, seq![ActionView::ListRooms]),
            Ok(ChatRequestView::Join(name)) => (
                SessionView { room: name, ..s },
                seq![
                    ActionView::Join { id: s.id, name },
                    ActionView::Write(ChatResponseView::Joined(name)),
                ],
            ),
            Ok(ChatRequestView::Message(text)) => (
                s,
                seq![ActionView::Message { id: s.id, room: s.room, msg: text }],
            ),
            Ok(ChatRequestView::Ping) => (SessionView { hb: now, ..s }, Seq::empty()),
            Err(_) => (leaving(s), seq![ActionView::Stop]),
        }
    }
}

/// What the broker's reply to `ListRooms` does.
pub open spec fn on_listed(s: SessionView, reply: Option<Seq<Seq<char>>>) -> (SessionView, Seq<
    ActionView,
>) {
    if s.phase != Phase::Active {
        (s, Seq::empty())
    } else {
        match reply {
            Some(rooms) => (s, seq![ActionView::Write(ChatResponseView::Rooms(rooms))]),
            None => (leaving(s), seq![ActionView::Stop]),
        }
    }
}

/// What a line pushed by the broker does.
pub open spec fn on_pushed(s: SessionView, text: Seq<char>) -> Seq<ActionView> {
    if s.phase != Phase::Active {
        Seq::empty()
    } else {
        seq![ActionView::Write(ChatResponseView::Message(text))]
    }
}

/// What a tick of the heartbeat timer does.
pub open spec fn on_tick(s: SessionView, now: u64) -> (SessionView, Seq<ActionView>) {
    if s.phase != Phase::Active {
        (s, Seq::empty())
    } else if expired(s.hb, now, CLIENT_TIMEOUT) {
        (given_up(s), goodbye(s))
    } else {
        (s, seq![ActionView::Write(ChatResponseView::Ping)])
    }
}

/// What the end of the session does: the broker is told, unless the
/// heartbeat has told it already.
pub open spec fn on_stopping(s: SessionView) -> (SessionView, Seq<ActionView>) {
    (
        SessionView { phase: Phase::Terminated, told: true, ..s },
        if s.told {
            Seq::empty()
        } else {
            seq![ActionView::Disconnect { id: s.id }]
        },
    )
}

/// One thing that happens to a session.
pub enum Happening {
    /// The session begins.
    Started,
    /// The broker answers the registration.
    Connected(Option<usize>),
    /// An item of the inbound stream comes, at the given time.
    Frame(Result<ChatRequestView, StreamError>, u64),
    /// The broker answers `ListRooms`.
    Listed(Option<Seq<Seq<char>>>),
    /// The broker pushes a line.
    Pushed(Seq<char>),
    /// The heartbeat timer ticks, at the given time.
    Tick(u64),
    /// The session ends.
    Stopping,
}

/// What one happening does.
pub open spec fn react(s: SessionView, what: Happening) -> (SessionView, Seq<ActionView>) {
    match what {
        Happening::Started => (
            s,
            if s.phase == Phase::Connecting {
                seq![ActionView::Connect]
            } else {
                Seq::empty()
            },
        ),
        Happening::Connected(reply) => on_connected(s, reply),
        Happening::Frame(frame, now) => on_frame(s, frame, now),
        Happening::Listed(reply) => on_listed(s, reply),
        Happening::Pushed(text) => (s, on_pushed(s, text)),
        Happening::Tick(now) => on_tick(s, now),
        Happening::Stopping => on_stopping(s),
    }
}

/// How often `actions` tell the broker that a session is gone.
pub open spec fn farewell_count(actions: Seq<ActionView>) -> nat
    decreases actions.len(),
{
    if actions.len() == 0 {
        0
    } else {
        farewell_count(actions.drop_last()) + if actions.last() is Disconnect {
            1nat
        } else {
            0nat
        }
    }
}

/// The session after a history of happenings, oldest first.
pub open spec fn state_after(s: SessionView, history: Seq<Happening>) -> SessionView
    decreases history.len(),
{
    if history.len() == 0 {
        s
    } else {
        react(state_after(s, history.drop_last()), history.last()).0
    }
}

/// How often the session tells the broker that it is gone, over a history
/// of happenings.
pub open spec fn farewells_over(s: SessionView, history: Seq<Happening>) -> nat
    decreases history.len(),
{
    if history.len() == 0 {
        0
    } else {
        farewells_over(s, history.drop_last()) + farewell_count(
            react(state_after(s, history.drop_last()), history.last()).1,
        )
    }
}

/// Only a session that serves its peer no more has told the broker that it
/// is gone. Every new session is like that, and every happening keeps it so.
pub open spec fn told_in_time(s: SessionView) -> bool {
    s.told ==> s.phase == Phase::Disconnecting || s.phase == Phase::Terminated
}

/// One happening tells the broker that the session is gone exactly when
/// the broker had not been told and has been told afterwards, and then
/// once; a broker that has been told stays told.
pub proof fn react_tells_once(s: SessionView, what: Happening)
    requires
        told_in_time(s),
    ensures
        told_in_time(react(s, what).0),
        s.told ==> react(s, what).0.told,
        farewell_count(react(s, what).1) == if !s.told && react(s, what).0.told {
            1nat
        } else {
            0nat
        },
{
    let out = react(s, what).1;
    reveal_with_fuel(farewell_count, 3);
    if out.len() == 1 {
        assert(out.drop_last() =~= Seq::empty());
    } else if out.len() == 2 {
        assert(out.drop_last().drop_last() =~= Seq::empty());
        assert(out.drop_last().last() == out[0]);
    }
}

/// Over any history, a session tells the broker that it is gone at most
/// once: exactly once if the broker has been told, and not at all before.
pub proof fn broker_is_told_once(s: SessionView, history: Seq<Happening>)
    requires
        !s.told,
    ensures
        told_in_time(state_after(s, history)),
        farewells_over(s, history) == if state_after(s, history).told {
            1nat
        } else {
            0nat
        },
    decreases history.len(),
{
    if history.len() > 0 {
        broker_is_told_once(s, history.drop_last());
        react_tells_once(state_after(s, history.drop_last()), history.last());
    }
}

/// A session whose history ends with its stopping is terminated and has
/// told the broker exactly once that it is gone.
pub proof fn stopped_session_has_told(s: SessionView, history: Seq<Happening>)
    requires
        !s.told,
        history.len() > 0,
        history.last() is Stopping,
    ensures
        state_after(s, history).phase == Phase::Terminated,
        farewells_over(s, history) == 1,
{
    broker_is_told_once(s, history);
}

/// A failure of the inbound stream stops the session and does nothing
/// else: nothing goes to the broker or to the peer, and id, room and
/// heartbeat stay as they are. The broker is told when the session ends.
pub proof fn stream_error_only_stops(s: SessionView, error: StreamError, now: u64)
    requires
        s.phase == Phase::Active,
        !s.told,
    ensures
        on_frame(s, Err(error), now).1 == seq![ActionView::Stop],
        on_frame(s, Err(error), now).0 == (SessionView { phase: Phase::Disconnecting, ..s }),
        on_stopping(on_frame(s, Err(error), now).0).1 == seq![
            ActionView::Disconnect { id: s.id },
        ],
{
}

/// A session that has been silent for longer than the timeout is given up
/// at the next tick: it tells the broker that it is gone, and the broker,
/// once told, has no record of it and lists it in no room.
pub proof fn silent_peer_is_reclaimed<H>(
    s: SessionView,
    now: u64,
    sessions: Map<usize, H>,
    rooms: Seq<RoomView>,
)
    requires
        s.phase == Phase::Active,
        expired(s.hb, now, CLIENT_TIMEOUT),
        rooms_wf(rooms),
    ensures
        on_tick(s, now).1 == seq![ActionView::Disconnect { id: s.id }, ActionView::Stop],
        !sessions.remove(s.id).contains_key(s.id),
        nowhere(step(rooms, Event::Disconnect(s.id)), s.id),
{
    disconnect_clears(rooms, s.id);
}

/// The session of one connection on the binary transport.
pub struct ChatSession {
    id: usize,
    hb: u64,
    room: String,
    phase: Phase,
    told: bool,
}

impl View for ChatSession {
    type V = SessionView;

    closed spec fn view(&self) -> SessionView {
        SessionView {
            id: self.id,
            hb: self.hb,
            room: self.room@,
            phase: self.phase,
            told: self.told,
        }
    }
}

impl ChatSession {
    /// A session that was made at `now`: in the starting room, not yet
    /// registered.
    pub fn new(now: u64) -> (session: ChatSession)
        ensures
            session@ == fresh(now),
    {
        ChatSession {
            id: 0,
            hb: now,
            room: "main".to_owned(),
            phase: Phase::Connecting,
            told: false,
        }
    }

    /// The id that the broker assigned.
    pub fn id(&self) -> (id: usize)
        ensures
            id == self@.id,
    {
        self.id
    }

    /// The room that the session is in.
    pub fn room(&self) -> (room: &str)
        ensures
            room@ == self@.room,
    {
        self.room.as_str()
    }

    /// Where the session is in its life.
    pub fn phase(&self) -> (phase: Phase)
        ensures
            phase == self@.phase,
    {
        self.phase
    }

    /// The session begins: it asks the broker for an id.
    pub fn started(&mut self) -> (out: Vec<Action>)
        ensures
            final(self)@ == old(self)@,
            shown(out@) == if old(self)@.phase == Phase::Connecting {
                seq![ActionView::Connect]
            } else {
                Seq::empty()
            },
    {
        let mut out: Vec<Action> = Vec::new();
        if self.phase == Phase::Connecting {
            out.push(Action::Connect);
        }
        assert(shown(out@) =~= if old(self)@.phase == Phase::Connecting {
            seq![ActionView::Connect]
        } else {
            Seq::empty()
        });
        out
    }

    /// Stops serving the peer. The broker is told when the session ends.
    fn leave(&mut self) -> (out: Vec<Action>)
        ensures
            final(self)@ == leaving(old(self)@),
            shown(out@) == seq![ActionView::Stop],
    {
        self.phase = Phase::Disconnecting;
        let mut out: Vec<Action> = Vec::new();
        out.push(Action::Stop);
        assert(shown(out@) =~= seq![ActionView::Stop]);
        out
    }

    /// Gives the peer up: the broker is told and the session stops.
    fn give_up(&mut self) -> (out: Vec<Action>)
        ensures
            final(self)@ == given_up(old(self)@),
            shown(out@) == goodbye(old(self)@),
    {
        self.phase = Phase::Disconnecting;
        self.told = true;
        let mut out: Vec<Action> = Vec::new();
        out.push(Action::Disconnect { id: self.id });
        out.push(Action::Stop);
        assert(shown(out@) =~= goodbye(old(self)@));
        out
    }

    /// The broker's reply to the registration has come: the id, or `None`
    /// where the broker could not be reached, which stops the session.
    pub fn connected(&mut self, reply: Option<usize>) -> (out: Vec<Action>)
        ensures
            (final(self)@, shown(out@)) == on_connected(old(self)@, reply),
    {
        if self.phase != Phase::Connecting {
            let out: Vec<Action> = Vec::new();
            assert(shown(out@) =~= Seq::empty());
            return out;
        }
        match reply {
            Some(id) => {
                self.id = id;
                self.phase = Phase::Active;
                let out: Vec<Action> = Vec::new();
                assert(shown(out@) =~= Seq::empty());
                out
            },
            None => self.leave(),
        }
    }

    /// One item of the inbound stream has come: a request, or the failure
    /// to decode one, which stops the session and does nothing else.
    pub fn handle(&mut self, msg: Result<ChatRequest, StreamError>, now: u64) -> (out: Vec<Action>)
        ensures
            (final(self)@, shown(out@)) == on_frame(
                old(self)@,
                match msg {
                    Ok(request) => Ok(request@),
                    Err(e) => Err(e),
                },
                now,
            ),
    {
        let mut out: Vec<Action> = Vec::new();
        if self.phase != Phase::Active {
            assert(shown(out@) =~= Seq::empty());
            return out;
        }
        match msg {
            Ok(ChatRequest::List) => {
                out.push(Action::ListRooms);
                assert(shown(out@) =~= seq![ActionView::ListRooms]);
            },
            Ok(ChatRequest::Join(name)) => {
                out.push(Action::Join { id: self.id, name: name.clone() });
                out.push(Action::Write(ChatResponse::Joined(name.clone())));
                self.room = name;
                assert(shown(out@) =~= seq![
                    ActionView::Join { id: self.id, name: name@ },
                    ActionView::Write(ChatResponseView::Joined(name@)),
                ]);
            },
            Ok(ChatRequest::Message(text)) => {
                let ghost said = text@;
                out.push(Action::Message { id: self.id, room: self.room.clone(), msg: text });
                assert(shown(out@) =~= seq![
                    ActionView::Message { id: self.id, room: self.room@, msg: said },
                ]);
            },
            Ok(ChatRequest::Ping) => {
                self.hb = now;
                assert(shown(out@) =~= Seq::empty());
            },
            Err(_) => {
                return self.leave();
            },
        }
        out
    }

    /// The broker's reply to `ListRooms` has come: the room names, or `None`
    /// where the broker could not be reached, which stops the session.
    pub fn listed(&mut self, reply: Option<Vec<String>>) -> (out: Vec<Action>)
        ensures
            (final(self)@, shown(out@)) == on_listed(
                old(self)@,
                match reply {
                    Some(rooms) => Some(texts(rooms@)),
                    None => None,
                },
            ),
    {
        let mut out: Vec<Action> = Vec::new();
        if self.phase != Phase::Active {
            assert(shown(out@) =~= Seq::empty());
            return out;
        }
        match reply {
            Some(rooms) => {
                let ghost listed = texts(rooms@);
                out.push(Action::Write(ChatResponse::Rooms(rooms)));
                assert(shown(out@) =~= seq![ActionView::Write(ChatResponseView::Rooms(listed))]);
                out
            },
            None => self.leave(),
        }
    }

    /// The broker has pushed a line: it is written to the peer.
    pub fn deliver(&self, msg: Message) -> (out: Vec<Action>)
        ensures
            shown(out@) == on_pushed(self@, msg.0@),
    {
        let mut out: Vec<Action> = Vec::new();
        if self.phase == Phase::Active {
            let ghost said = msg.0@;
            out.push(Action::Write(ChatResponse::Message(msg.0)));
            assert(shown(out@) =~= seq![ActionView::Write(ChatResponseView::Message(said))]);
        } else {
            assert(shown(out@) =~= Seq::empty());
        }
        out
    }

    /// The heartbeat timer has ticked at `now`: a peer that is overdue is
    /// given up without another probe, any other is probed with a `Ping`
    /// frame.
    pub fn hb(&mut self, now: u64) -> (out: Vec<Action>)
        ensures
            (final(self)@, shown(out@)) == on_tick(old(self)@, now),
    {
        let mut out: Vec<Action> = Vec::new();
        if self.phase != Phase::Active {
            assert(shown(out@) =~= Seq::empty());
            return out;
        }
        if is_expired(self.hb, now, CLIENT_TIMEOUT) {
            return self.give_up();
        }
        out.push(Action::Write(ChatResponse::Ping));
        assert(shown(out@) =~= seq![ActionView::Write(ChatResponseView::Ping)]);
        out
    }

    /// The session ends, for whatever reason: the broker is told, unless
    /// the heartbeat has told it already.
    pub fn stopping(&mut self) -> (out: Vec<Action>)
        ensures
            (final(self)@, shown(out@)) == on_stopping(old(self)@),
    {
        let mut out: Vec<Action> = Vec::new();
        if !self.told {
            out.push(Action::Disconnect { id: self.id });
            assert(shown(out@) =~= seq![ActionView::Disconnect { id: self.id }]);
        } else {
            assert(shown(out@) =~= Seq::empty());
        }
        self.phase = Phase::Terminated;
        self.told = true;
        out
    }
}

} // verus!
