//! The session of one connection on the text transport.
//!
//! The peer sends lines of text: commands that start with `/`, and chat.
//! Like its binary counterpart the session is a state machine that turns
//! what happens into actions for the runtime.

use crate::chat_server::{rooms_wf, step, Event, RoomView};
use crate::command::{command_of, parse, trim_of, Command, CommandView};
use crate::history::{disconnect_clears, nowhere};
use crate::session::{expired, is_expired, Message, Phase};
use crate::text::texts;
use vstd::prelude::*;

verus! {

/// Milliseconds between two heartbeat ticks on the text transport.
pub const HEARTBEAT_INTERVAL: u64 = 5000;

/// Milliseconds of silence after which a text session is given up.
pub const CLIENT_TIMEOUT: u64 = 10000;

/// Why the peer closes the connection.
#[derive(Debug, Clone, PartialEq, Eq)]
pub struct CloseReason {
    pub code: u16,
    pub description: Option<String>,
}

/// A close reason as a value.
pub struct CloseReasonView {
    pub code: u16,
    pub description: Option<Seq<char>>,
}

impl View for CloseReason {
    type V = CloseReasonView;

    open spec fn view(&self) -> CloseReasonView {
        CloseReasonView {
            code: self.code,
            description: match self.description {
                Some(text) => Some(text@),
                None => None,
            },
        }
    }
}

/// The view of a close frame's reason, if it carries one.
pub open spec fn reason_view(reason: Option<CloseReason>) -> Option<CloseReasonView> {
    match reason {
        Some(r) => Some(r@),
        None => None,
    }
}

/// One frame from the peer.
#[derive(Debug, Clone, PartialEq, Eq)]
pub enum WsMessage {
    /// A line of text.
    Text(String),
    /// Binary data, which this transport has no use for.
    Binary(Vec<u8>),
    /// A piece of a fragmented message.
    Continuation,
    /// The peer probes us.
    Ping(Vec<u8>),
    /// The peer answers a probe.
    Pong(Vec<u8>),
    /// The peer closes the connection.
    Close(Option<CloseReason>),
    /// Nothing.
    Nop,
}

/// A frame as a value.
pub enum WsMessageView {
    Text(Seq<char>),
    Binary(Seq<u8>),
    Continuation,
    Ping(Seq<u8>),
    Pong(Seq<u8>),
    Close(Option<CloseReasonView>),
    Nop,
}

impl View for WsMessage {
    type V = WsMessageView;

    open spec fn view(&self) -> WsMessageView {
        match self {
            WsMessage::Text(text) => WsMessageView::Text(text@),
            WsMessage::Binary(data) => WsMessageView::Binary(data@),
            WsMessage::Continuation => WsMessageView::Continuation,
            WsMessage::Ping(data) => WsMessageView::Ping(data@),
            WsMessage::Pong(data) => WsMessageView::Pong(data@),
            WsMessage::Close(reason) => WsMessageView::Close(reason_view(*reason)),
            WsMessage::Nop => WsMessageView::Nop,
        }
    }
}

/// The peer broke the framing protocol.
#[derive(Debug, Clone, Copy, PartialEq, Eq, Structural)]
pub struct ProtocolError;

/// What a text session asks the runtime to do.
#[derive(Debug, Clone, PartialEq, Eq)]
pub enum WsAction {
    /// Register with the broker; the reply goes to `connected`.
    Connect,
    /// Tell the broker that session `id` is gone.
    Disconnect { id: usize },
    /// Ask the broker for the room names and hold further frames back
    /// until the reply has gone to `listed`.
    ListRooms,
    /// Tell the broker that session `id` moves to `name`.
    Join { id: usize, name: String },
    /// Hand the broker a line that session `id` says in `room`.
    Message { id: usize, room: String, msg: String },
    /// Write a line of text to the peer.
    Text(String),
    /// Probe the peer.
    Ping,
    /// Answer the peer's probe with the bytes it sent.
    Pong(Vec<u8>),
    /// Close the connection, with the reason the peer gave.
    Close(Option<CloseReason>),
    /// Stop the session. The runtime then lets it end, which `stopping`
    /// answers.
    Stop,
}

/// An action as a value.
pub enum WsActionView {
    Connect,
    Disconnect { id: usize },
    ListRooms,
    Join { id: usize, name: Seq<char> },
    Message { id: usize, room: Seq<char>, msg: Seq<char> },
    Text(Seq<char>),
    Ping,
    Pong(Seq<u8>),
    Close(Option<CloseReasonView>),
    Stop,
}

impl View for WsAction {
    type V = WsActionView;

    open spec fn view(&self) -> WsActionView {
        match self {
            WsAction::Connect => WsActionView::Connect,
            WsAction::Disconnect { id } => WsActionView::Disconnect { id: *id },
            WsAction::ListRooms => WsActionView::ListRooms,
            WsAction::Join { id, name } => WsActionView::Join { id: *id, name: name@ },
            WsAction::Message { id, room, msg } => WsActionView::Message {
                id: *id,
                room: room@,
                msg: msg@,
            },
            WsAction::Text(text) => WsActionView::Text(text@),
            WsAction::Ping => WsActionView::Ping,
            WsAction::Pong(data) => WsActionView::Pong(data@),
            WsAction::Close(reason) => WsActionView::Close(reason_view(*reason)),
            WsAction::Stop => WsActionView::Stop,
        }
    }
}

/// The actions that a list holds, in order.
pub open spec fn shown(out: Seq<WsAction>) -> Seq<WsActionView> {
    out.map_values(|a: WsAction| a@)
}

/// A text session as a value.
pub struct WsSessionView {
    /// The id that the broker assigned; 0 until then.
    pub id: usize,
    /// When the peer was last heard of.
    pub hb: u64,
    /// The room that the session is in.
    pub room: Seq<char>,
    /// The display name, once the peer has taken one.
    pub name: Option<Seq<char>>,
    pub phase: Phase,
    /// Whether the broker has been told that the session is gone.
    pub told: bool,
}

/// What `{:?}` prints for a text: the text in double quotes, with the
/// characters that need it escaped.
pub uninterp spec fn debug_text(text: Seq<char>) -> Seq<char>;

/// `format!` with `{:?}` on a `str`: the text as `Debug` prints it.
#[verifier::external_body]
fn quoted(text: &str) -> (out: String)
    ensures
        out@ == debug_text(text@),
{
    format!("{text:?}")
}

/// The session once it has stopped serving the peer. Its end will tell
/// the broker.
pub open spec fn leaving(s: WsSessionView) -> WsSessionView {
    WsSessionView { phase: Phase::Disconnecting, ..s }
}

/// The session once the heartbeat has given its peer up and told the
/// broker.
pub open spec fn given_up(s: WsSessionView) -> WsSessionView {
    WsSessionView { phase: Phase::Disconnecting, told: true, ..s }
}

/// What a session does when its peer is overdue: tell the broker, then
/// stop.
pub open spec fn goodbye(s: WsSessionView) -> Seq<WsActionView> {
    seq![WsActionView::Disconnect { id: s.id }, WsActionView::Stop]
}

/// A new session.
pub open spec fn fresh(now: u64) -> WsSessionView {
    WsSessionView {
        id: 0,
        hb: now,
        room: "main"@,
        name: None,
        phase: Phase::Connecting,
        told: false,
    }
}

/// A line of chat as the broker gets it: behind the display name, if the
/// peer has taken one.
pub open spec fn signed(name: Option<Seq<char>>, line: Seq<char>) -> Seq<char> {
    match name {
        Some(name) => name + ": "@ + line,
        None => line,
    }
}

/// What the broker's reply to the registration does.
pub open spec fn on_connected(s: WsSessionView, reply: Option<usize>) -> (WsSessionView, Seq<
    WsActionView,
>) {
    if s.phase != Phase::Connecting {
        (s, Seq::empty())
    } else {
        match reply {
            Some(id) => (WsSessionView { id, phase: Phase::Active, ..s }, Seq::empty()),
            None => (leaving(s), seq![WsActionView::Stop]),
        }
    }
}

/// What one command does to an active session.
pub open spec fn on_command(s: WsSessionView, command: CommandView) -> (WsSessionView, Seq<
    WsActionView,
>) {
    match command {
        CommandView::List => (s, seq![WsActionView::ListRooms]),
        CommandView::Join(room) => (
            WsSessionView { room, ..s },
            seq![WsActionView::Join { id: s.id, name: room }, WsActionView::Text("joined"@)],
        ),
        CommandView::JoinWithoutRoom => (
            s,
            seq![WsActionView::Text("!!! room name is required"@)],
        ),
        CommandView::Name(name) => (WsSessionView { name: Some(name), ..s }, Seq::empty()),
        CommandView::NameWithoutName => (s, seq![WsActionView::Text("!!! name is required"@)]),
        CommandView::Unknown(line) => (
            s,
            seq![WsActionView::Text("!!! unknown command: "@ + debug_text(line))],
        ),
        CommandView::Say(line) => (
            s,
            seq![WsActionView::Message { id: s.id, room: s.room, msg: signed(s.name, line) }],
        ),
    }
}

/// What one item of the inbound stream does.
pub open spec fn on_frame(
    s: WsSessionView,
    frame: Result<WsMessageView, ProtocolError>,
    now: u64,
) -> (WsSessionView, Seq<WsActionView>) {
    if s.phase != Phase::Active {
        (s, Seq::empty())
    } else {
        match frame {
            Err(_) => (leaving(s), seq![WsActionView::Stop]),
            Ok(WsMessageView::Ping(data)) => (
                WsSessionView { hb: now, ..s },
                seq![WsActionView::Pong(data)],
            ),
            Ok(WsMessageView::Pong(_)) => (WsSessionView { hb: now, ..s }, Seq::empty()),
            Ok(WsMessageView::Text(text)) => on_command(s, command_of(trim_of(text))),
            Ok(WsMessageView::Close(reason)) => (
                leaving(s),
                seq![WsActionView::Close(reason), WsActionView::Stop],
            ),
            Ok(_) => (s, Seq::empty()),
        }
    }
}

/// What the broker's reply to `ListRooms` does: each room name is a line.
pub open spec fn on_listed(s: WsSessionView, reply: Option<Seq<Seq<char>>>) -> (
    WsSessionView,
    Seq<WsActionView>,
) {
    if s.phase != Phase::Active {
        (s, Seq::empty())
    } else {
        match reply {
            Some(rooms) => (s, rooms.map_values(|room: Seq<char>| WsActionView::Text(room))),
            None => (leaving(s), seq![WsActionView::Stop]),
        }
    }
}

/// What a line pushed by the broker does.
pub open spec fn on_pushed(s: WsSessionView, text: Seq<char>) -> Seq<WsActionView> {
    if s.phase != Phase::Active {
        Seq::empty()
    } else {
        seq![WsActionView::Text(text)]
    }
}

/// What a tick of the heartbeat timer does.
pub open spec fn on_tick(s: WsSessionView, now: u64) -> (WsSessionView, Seq<WsActionView>) {
    if s.phase != Phase::Active {
        (s, Seq::empty())
    } else if expired(s.hb, now, CLIENT_TIMEOUT) {
        (given_up(s), goodbye(s))
    } else {
        (s, seq![WsActionView::Ping])
    }
}

/// What the end of the session does: the broker is told, unless the
/// heartbeat has told it already.
pub open spec fn on_stopping(s: WsSessionView) -> (WsSessionView, Seq<WsActionView>) {
    (
        WsSessionView { phase: Phase::Terminated, told: true, ..s },
        if s.told {
            Seq::empty()
        } else {
            seq![WsActionView::Disconnect { id: s.id }]
        },
    )
}

/// One thing that happens to a text session.
pub enum WsHappening {
    /// The session begins.
    Started,
    /// The broker answers the registration.
    Connected(Option<usize>),
    /// An item of the inbound stream comes, at the given time.
    Frame(Result<WsMessageView, ProtocolError>, u64),
    /// The broker answers `ListRooms`.
    Listed(Option<Seq<Seq<char>>>),
    /// The broker pushes a line.
    Pushed(Seq<char>),
    /// The heartbeat timer ticks, at the given time.
    Tick(u64),
    /// The session ends.
    Stopping,
}

/// What one happening does.
pub open spec fn react(s: WsSessionView, what: WsHappening) -> (WsSessionView, Seq<WsActionView>) {
    match what {
        WsHappening::Started => (
            s,
            if s.phase == Phase::Connecting {
                seq![WsActionView::Connect]
            } else {
                Seq::empty()
            },
        ),
        WsHappening::Connected(reply) => on_connected(s, reply),
        WsHappening::Frame(frame, now) => on_frame(s, frame, now),
        WsHappening::Listed(reply) => on_listed(s, reply),
        WsHappening::Pushed(text) => (s, on_pushed(s, text)),
        WsHappening::Tick(now) => on_tick(s, now),
        WsHappening::Stopping => on_stopping(s),
    }
}

/// How often `actions` tell the broker that a session is gone.
pub open spec fn farewell_count(actions: Seq<WsActionView>) -> nat
    decreases actions.len(),
{
    if actions.len() == 0 {
        0
    } else {
        farewell_count(actions.drop_last()) + if actions.last() is Disconnect {
            1nat
        } else {
            0nat
        }
    }
}

/// The session after a history of happenings, oldest first.
pub open spec fn state_after(s: WsSessionView, history: Seq<WsHappening>) -> WsSessionView
    decreases history.len(),
{
    if history.len() == 0 {
        s
    } else {
        react(state_after(s, history.drop_last()), history.last()).0
    }
}

/// How often the session tells the broker that it is gone, over a history
/// of happenings.
pub open spec fn farewells_over(s: WsSessionView, history: Seq<WsHappening>) -> nat
    decreases history.len(),
{
    if history.len() == 0 {
        0
    } else {
        farewells_over(s, history.drop_last()) + farewell_count(
            react(state_after(s, history.drop_last()), history.last()).1,
        )
    }
}

/// Only a session that serves its peer no more has told the broker that it
/// is gone. Every new session is like that, and every happening keeps it so.
pub open spec fn told_in_time(s: WsSessionView) -> bool {
    s.told ==> s.phase == Phase::Disconnecting || s.phase == Phase::Terminated
}

/// Lines of text tell the broker nothing.
pub proof fn lines_tell_nothing(lines: Seq<Seq<char>>)
    ensures
        farewell_count(lines.map_values(|line: Seq<char>| WsActionView::Text(line))) == 0,
    decreases lines.len(),
{
    if lines.len() > 0 {
        lines_tell_nothing(lines.drop_last());
        assert(lines.map_values(|line: Seq<char>| WsActionView::Text(line)).drop_last()
            =~= lines.drop_last().map_values(|line: Seq<char>| WsActionView::Text(line)));
    }
}

/// One happening tells the broker that the session is gone exactly when
/// the broker had not been told and has been told afterwards, and then
/// once; a broker that has been told stays told.
pub proof fn react_tells_once(s: WsSessionView, what: WsHappening)
    requires
        told_in_time(s),
    ensures
        told_in_time(react(s, what).0),
        s.told ==> react(s, what).0.told,
        farewell_count(react(s, what).1) == if !s.told && react(s, what).0.told {
            1nat
        } else {
            0nat
        },
{
    let out = react(s, what).1;
    reveal_with_fuel(farewell_count, 3);
    if let WsHappening::Listed(Some(rooms)) = what {
        lines_tell_nothing(rooms);
    }
    if out.len() == 1 {
        assert(out.drop_last() =~= Seq::empty());
    } else if out.len() == 2 {
        assert(out.drop_last().drop_last() =~= Seq::empty());
        assert(out.drop_last().last() == out[0]);
    }
}

/// Over any history, a session tells the broker that it is gone at most
/// once: exactly once if the broker has been told, and not at all before.
pub proof fn broker_is_told_once(s: WsSessionView, history: Seq<WsHappening>)
    requires
        !s.told,
    ensures
        told_in_time(state_after(s, history)),
        farewells_over(s, history) == if state_after(s, history).told {
            1nat
        } else {
            0nat
        },
    decreases history.len(),
{
    if history.len() > 0 {
        broker_is_told_once(s, history.drop_last());
        react_tells_once(state_after(s, history.drop_last()), history.last());
    }
}

/// A session whose history ends with its stopping is terminated and has
/// told the broker exactly once that it is gone.
pub proof fn stopped_session_has_told(s: WsSessionView, history: Seq<WsHappening>)
    requires
        !s.told,
        history.len() > 0,
        history.last() is Stopping,
    ensures
        state_after(s, history).phase == Phase::Terminated,
        farewells_over(s, history) == 1,
{
    broker_is_told_once(s, history);
}

/// A breach of the framing protocol stops the session and does nothing
/// else: nothing goes to the broker or to the peer, and id, room, name and
/// heartbeat stay as they are. A close frame is echoed before the session
/// stops. Either way the broker is told when the session ends.
pub proof fn peer_errors_only_stop(
    s: WsSessionView,
    error: ProtocolError,
    reason: Option<CloseReasonView>,
    now: u64,
)
    requires
        s.phase == Phase::Active,
        !s.told,
    ensures
        on_frame(s, Err(error), now) == (
            WsSessionView { phase: Phase::Disconnecting, ..s },
            seq![WsActionView::Stop],
        ),
        on_frame(s, Ok(WsMessageView::Close(reason)), now) == (
            WsSessionView { phase: Phase::Disconnecting, ..s },
            seq![WsActionView::Close(reason), WsActionView::Stop],
        ),
        on_stopping(on_frame(s, Err(error), now).0).1 == seq![
            WsActionView::Disconnect { id: s.id },
        ],
        on_stopping(on_frame(s, Ok(WsMessageView::Close(reason)), now).0).1 == seq![
            WsActionView::Disconnect { id: s.id },
        ],
{
}

/// A session that has been silent for longer than the timeout is given up
/// at the next tick: it tells the broker that it is gone, and the broker,
/// once told, has no record of it and lists it in no room.
pub proof fn silent_peer_is_reclaimed<H>(
    s: WsSessionView,
    now: u64,
    sessions: Map<usize, H>,
    rooms: Seq<RoomView>,
)
    requires
        s.phase == Phase::Active,
        expired(s.hb, now, CLIENT_TIMEOUT),
        rooms_wf(rooms),
    ensures
        on_tick(s, now).1 == seq![WsActionView::Disconnect { id: s.id }, WsActionView::Stop],
        !sessions.remove(s.id).contains_key(s.id),
        nowhere(step(rooms, Event::Disconnect(s.id)), s.id),
{
    disconnect_clears(rooms, s.id);
}

/// The session of one connection on the text transport.
pub struct WsChatSession {
    id: usize,
    hb: u64,
    room: String,
    name: Option<String>,
    phase: Phase,
    told: bool,
}

impl View for WsChatSession {
    type V = WsSessionView;

    closed spec fn view(&self) -> WsSessionView {
        WsSessionView {
            id: self.id,
            hb: self.hb,
            room: self.room@,
            name: match self.name {
                Some(name) => Some(name@),
                None => None,
            },
            phase: self.phase,
            told: self.told,
        }
    }
}

impl WsChatSession {
    /// A session that was made at `now`: in the starting room, without a
    /// display name, not yet registered.
    pub fn new(now: u64) -> (session: WsChatSession)
        ensures
            session@ == fresh(now),
    {
        WsChatSession {
            id: 0,
            hb: now,
            room: "main".to_owned(),
            name: None,
            phase: Phase::Connecting,
            told: false,
        }
    }

    /// The id that the broker assigned.
    pub fn id(&self) -> (id: usize)
        ensures
            id == self@.id,
    {
        self.id
    }

    /// The room that the session is in.
    pub fn room(&self) -> (room: &str)
        ensures
            room@ == self@.room,
    {
        self.room.as_str()
    }

    /// Where the session is in its life.
    pub fn phase(&self) -> (phase: Phase)
        ensures
            phase == self@.phase,
    {
        self.phase
    }

    /// The session begins: it asks the broker for an id.
    pub fn started(&mut self) -> (out: Vec<WsAction>)
        ensures
            final(self)@ == old(self)@,
            shown(out@) == if old(self)@.phase == Phase::Connecting {
                seq![WsActionView::Connect]
            } else {
                Seq::empty()
            },
    {
        let mut out: Vec<WsAction> = Vec::new();
        if self.phase == Phase::Connecting {
            out.push(WsAction::Connect);
        }
        assert(shown(out@) =~= if old(self)@.phase == Phase::Connecting {
            seq![WsActionView::Connect]
        } else {
            Seq::empty()
        });
        out
    }

    /// Stops serving the peer. The broker is told when the session ends.
    fn leave(&mut self, out: &mut Vec<WsAction>)
        ensures
            final(self)@ == leaving(old(self)@),
            shown(final(out)@) == shown(old(out)@).push(WsActionView::Stop),
    {
        self.phase = Phase::Disconnecting;
        out.push(WsAction::Stop);
        assert(shown(out@) =~= shown(old(out)@).push(WsActionView::Stop));
    }

    /// Gives the peer up: the broker is told and the session stops.
    fn give_up(&mut self, out: &mut Vec<WsAction>)
        ensures
            final(self)@ == given_up(old(self)@),
            shown(final(out)@) == shown(old(out)@) + goodbye(old(self)@),
    {
        self.phase = Phase::Disconnecting;
        self.told = true;
        out.push(WsAction::Disconnect { id: self.id });
        out.push(WsAction::Stop);
        assert(shown(out@) =~= shown(old(out)@) + goodbye(old(self)@));
    }

    /// The broker's reply to the registration has come: the id, or `None`
    /// where the broker could not be reached, which stops the session.
    pub fn connected(&mut self, reply: Option<usize>) -> (out: Vec<WsAction>)
        ensures
            (final(self)@, shown(out@)) == on_connected(old(self)@, reply),
    {
        let mut out: Vec<WsAction> = Vec::new();
        assert(shown(out@) =~= Seq::empty());
        if self.phase != Phase::Connecting {
            return out;
        }
        match reply {
            Some(id) => {
                self.id = id;
                self.phase = Phase::Active;
            },
            None => {
                self.leave(&mut out);
                assert(shown(out@) =~= seq![WsActionView::Stop]);
            },
        }
        out
    }

    /// Carries out one command of the peer.
    pub fn run(&mut self, command: Command) -> (out: Vec<WsAction>)
        ensures
            (final(self)@, shown(out@)) == on_command(old(self)@, command@),
    {
        let mut out: Vec<WsAction> = Vec::new();
        match command {
            Command::List => {
                out.push(WsAction::ListRooms);
                assert(shown(out@) =~= seq![WsActionView::ListRooms]);
            },
            Command::Join(room) => {
                out.push(WsAction::Join { id: self.id, name: room.clone() });
                out.push(WsAction::Text("joined".to_owned()));
                assert(shown(out@) =~= seq![
                    WsActionView::Join { id: self.id, name: room@ },
                    WsActionView::Text("joined"@),
                ]);
                self.room = room;
            },
            Command::JoinWithoutRoom => {
                out.push(WsAction::Text("!!! room name is required".to_owned()));
                assert(shown(out@) =~= seq![WsActionView::Text("!!! room name is required"@)]);
            },
            Command::Name(name) => {
                self.name = Some(name);
                assert(shown(out@) =~= Seq::empty());
            },
            Command::NameWithoutName => {
                out.push(WsAction::Text("!!! name is required".to_owned()));
                assert(shown(out@) =~= seq![WsActionView::Text("!!! name is required"@)]);
            },
            Command::Unknown(line) => {
                let mut notice = "!!! unknown command: ".to_owned();
                notice.append(quoted(line.as_str()).as_str());
                out.push(WsAction::Text(notice));
                assert(shown(out@) =~= seq![
                    WsActionView::Text("!!! unknown command: "@ + debug_text(line@)),
                ]);
            },
            Command::Say(line) => {
                let msg = match &self.name {
                    Some(name) => {
                        let mut msg = name.clone();
                        msg.append(": ");
                        msg.append(line.as_str());
                        msg
                    },
                    None => line,
                };
                out.push(WsAction::Message { id: self.id, room: self.room.clone(), msg });
                assert(shown(out@) =~= seq![
                    WsActionView::Message {
                        id: self.id,
                        room: self.room@,
                        msg: signed(old(self)@.name, line@),
                    },
                ]);
            },
        }
        out
    }

    /// One item of the inbound stream has come: a frame, or a breach of the
    /// framing protocol, which stops the session and does nothing else.
    pub fn handle(&mut self, msg: Result<WsMessage, ProtocolError>, now: u64) -> (out: Vec<
        WsAction,
    >)
        ensures
            (final(self)@, shown(out@)) == on_frame(
                old(self)@,
                match msg {
                    Ok(frame) => Ok(frame@),
                    Err(e) => Err(e),
                },
                now,
            ),
    {
        let mut out: Vec<WsAction> = Vec::new();
        assert(shown(out@) =~= Seq::empty());
        if self.phase != Phase::Active {
            return out;
        }
        match msg {
            Err(_) => {
                self.leave(&mut out);
                assert(shown(out@) =~= seq![WsActionView::Stop]);
            },
            Ok(WsMessage::Ping(data)) => {
                self.hb = now;
                let ghost bytes = data@;
                out.push(WsAction::Pong(data));
                assert(shown(out@) =~= seq![WsActionView::Pong(bytes)]);
            },
            Ok(WsMessage::Pong(_)) => {
                self.hb = now;
            },
            Ok(WsMessage::Text(text)) => {
                return self.run(parse(text.as_str()));
            },
            Ok(WsMessage::Close(reason)) => {
                let ghost why = reason_view(reason);
                out.push(WsAction::Close(reason));
                assert(shown(out@) =~= seq![WsActionView::Close(why)]);
                self.leave(&mut out);
                assert(shown(out@) =~= seq![WsActionView::Close(why), WsActionView::Stop]);
            },
            Ok(WsMessage::Binary(_)) => {},
            Ok(WsMessage::Continuation) => {},
            Ok(WsMessage::Nop) => {},
        }
        out
    }

    /// The broker's reply to `ListRooms` has come: the room names, or `None`
    /// where the broker could not be reached, which stops the session. Each
    /// name goes to the peer as a line of its own.
    pub fn listed(&mut self, reply: Option<Vec<String>>) -> (out: Vec<WsAction>)
        ensures
            (final(self)@, shown(out@)) == on_listed(
                old(self)@,
                match reply {
                    Some(rooms) => Some(texts(rooms@)),
                    None => None,
                },
            ),
    {
        let mut out: Vec<WsAction> = Vec::new();
        assert(shown(out@) =~= Seq::empty());
        if self.phase != Phase::Active {
            return out;
        }
        match reply {
            Some(rooms) => {
                let mut i: usize = 0;
                while i < rooms.len()
                    invariant
                        i <= rooms.len(),
                        out.len() == i,
                        forall|k: int|
                            0 <= k < i ==> (#[trigger] out@[k])@ == WsActionView::Text(rooms@[k]@),
                    decreases rooms.len() - i,
                {
                    out.push(WsAction::Text(rooms[i].clone()));
                    i += 1;
                }
                assert(shown(out@) =~= texts(rooms@).map_values(
                    |room: Seq<char>| WsActionView::Text(room),
                ));
            },
            None => {
                self.leave(&mut out);
                assert(shown(out@) =~= seq![WsActionView::Stop]);
            },
        }
        out
    }

    /// The broker has pushed a line: it is written to the peer.
    pub fn deliver(&self, msg: Message) -> (out: Vec<WsAction>)
        ensures
            shown(out@) == on_pushed(self@, msg.0@),
    {
        let mut out: Vec<WsAction> = Vec::new();
        if self.phase == Phase::Active {
            let ghost said = msg.0@;
            out.push(WsAction::Text(msg.0));
            assert(shown(out@) =~= seq![WsActionView::Text(said)]);
        } else {
            assert(shown(out@) =~= Seq::empty());
        }
        out
    }

    /// The heartbeat timer has ticked at `now`: a peer that is overdue is
    /// given up without another probe, any other is probed.
    pub fn hb(&mut self, now: u64) -> (out: Vec<WsAction>)
        ensures
            (final(self)@, shown(out@)) == on_tick(old(self)@, now),
    {
        let mut out: Vec<WsAction> = Vec::new();
        assert(shown(out@) =~= Seq::empty());
        if self.phase != Phase::Active {
            return out;
        }
        if is_expired(self.hb, now, CLIENT_TIMEOUT) {
            self.give_up(&mut out);
            assert(shown(out@) =~= goodbye(old(self)@));
            return out;
        }
        out.push(WsAction::Ping);
        assert(shown(out@) =~= seq![WsActionView::Ping]);
        out
    }

    /// The session ends, for whatever reason: the broker is told, unless
    /// the heartbeat has told it already.
    pub fn stopping(&mut self) -> (out: Vec<WsAction>)
        ensures
            (final(self)@, shown(out@)) == on_stopping(old(self)@),
    {
        let mut out: Vec<WsAction> = Vec::new();
        if !self.told {
            out.push(WsAction::Disconnect { id: self.id });
            assert(shown(out@) =~= seq![WsActionView::Disconnect { id: self.id }]);
        } else {
            assert(shown(out@) =~= Seq::empty());
        }
        self.phase = Phase::Terminated;
        self.told = true;
        out
    }
}

} // verus!
