use chat_relay::chat_server::{ChatServer, Connect, Delivery, Disconnect, Join, Message};
use chat_relay::codec::{ChatRequest, ChatResponse};
use chat_relay::session::{Action, ChatSession, Phase};
use chat_relay::ws_session::{ProtocolError, WsAction, WsChatSession, WsMessage};

/// A broker with the lines that each text session has been sent.
struct Hub {
    server: ChatServer<usize>,
    sessions: Vec<WsChatSession>,
    inbox: Vec<Vec<String>>,
    told: Vec<usize>,
}

impl Hub {
    fn new() -> Hub {
        Hub {
            server: ChatServer::default(),
            sessions: Vec::new(),
            inbox: Vec::new(),
            told: Vec::new(),
        }
    }

    fn push(&mut self, out: Vec<Delivery>) {
        for d in out {
            let slot = *self.server.recipient(d.id).expect("a record");
            let lines = self.sessions[slot].deliver(chat_relay::session::Message(d.msg));
            self.perform(slot, lines);
        }
    }

    fn perform(&mut self, slot: usize, actions: Vec<WsAction>) {
        for action in actions {
            match action {
                WsAction::Connect => {
                    let (id, out) = self.server.connect(Connect { addr: slot });
                    let next = self.sessions[slot].connected(Some(id));
                    self.perform(slot, next);
                    self.push(out);
                }
                WsAction::Disconnect { id } => {
                    self.told[slot] += 1;
                    let out = self.server.disconnect(Disconnect { id });
                    self.push(out);
                }
                WsAction::ListRooms => {
                    let rooms = self.server.list_rooms(chat_relay::chat_server::ListRooms);
                    let next = self.sessions[slot].listed(Some(rooms));
                    self.perform(slot, next);
                }
                WsAction::Join { id, name } => {
                    let out = self.server.join(Join { id, name });
                    self.push(out);
                }
                WsAction::Message { id, room, msg } => {
                    let (_, out) = self.server.message(Message { id, msg, room });
                    self.push(out);
                }
                WsAction::Text(line) => self.inbox[slot].push(line),
                WsAction::Stop => {
                    let last = self.sessions[slot].stopping();
                    self.perform(slot, last);
                }
                WsAction::Ping | WsAction::Pong(_) | WsAction::Close(_) => {}
            }
        }
    }

    fn open(&mut self) -> usize {
        let slot = self.sessions.len();
        self.sessions.push(WsChatSession::new(0));
        self.inbox.push(Vec::new());
        self.told.push(0);
        let out = self.sessions[slot].started();
        self.perform(slot, out);
        slot
    }

    fn line(&mut self, slot: usize, line: &str) {
        let out = self.sessions[slot].handle(Ok(WsMessage::Text(line.to_owned())), 0);
        self.perform(slot, out);
    }

    fn frame(&mut self, slot: usize, frame: Result<WsMessage, ProtocolError>) {
        let out = self.sessions[slot].handle(frame, 0);
        self.perform(slot, out);
    }

    fn tick(&mut self, slot: usize, now: u64) {
        let out = self.sessions[slot].hb(now);
        self.perform(slot, out);
    }
}

#[test]
fn two_sessions_in_the_lobby_hear_each_other_but_not_themselves() {
    let mut hub = Hub::new();
    let first = hub.open();
    hub.line(first, "/join lobby");
    let second = hub.open();
    hub.line(second, "/join lobby");
    hub.inbox[first].clear();
    hub.inbox[second].clear();
    hub.line(first, "hi");
    assert_eq!(hub.inbox[second], vec!["hi".to_owned()]);
    assert!(hub.inbox[first].is_empty());
}

#[test]
fn a_session_sees_the_notices_of_its_rooms() {
    let mut hub = Hub::new();
    let first = hub.open();
    assert_eq!(hub.inbox[first], vec!["Someone Joined".to_owned()]);
    let second = hub.open();
    assert_eq!(
        hub.inbox[first],
        vec!["Someone Joined".to_owned(), "Someone Joined".to_owned()]
    );
    assert_eq!(hub.inbox[second], vec!["Someone Joined".to_owned()]);
    hub.line(second, "/join lobby");
    assert_eq!(hub.inbox[first].last().unwrap(), "Someone disconnected");
    assert_eq!(hub.inbox[second].last().unwrap(), "joined");
    hub.line(first, "/join lobby");
    assert_eq!(hub.inbox[second].last().unwrap(), "Someone connected");
    assert_eq!(hub.inbox[first].last().unwrap(), "joined");
    hub.line(first, "/list");
    let n = hub.inbox[first].len();
    assert_eq!(hub.inbox[first][n - 2..], ["main".to_owned(), "lobby".to_owned()]);
}

#[test]
fn a_named_session_signs_its_lines() {
    let mut hub = Hub::new();
    let first = hub.open();
    let second = hub.open();
    hub.line(first, "/name Ann");
    hub.line(first, "hello");
    assert_eq!(hub.inbox[second].last().unwrap(), "Ann: hello");
}

#[test]
fn a_silent_session_is_reclaimed_by_the_broker() {
    let mut hub = Hub::new();
    let quiet = hub.open();
    let other = hub.open();
    hub.line(quiet, "/join lobby");
    hub.line(other, "/join lobby");
    let id = hub.sessions[quiet].id();
    assert!(hub.server.recipient(id).is_some());
    assert!(hub.server.members("lobby").contains(&id));
    hub.tick(quiet, 10_000);
    assert_eq!(hub.sessions[quiet].phase(), Phase::Active);
    assert!(hub.server.recipient(id).is_some());
    hub.tick(quiet, 10_001);
    assert_eq!(hub.sessions[quiet].phase(), Phase::Terminated);
    assert_eq!(hub.told[quiet], 1);
    assert!(hub.server.recipient(id).is_none());
    for room in hub.server.list_rooms(chat_relay::chat_server::ListRooms) {
        assert!(!hub.server.members(&room).contains(&id));
    }
    assert_eq!(hub.inbox[other].last().unwrap(), "Someone disconnected");
    hub.line(other, "still here");
    assert_ne!(hub.inbox[quiet].last().unwrap(), "still here");
}

#[test]
fn a_silent_binary_session_is_reclaimed_by_the_broker() {
    let mut server: ChatServer<u8> = ChatServer::default();
    let mut session = ChatSession::new(100);
    assert_eq!(session.started(), vec![Action::Connect]);
    let (id, _) = server.connect(Connect { addr: 0 });
    session.connected(Some(id));
    assert_eq!(
        session.handle(Ok(ChatRequest::Join("lobby".to_owned())), 200),
        vec![
            Action::Join { id, name: "lobby".to_owned() },
            Action::Write(ChatResponse::Joined("lobby".to_owned())),
        ]
    );
    server.join(Join { id, name: "lobby".to_owned() });
    assert_eq!(server.members("lobby"), vec![id]);
    let out = session.hb(10_101);
    assert_eq!(out, vec![Action::Disconnect { id }, Action::Stop]);
    server.disconnect(Disconnect { id });
    assert!(server.recipient(id).is_none());
    assert!(server.members("lobby").is_empty());
    assert!(server.members("main").is_empty());
    assert!(session.stopping().is_empty());
}

#[test]
fn a_session_that_ends_on_an_error_or_a_close_is_reclaimed_once() {
    let mut hub = Hub::new();
    let broken = hub.open();
    let closed = hub.open();
    let other = hub.open();
    hub.line(broken, "/join lobby");
    let broken_id = hub.sessions[broken].id();
    let closed_id = hub.sessions[closed].id();
    hub.frame(broken, Err(ProtocolError));
    assert_eq!(hub.sessions[broken].phase(), Phase::Terminated);
    assert_eq!(hub.told[broken], 1);
    assert!(hub.server.recipient(broken_id).is_none());
    assert!(hub.server.members("lobby").is_empty());
    hub.frame(closed, Ok(WsMessage::Close(None)));
    assert_eq!(hub.sessions[closed].phase(), Phase::Terminated);
    assert_eq!(hub.told[closed], 1);
    assert!(hub.server.recipient(closed_id).is_none());
    assert_eq!(hub.server.members("main"), vec![hub.sessions[other].id()]);
    assert_eq!(hub.inbox[other].last().unwrap(), "Someone disconnected");
    assert_eq!(hub.told[other], 0);
}
