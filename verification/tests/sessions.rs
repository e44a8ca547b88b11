use chat_relay::codec::{ChatRequest, ChatResponse};
use chat_relay::session::{
    is_expired, Action, ChatSession, Message, Phase, StreamError, CLIENT_TIMEOUT,
    HEARTBEAT_INTERVAL,
};
use chat_relay::ws_session;
use chat_relay::ws_session::{CloseReason, ProtocolError, WsAction, WsChatSession, WsMessage};

fn active(id: usize, now: u64) -> ChatSession {
    let mut s = ChatSession::new(now);
    assert_eq!(s.started(), vec![Action::Connect]);
    assert!(s.connected(Some(id)).is_empty());
    s
}

fn ws_active(id: usize, now: u64) -> WsChatSession {
    let mut s = WsChatSession::new(now);
    assert_eq!(s.started(), vec![WsAction::Connect]);
    assert!(s.connected(Some(id)).is_empty());
    s
}

fn text(s: &mut WsChatSession, line: &str) -> Vec<WsAction> {
    s.handle(Ok(WsMessage::Text(line.to_owned())), 0)
}

#[test]
fn heartbeat_parameters_differ_by_transport() {
    assert_eq!(HEARTBEAT_INTERVAL, 1000);
    assert_eq!(CLIENT_TIMEOUT, 10000);
    assert_eq!(ws_session::HEARTBEAT_INTERVAL, 5000);
    assert_eq!(ws_session::CLIENT_TIMEOUT, 10000);
}

#[test]
fn expiry_is_strictly_after_the_timeout() {
    assert!(!is_expired(100, 100, 10));
    assert!(!is_expired(100, 110, 10));
    assert!(is_expired(100, 111, 10));
    assert!(!is_expired(100, 50, 10));
    assert!(is_expired(0, u64::MAX, 10));
}

#[test]
fn a_session_starts_in_the_starting_room_and_connects() {
    let mut s = ChatSession::new(5);
    assert_eq!(s.phase(), Phase::Connecting);
    assert_eq!(s.room(), "main");
    assert_eq!(s.id(), 0);
    assert_eq!(s.started(), vec![Action::Connect]);
    assert!(s.connected(Some(42)).is_empty());
    assert_eq!(s.phase(), Phase::Active);
    assert_eq!(s.id(), 42);
    assert!(s.started().is_empty());
    assert!(s.connected(Some(43)).is_empty());
    assert_eq!(s.id(), 42);
}

#[test]
fn a_session_that_cannot_register_leaves() {
    let mut s = ChatSession::new(5);
    assert_eq!(s.connected(None), vec![Action::Stop]);
    assert_eq!(s.phase(), Phase::Disconnecting);
    assert_eq!(s.stopping(), vec![Action::Disconnect { id: 0 }]);
    assert_eq!(s.phase(), Phase::Terminated);
    assert!(s.stopping().is_empty());
}

#[test]
fn frames_are_ignored_until_the_session_is_active() {
    let mut s = ChatSession::new(5);
    assert!(s.handle(Ok(ChatRequest::List), 6).is_empty());
    assert!(s.handle(Err(StreamError::Malformed), 6).is_empty());
    assert!(s.hb(1_000_000).is_empty());
    assert!(s.deliver(Message("x".to_owned())).is_empty());
    assert_eq!(s.phase(), Phase::Connecting);
}

#[test]
fn list_asks_the_broker_and_writes_one_frame() {
    let mut s = active(3, 0);
    assert_eq!(s.handle(Ok(ChatRequest::List), 1), vec![Action::ListRooms]);
    let rooms = vec!["main".to_owned(), "lobby".to_owned()];
    assert_eq!(
        s.listed(Some(rooms.clone())),
        vec![Action::Write(ChatResponse::Rooms(rooms))]
    );
    assert_eq!(s.listed(None), vec![Action::Stop]);
    assert_eq!(s.phase(), Phase::Disconnecting);
    assert_eq!(s.stopping(), vec![Action::Disconnect { id: 3 }]);
}

#[test]
fn join_tells_the_broker_and_the_peer_and_changes_the_room() {
    let mut s = active(3, 0);
    assert_eq!(
        s.handle(Ok(ChatRequest::Join("lobby".to_owned())), 1),
        vec![
            Action::Join { id: 3, name: "lobby".to_owned() },
            Action::Write(ChatResponse::Joined("lobby".to_owned())),
        ]
    );
    assert_eq!(s.room(), "lobby");
    assert_eq!(
        s.handle(Ok(ChatRequest::Message("hi".to_owned())), 2),
        vec![Action::Message { id: 3, room: "lobby".to_owned(), msg: "hi".to_owned() }]
    );
}

#[test]
fn a_pushed_line_is_written_as_a_message_frame() {
    let s = active(3, 0);
    assert_eq!(
        s.deliver(Message("hello".to_owned())),
        vec![Action::Write(ChatResponse::Message("hello".to_owned()))]
    );
}

#[test]
fn ping_refreshes_the_heartbeat() {
    let mut s = active(3, 0);
    assert_eq!(s.hb(10_000), vec![Action::Write(ChatResponse::Ping)]);
    assert!(s.handle(Ok(ChatRequest::Ping), 9_000).is_empty());
    assert_eq!(s.hb(19_000), vec![Action::Write(ChatResponse::Ping)]);
    assert_eq!(s.hb(19_001), vec![Action::Disconnect { id: 3 }, Action::Stop]);
}

#[test]
fn a_silent_peer_is_given_up_once() {
    let mut s = active(3, 0);
    assert_eq!(s.hb(10_001), vec![Action::Disconnect { id: 3 }, Action::Stop]);
    assert_eq!(s.phase(), Phase::Disconnecting);
    assert!(s.hb(20_000).is_empty());
    assert!(s.handle(Ok(ChatRequest::Ping), 20_000).is_empty());
    assert!(s.stopping().is_empty());
    assert_eq!(s.phase(), Phase::Terminated);
    assert!(s.stopping().is_empty());
}

#[test]
fn a_malformed_frame_only_stops_and_the_end_tells_the_broker() {
    let mut s = active(3, 0);
    s.handle(Ok(ChatRequest::Join("lobby".to_owned())), 1);
    assert_eq!(s.handle(Err(StreamError::Malformed), 2), vec![Action::Stop]);
    assert_eq!(s.phase(), Phase::Disconnecting);
    assert_eq!(s.room(), "lobby");
    assert_eq!(s.id(), 3);
    assert!(s.handle(Ok(ChatRequest::List), 3).is_empty());
    assert!(s.hb(1_000_000).is_empty());
    assert_eq!(s.stopping(), vec![Action::Disconnect { id: 3 }]);
    assert_eq!(s.phase(), Phase::Terminated);
    assert!(s.stopping().is_empty());
    let mut s = active(4, 0);
    assert_eq!(s.handle(Err(StreamError::Io), 1), vec![Action::Stop]);
    assert_eq!(s.stopping(), vec![Action::Disconnect { id: 4 }]);
}

#[test]
fn a_closed_transport_tells_the_broker() {
    let mut s = active(3, 0);
    assert_eq!(s.stopping(), vec![Action::Disconnect { id: 3 }]);
    assert_eq!(s.phase(), Phase::Terminated);
    assert!(s.stopping().is_empty());
}

#[test]
fn text_session_starts_and_connects() {
    let mut s = WsChatSession::new(5);
    assert_eq!(s.phase(), Phase::Connecting);
    assert_eq!(s.room(), "main");
    assert!(text(&mut s, "hi").is_empty());
    assert_eq!(s.started(), vec![WsAction::Connect]);
    assert!(s.connected(Some(8)).is_empty());
    assert_eq!(s.id(), 8);
    assert_eq!(s.phase(), Phase::Active);
    let mut t = WsChatSession::new(5);
    assert_eq!(t.connected(None), vec![WsAction::Stop]);
    assert_eq!(t.stopping(), vec![WsAction::Disconnect { id: 0 }]);
    assert!(t.stopping().is_empty());
}

#[test]
fn text_list_writes_each_room_as_a_line() {
    let mut s = ws_active(3, 0);
    assert_eq!(text(&mut s, "/list"), vec![WsAction::ListRooms]);
    assert_eq!(
        s.listed(Some(vec!["main".to_owned(), "lobby".to_owned()])),
        vec![WsAction::Text("main".to_owned()), WsAction::Text("lobby".to_owned())]
    );
    assert!(s.listed(Some(Vec::new())).is_empty());
    assert_eq!(s.listed(None), vec![WsAction::Stop]);
    assert_eq!(s.stopping(), vec![WsAction::Disconnect { id: 3 }]);
}

#[test]
fn text_join_changes_the_room_and_acknowledges() {
    let mut s = ws_active(3, 0);
    assert_eq!(
        text(&mut s, " /join lobby\n"),
        vec![
            WsAction::Join { id: 3, name: "lobby".to_owned() },
            WsAction::Text("joined".to_owned()),
        ]
    );
    assert_eq!(s.room(), "lobby");
}

#[test]
fn text_join_without_a_room_gives_a_usage_notice_and_keeps_the_room() {
    let mut s = ws_active(3, 0);
    assert_eq!(
        text(&mut s, "/join"),
        vec![WsAction::Text("!!! room name is required".to_owned())]
    );
    assert_eq!(s.room(), "main");
    assert_eq!(s.phase(), Phase::Active);
}

#[test]
fn text_name_prefixes_later_chat() {
    let mut s = ws_active(3, 0);
    assert_eq!(
        text(&mut s, "hello"),
        vec![WsAction::Message { id: 3, room: "main".to_owned(), msg: "hello".to_owned() }]
    );
    assert!(text(&mut s, "/name Ann").is_empty());
    assert_eq!(
        text(&mut s, "  hello  "),
        vec![WsAction::Message { id: 3, room: "main".to_owned(), msg: "Ann: hello".to_owned() }]
    );
    assert_eq!(
        text(&mut s, "/name"),
        vec![WsAction::Text("!!! name is required".to_owned())]
    );
}

#[test]
fn text_unknown_command_is_echoed_in_quotes() {
    let mut s = ws_active(3, 0);
    assert_eq!(
        text(&mut s, "/quit \"now\""),
        vec![WsAction::Text("!!! unknown command: \"/quit \\\"now\\\"\"".to_owned())]
    );
    assert_eq!(s.phase(), Phase::Active);
}

#[test]
fn text_ping_is_answered_and_refreshes_the_heartbeat() {
    let mut s = ws_active(3, 0);
    assert_eq!(
        s.handle(Ok(WsMessage::Ping(vec![1, 2])), 9_000),
        vec![WsAction::Pong(vec![1, 2])]
    );
    assert_eq!(s.hb(19_000), vec![WsAction::Ping]);
    assert!(s.handle(Ok(WsMessage::Pong(Vec::new())), 15_000).is_empty());
    assert_eq!(s.hb(25_000), vec![WsAction::Ping]);
    assert_eq!(s.hb(25_001), vec![WsAction::Disconnect { id: 3 }, WsAction::Stop]);
    assert!(s.hb(40_000).is_empty());
    assert!(s.stopping().is_empty());
}

#[test]
fn text_close_is_echoed_and_the_end_tells_the_broker() {
    let mut s = ws_active(3, 0);
    let reason = Some(CloseReason { code: 1000, description: Some("bye".to_owned()) });
    assert_eq!(
        s.handle(Ok(WsMessage::Close(reason.clone())), 1),
        vec![WsAction::Close(reason), WsAction::Stop]
    );
    assert_eq!(s.phase(), Phase::Disconnecting);
    assert_eq!(s.stopping(), vec![WsAction::Disconnect { id: 3 }]);
    assert_eq!(s.phase(), Phase::Terminated);
    assert!(s.stopping().is_empty());
    let mut s = ws_active(4, 0);
    assert_eq!(
        s.handle(Ok(WsMessage::Close(None)), 1),
        vec![WsAction::Close(None), WsAction::Stop]
    );
}

#[test]
fn text_protocol_error_only_stops_and_the_end_tells_the_broker() {
    let mut s = ws_active(3, 0);
    text(&mut s, "/join lobby");
    text(&mut s, "/name Ann");
    assert_eq!(s.handle(Err(ProtocolError), 1), vec![WsAction::Stop]);
    assert_eq!(s.phase(), Phase::Disconnecting);
    assert_eq!(s.room(), "lobby");
    assert!(text(&mut s, "hello").is_empty());
    assert_eq!(s.stopping(), vec![WsAction::Disconnect { id: 3 }]);
    assert!(s.stopping().is_empty());
}

#[test]
fn text_other_frames_change_nothing() {
    let mut s = ws_active(3, 0);
    assert!(s.handle(Ok(WsMessage::Binary(vec![1])), 1).is_empty());
    assert!(s.handle(Ok(WsMessage::Continuation), 1).is_empty());
    assert!(s.handle(Ok(WsMessage::Nop), 1).is_empty());
    assert_eq!(s.hb(10_000), vec![WsAction::Ping]);
    assert_eq!(
        s.deliver(Message("x".to_owned())),
        vec![WsAction::Text("x".to_owned())]
    );
    assert_eq!(s.stopping(), vec![WsAction::Disconnect { id: 3 }]);
}
