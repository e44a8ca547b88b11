use chat_relay::chat_server::{
    ChatServer, Connect, Delivery, Disconnect, Join, ListRooms, Message,
};

fn note(id: usize, msg: &str) -> Delivery {
    Delivery { id, msg: msg.to_owned() }
}

fn join(server: &mut ChatServer<u8>, id: usize, name: &str) -> Vec<Delivery> {
    server.join(Join { id, name: name.to_owned() })
}

fn say(server: &ChatServer<u8>, id: usize, room: &str, msg: &str) -> Vec<Delivery> {
    server.message(Message { id, msg: msg.to_owned(), room: room.to_owned() }).1
}

#[test]
fn a_new_broker_has_the_empty_starting_room() {
    let server: ChatServer<u8> = ChatServer::default();
    assert_eq!(server.list_rooms(ListRooms), vec!["main".to_owned()]);
    assert!(server.members("main").is_empty());
    assert!(server.recipient(1).is_none());
}

#[test]
fn register_puts_the_session_in_the_starting_room_and_tells_it() {
    let mut server: ChatServer<u8> = ChatServer::default();
    let out = server.register(7, 70);
    assert_eq!(out, vec![note(7, "Someone Joined")]);
    assert_eq!(server.members("main"), vec![7]);
    assert_eq!(server.recipient(7), Some(&70));
    let out = server.register(9, 90);
    assert_eq!(out, vec![note(7, "Someone Joined"), note(9, "Someone Joined")]);
    assert_eq!(server.members("main"), vec![7, 9]);
}

#[test]
fn register_under_an_id_in_use_replaces_the_handle() {
    let mut server: ChatServer<u8> = ChatServer::default();
    server.register(7, 70);
    let out = server.register(7, 71);
    assert_eq!(out, vec![note(7, "Someone Joined")]);
    assert_eq!(server.members("main"), vec![7]);
    assert_eq!(server.recipient(7), Some(&71));
}

#[test]
fn connect_registers_under_the_id_it_returns() {
    let mut server: ChatServer<u8> = ChatServer::default();
    let (id, out) = server.connect(Connect { addr: 5 });
    assert_eq!(out, vec![note(id, "Someone Joined")]);
    assert_eq!(server.members("main"), vec![id]);
    assert_eq!(server.recipient(id), Some(&5));
}

#[test]
fn join_moves_the_session_and_tells_both_rooms() {
    let mut server: ChatServer<u8> = ChatServer::default();
    server.register(1, 10);
    server.register(2, 20);
    server.register(3, 30);
    assert!(join(&mut server, 3, "lobby").len() == 2);
    let out = join(&mut server, 1, "lobby");
    assert_eq!(
        out,
        vec![note(2, "Someone disconnected"), note(3, "Someone connected")]
    );
    assert_eq!(server.members("main"), vec![2]);
    assert_eq!(server.members("lobby"), vec![3, 1]);
}

#[test]
fn join_makes_a_missing_room_and_never_removes_one() {
    let mut server: ChatServer<u8> = ChatServer::default();
    server.register(1, 10);
    let out = join(&mut server, 1, "lobby");
    assert!(out.is_empty());
    assert_eq!(
        server.list_rooms(ListRooms),
        vec!["main".to_owned(), "lobby".to_owned()]
    );
    join(&mut server, 1, "main");
    assert!(server.members("lobby").is_empty());
    assert_eq!(
        server.list_rooms(ListRooms),
        vec!["main".to_owned(), "lobby".to_owned()]
    );
}

#[test]
fn join_to_the_room_one_is_in_keeps_one_there_once() {
    let mut server: ChatServer<u8> = ChatServer::default();
    server.register(1, 10);
    server.register(2, 20);
    let out = join(&mut server, 1, "main");
    assert_eq!(
        out,
        vec![note(2, "Someone disconnected"), note(2, "Someone connected")]
    );
    assert_eq!(server.members("main"), vec![2, 1]);
}

#[test]
fn message_reaches_the_room_but_not_the_sender() {
    let mut server: ChatServer<u8> = ChatServer::default();
    server.register(1, 10);
    join(&mut server, 1, "lobby");
    server.register(2, 20);
    join(&mut server, 2, "lobby");
    let out = say(&server, 1, "lobby", "hi");
    assert_eq!(out, vec![note(2, "hi")]);
    assert_eq!(out.iter().filter(|d| d.id == 2).count(), 1);
    assert_eq!(out.iter().filter(|d| d.id == 1).count(), 0);
}

#[test]
fn message_to_a_missing_room_is_dropped() {
    let mut server: ChatServer<u8> = ChatServer::default();
    server.register(1, 10);
    assert!(say(&server, 1, "nowhere", "hi").is_empty());
    assert_eq!(server.list_rooms(ListRooms), vec!["main".to_owned()]);
}

#[test]
fn message_skips_members_without_a_record() {
    let mut server: ChatServer<u8> = ChatServer::default();
    server.register(1, 10);
    join(&mut server, 8, "main");
    server.register(2, 20);
    assert_eq!(server.members("main"), vec![1, 8, 2]);
    assert_eq!(say(&server, 1, "main", "hi"), vec![note(2, "hi")]);
    assert_eq!(
        server.send_message("main", "all", None),
        vec![note(1, "all"), note(2, "all")]
    );
}

#[test]
fn disconnect_drops_the_record_and_clears_the_rooms() {
    let mut server: ChatServer<u8> = ChatServer::default();
    server.register(1, 10);
    server.register(2, 20);
    let out = server.disconnect(Disconnect { id: 1 });
    assert_eq!(out, vec![note(2, "Someone disconnected")]);
    assert!(server.recipient(1).is_none());
    assert_eq!(server.members("main"), vec![2]);
    assert!(say(&server, 2, "main", "hi").is_empty());
}

#[test]
fn disconnect_of_an_unknown_id_still_clears_the_rooms() {
    let mut server: ChatServer<u8> = ChatServer::default();
    server.register(2, 20);
    join(&mut server, 8, "main");
    assert_eq!(server.members("main"), vec![2, 8]);
    let out = server.disconnect(Disconnect { id: 8 });
    assert_eq!(out, vec![note(2, "Someone disconnected")]);
    assert_eq!(server.members("main"), vec![2]);
    let out = server.disconnect(Disconnect { id: 99 });
    assert!(out.is_empty());
    assert_eq!(server.members("main"), vec![2]);
}

#[test]
fn membership_follows_the_last_join_or_disconnect() {
    let mut server: ChatServer<u8> = ChatServer::default();
    server.register(1, 10);
    join(&mut server, 1, "a");
    join(&mut server, 1, "b");
    for room in ["main", "a"] {
        assert!(!server.members(room).contains(&1));
    }
    assert!(server.members("b").contains(&1));
    server.disconnect(Disconnect { id: 1 });
    for room in server.list_rooms(ListRooms) {
        assert!(!server.members(&room).contains(&1));
    }
}

#[test]
fn lobby_scenario_delivers_exactly_one_copy_to_the_other_session() {
    let mut server: ChatServer<u8> = ChatServer::default();
    let (first, _) = server.connect(Connect { addr: 1 });
    join(&mut server, first, "lobby");
    let (second, _) = server.connect(Connect { addr: 2 });
    if second == first {
        return;
    }
    join(&mut server, second, "lobby");
    let out = say(&server, first, "lobby", "hi");
    assert_eq!(out, vec![note(second, "hi")]);
    assert_eq!(out.iter().filter(|d| d.id == first).count(), 0);
}
