use server::chat::{ChatServer, Connect, Disconnect};

fn members(chat: &ChatServer<&'static str>, room: i32) -> Option<Vec<usize>> {
    chat.rooms().get(&room).map(|s| {
        let mut v: Vec<usize> = s.iter().copied().collect();
        v.sort();
        v
    })
}

fn sorted(mut v: Vec<usize>) -> Vec<usize> {
    v.sort();
    v
}

#[test]
fn new_server_is_empty() {
    let chat: ChatServer<&'static str> = ChatServer::default();
    assert!(chat.rooms().is_empty());
    assert!(chat.session(0).is_none());
}

#[test]
fn connect_registers_session() {
    let mut chat: ChatServer<&'static str> = ChatServer::default();
    let a = chat.connect(Connect { addr: "a" });
    assert_eq!(chat.session(a), Some(&"a"));
    assert!(chat.rooms().is_empty());
}

#[test]
fn join_moves_into_one_room() {
    let mut chat: ChatServer<&'static str> = ChatServer::default();
    let a = chat.connect(Connect { addr: "a" });
    chat.join(5, a);
    assert_eq!(members(&chat, 5), Some(vec![a]));
    chat.join(7, a);
    assert_eq!(members(&chat, 5), Some(vec![]));
    assert_eq!(members(&chat, 7), Some(vec![a]));
    chat.join(7, a);
    assert_eq!(members(&chat, 7), Some(vec![a]));
    assert_eq!(chat.rooms().len(), 2);
}

#[test]
fn disconnect_leaves_all_rooms() {
    let mut chat: ChatServer<&'static str> = ChatServer::default();
    let a = chat.connect(Connect { addr: "a" });
    let b = chat.connect(Connect { addr: "b" });
    chat.join(5, a);
    chat.join(5, b);
    chat.disconnect(Disconnect { id: a });
    assert!(chat.session(a).is_none());
    assert_eq!(members(&chat, 5), Some(vec![b]));
    assert_eq!(chat.session(b), Some(&"b"));
    chat.disconnect(Disconnect { id: a });
    assert_eq!(members(&chat, 5), Some(vec![b]));
}

#[test]
fn disconnect_of_unknown_id_changes_nothing() {
    let mut chat: ChatServer<&'static str> = ChatServer::default();
    let a = chat.connect(Connect { addr: "a" });
    chat.join(3, a);
    // an id that joined a room without ever connecting stays in it
    let stranger = a.wrapping_add(1);
    chat.join(3, stranger);
    chat.disconnect(Disconnect { id: stranger });
    assert_eq!(members(&chat, 3), Some(sorted(vec![a, stranger])));
}

#[test]
fn room_message_reaches_other_connected_members() {
    let mut chat: ChatServer<&'static str> = ChatServer::default();
    let a = chat.connect(Connect { addr: "a" });
    let b = chat.connect(Connect { addr: "b" });
    let c = chat.connect(Connect { addr: "c" });
    chat.join(9, a);
    chat.join(9, b);
    chat.join(4, c);
    assert_eq!(chat.send_room_message(9, a), vec![b]);
    assert_eq!(sorted(chat.send_room_message(9, 0)), sorted(vec![a, b]));
    assert_eq!(chat.send_room_message(4, c), Vec::<usize>::new());
    assert_eq!(chat.send_room_message(100, a), Vec::<usize>::new());
    // a member without a session receives nothing
    let stranger = a.wrapping_add(b).wrapping_add(c).wrapping_add(1);
    chat.join(9, stranger);
    assert_eq!(chat.send_room_message(9, a), vec![b]);
}

#[test]
fn disconnected_session_receives_nothing() {
    let mut chat: ChatServer<&'static str> = ChatServer::default();
    let a = chat.connect(Connect { addr: "a" });
    let b = chat.connect(Connect { addr: "b" });
    chat.join(2, a);
    chat.join(2, b);
    assert_eq!(chat.send_room_message(2, a), vec![b]);
    chat.disconnect(Disconnect { id: b });
    assert_eq!(chat.send_room_message(2, a), Vec::<usize>::new());
    assert!(chat.session(b).is_none());
}

#[test]
fn connect_then_disconnect_leaves_others() {
    let mut chat: ChatServer<&'static str> = ChatServer::default();
    let a = chat.connect(Connect { addr: "a" });
    chat.join(1, a);
    let b = chat.connect(Connect { addr: "b" });
    chat.disconnect(Disconnect { id: b });
    assert_eq!(chat.session(a), Some(&"a"));
    assert!(chat.session(b).is_none());
    assert_eq!(members(&chat, 1), Some(vec![a]));
}

#[test]
fn every_connect_gets_a_new_id() {
    let mut chat: ChatServer<u32> = ChatServer::default();
    let mut ids: Vec<usize> = Vec::new();
    for n in 0..200u32 {
        let id = chat.connect(Connect { addr: n });
        assert!(!ids.contains(&id));
        ids.push(id);
    }
    for (n, id) in ids.iter().enumerate() {
        assert_eq!(chat.session(*id), Some(&(n as u32)));
    }
}
