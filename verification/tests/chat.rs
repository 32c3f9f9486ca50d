use mpsc_chat::chat_room::ChatRoom;
use mpsc_chat::chat_server::ChatServer;
use mpsc_chat::error::ChatError;
use mpsc_chat::message::ChatMessage;
use tokio::sync::broadcast::error::TryRecvError;

fn message(sender: &str, room: &str, content: &str) -> ChatMessage {
    ChatMessage {
        sender: sender.to_string(),
        room: room.to_string(),
        content: content.to_string(),
        timestamp: 0,
    }
}

#[test]
fn scenario_general_alice_bob() {
    let mut server = ChatServer::new();
    assert_eq!(server.create_room("general".to_string()), Ok(()));
    let mut alice = server.join_room("general", "alice".to_string()).unwrap().unwrap();
    let mut bob = server.join_room("general", "bob".to_string()).unwrap().unwrap();
    assert_eq!(server.send_message("general", message("alice", "general", "hi")), Ok(()));

    let seen_by_alice = alice.try_recv().unwrap().to_string();
    let seen_by_bob = bob.try_recv().unwrap().to_string();
    for seen in [&seen_by_alice, &seen_by_bob] {
        assert_eq!(seen.lines().count(), 1);
        assert!(seen.ends_with('\n'));
        let line = seen.lines().next().unwrap();
        assert!(line.contains("alice") && line.contains("hi"));
    }
    assert!(matches!(alice.try_recv(), Err(TryRecvError::Empty)));
    assert!(matches!(bob.try_recv(), Err(TryRecvError::Empty)));

    assert_eq!(server.remove_room("general"), Err(ChatError::RoomNotEmpty));
    assert_eq!(server.leave_room("general", "alice"), Ok(()));
    assert_eq!(server.leave_room("general", "bob"), Ok(()));
    assert_eq!(server.remove_room("general"), Ok(()));
    assert!(server.list_rooms().is_empty());
}

#[test]
fn joining_twice_is_joining_once() {
    let mut server = ChatServer::new();
    server.create_room("general".to_string()).unwrap();
    let first = server.join_room("general", "alice".to_string()).unwrap();
    let second = server.join_room("general", "alice".to_string()).unwrap();
    assert!(first.is_some());
    assert!(second.is_none());

    let mut handle = first.unwrap();
    server.send_message("general", message("bob", "general", "once")).unwrap();
    assert_eq!(handle.try_recv().unwrap().content, "once");
    assert!(matches!(handle.try_recv(), Err(TryRecvError::Empty)));

    // one leave is enough to empty the room again
    server.leave_room("general", "alice").unwrap();
    assert_eq!(server.remove_room("general"), Ok(()));
}

#[test]
fn room_with_members_is_not_removed() {
    let mut server = ChatServer::new();
    server.create_room("busy".to_string()).unwrap();
    let mut handle = server.join_room("busy", "carol".to_string()).unwrap().unwrap();
    assert_eq!(server.remove_room("busy"), Err(ChatError::RoomNotEmpty));
    assert_eq!(server.list_rooms(), vec!["busy".to_string()]);
    // the member is still a member, and still served
    assert!(server.join_room("busy", "carol".to_string()).unwrap().is_none());
    server.send_message("busy", message("dave", "busy", "still here")).unwrap();
    assert_eq!(handle.try_recv().unwrap().content, "still here");
}

#[test]
fn late_joiner_sees_only_later_messages() {
    let mut server = ChatServer::new();
    server.create_room("news".to_string()).unwrap();
    let mut early = server.join_room("news", "early".to_string()).unwrap().unwrap();
    server.send_message("news", message("early", "news", "M1")).unwrap();
    let mut late = server.join_room("news", "late".to_string()).unwrap().unwrap();
    server.send_message("news", message("early", "news", "M2")).unwrap();

    assert_eq!(late.try_recv().unwrap().content, "M2");
    assert!(matches!(late.try_recv(), Err(TryRecvError::Empty)));
    assert_eq!(early.try_recv().unwrap().content, "M1");
    assert_eq!(early.try_recv().unwrap().content, "M2");
}

#[test]
fn every_member_gets_every_message_in_order() {
    let mut server = ChatServer::new();
    server.create_room("hall".to_string()).unwrap();
    let mut handles = Vec::new();
    for i in 0..5 {
        handles.push(server.join_room("hall", format!("user-{}", i)).unwrap().unwrap());
    }
    for text in ["one", "two", "three"] {
        server.send_message("hall", message("user-0", "hall", text)).unwrap();
    }
    for handle in handles.iter_mut() {
        assert_eq!(handle.try_recv().unwrap().content, "one");
        assert_eq!(handle.try_recv().unwrap().content, "two");
        assert_eq!(handle.try_recv().unwrap().content, "three");
        assert!(matches!(handle.try_recv(), Err(TryRecvError::Empty)));
    }
}

#[test]
fn slow_member_loses_the_oldest_messages() {
    let mut server = ChatServer::new();
    server.create_room("flood".to_string()).unwrap();
    let mut slow = server.join_room("flood", "slow".to_string()).unwrap().unwrap();
    for i in 0..17 {
        assert_eq!(
            server.send_message("flood", message("fast", "flood", &format!("m{}", i))),
            Ok(())
        );
    }
    assert!(matches!(slow.try_recv(), Err(TryRecvError::Lagged(1))));
    assert_eq!(slow.try_recv().unwrap().content, "m1");
}

#[test]
fn unknown_room_is_reported_and_nothing_changes() {
    let mut server = ChatServer::new();
    server.create_room("general".to_string()).unwrap();
    assert!(matches!(
        server.join_room("nonexistent", "alice".to_string()),
        Err(ChatError::RoomNotFound)
    ));
    assert_eq!(
        server.send_message("nonexistent", message("alice", "nonexistent", "hi")),
        Err(ChatError::RoomNotFound)
    );
    assert_eq!(server.leave_room("nonexistent", "alice"), Err(ChatError::RoomNotFound));
    assert_eq!(server.remove_room("nonexistent"), Err(ChatError::RoomNotFound));
    assert_eq!(server.list_rooms(), vec!["general".to_string()]);
    assert_eq!(server.remove_room("general"), Ok(()));
}

#[test]
fn room_names_are_unique() {
    let mut server = ChatServer::new();
    assert_eq!(server.create_room("a".to_string()), Ok(()));
    assert_eq!(server.create_room("b".to_string()), Ok(()));
    assert_eq!(server.create_room("a".to_string()), Err(ChatError::RoomExists));
    assert_eq!(server.list_rooms(), vec!["a".to_string(), "b".to_string()]);
}

#[test]
fn sending_to_an_empty_room_succeeds() {
    let mut server = ChatServer::new();
    server.create_room("quiet".to_string()).unwrap();
    assert_eq!(server.send_message("quiet", message("x", "quiet", "anyone?")), Ok(()));
}

#[test]
fn leaving_without_being_a_member_is_no_error() {
    let mut server = ChatServer::new();
    server.create_room("general".to_string()).unwrap();
    let _alice = server.join_room("general", "alice".to_string()).unwrap();
    assert_eq!(server.leave_room("general", "stranger"), Ok(()));
    assert_eq!(server.remove_room("general"), Err(ChatError::RoomNotEmpty));
}

#[test]
fn room_keeps_each_member_once() {
    let mut room = ChatRoom::new();
    assert!(room.is_empty());
    room.add_user("alice".to_string());
    room.add_user("alice".to_string());
    room.add_user("bob".to_string());
    assert!(room.has_user("alice"));
    assert!(!room.is_empty());
    room.remove_user("alice");
    assert!(!room.has_user("alice"));
    assert!(room.has_user("bob"));
    room.remove_user("nobody");
    room.remove_user("bob");
    assert!(room.is_empty());
}

#[test]
fn room_broadcast_reaches_subscribers() {
    let mut room = ChatRoom::new();
    assert_eq!(room.broadcast(message("a", "r", "lost")), Ok(()));
    let mut first = room.subscribe();
    let mut second = room.subscribe();
    assert_eq!(room.broadcast(message("a", "r", "kept")), Ok(()));
    assert_eq!(first.try_recv().unwrap().content, "kept");
    assert_eq!(second.try_recv().unwrap().content, "kept");
}

#[test]
fn message_is_rendered_with_its_utc_time() {
    let at_epoch = message("alice", "general", "hi");
    assert_eq!(
        at_epoch.to_string(),
        "[1970-01-01 00:00:00 UTC] alice said in general: hi\n"
    );
    let later = ChatMessage { timestamp: 1_662_921_288_000_000_000, ..message("bob", "dev", "yo") };
    assert_eq!(later.to_string(), "[2022-09-11 18:34:48 UTC] bob said in dev: yo\n");
    assert_eq!(later.render_with("now"), "[now] bob said in dev: yo\n");
}
