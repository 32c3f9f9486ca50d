use mpsc_chat::simulation::{
    bot_call, bot_name, random_message, random_room_move, random_room_name, random_user_move,
    random_user_name, reply_table, room_move, room_name, user_move, user_name, user_reply,
    RoomMove, Roster, UserMove,
};

#[test]
fn names_carry_their_number() {
    assert_eq!(room_name(1234), "room-1234");
    assert_eq!(user_name(0), "user-0");
    assert_eq!(user_name(10), "user-10");
    assert_eq!(room_name(u32::MAX), "room-4294967295");
    assert_eq!(bot_name("room-1234"), "room-1234-bot");
}

#[test]
fn random_names_have_four_digits() {
    for _ in 0..200 {
        let room = random_room_name();
        let number: u32 = room.strip_prefix("room-").unwrap().parse().unwrap();
        assert!((1000..9999).contains(&number));
        let user = random_user_name();
        let number: u32 = user.strip_prefix("user-").unwrap().parse().unwrap();
        assert!((1000..9999).contains(&number));
    }
}

#[test]
fn random_messages_come_from_the_table() {
    let table = reply_table();
    assert_eq!(table.len(), 6);
    assert_eq!(table[0], "Hello!");
    assert_eq!(table[5], "Random user is present. :-)");
    for _ in 0..100 {
        assert!(table.contains(&random_message()));
    }
}

#[test]
fn rolls_decide_the_moves() {
    assert_eq!(room_move(0), RoomMove::Create);
    assert_eq!(room_move(3), RoomMove::Create);
    assert_eq!(room_move(4), RoomMove::Remove);
    assert_eq!(user_move(0), UserMove::Join);
    assert_eq!(user_move(2), UserMove::Join);
    assert_eq!(user_move(3), UserMove::Leave);
    assert_eq!(user_move(4), UserMove::Rest);
    for _ in 0..100 {
        assert!(random_user_move() != UserMove::Rest);
        let m = random_room_move();
        assert!(m == RoomMove::Create || m == RoomMove::Remove);
    }
}

#[test]
fn bots_call_and_users_reply() {
    let call = bot_call("room-1", "user-7", 42);
    assert_eq!(call.sender, "room-1-bot");
    assert_eq!(call.room, "room-1");
    assert_eq!(call.content, "user-7");
    assert_eq!(call.timestamp, 42);
    let reply = user_reply("room-1", "user-7", "Hello!".to_string(), 43);
    assert_eq!(reply.sender, "user-7");
    assert_eq!(reply.room, "room-1");
    assert_eq!(reply.content, "Hello!");
    assert_eq!(reply.timestamp, 43);
}

#[test]
fn the_roster_records_rooms_and_users() {
    let mut roster = Roster::new();
    assert!(roster.room_names().is_empty());
    roster.add_user("nowhere", "u0".to_string());
    assert!(roster.room_names().is_empty());
    assert!(roster.users_of("nowhere").is_empty());

    roster.track("a".to_string());
    roster.track("b".to_string());
    roster.add_user("a", "u1".to_string());
    roster.add_user("a", "u2".to_string());
    roster.add_user("a", "u3".to_string());
    assert_eq!(roster.room_names(), vec!["a".to_string(), "b".to_string()]);
    assert_eq!(roster.rooms_with_users(), vec!["a".to_string()]);
    assert_eq!(roster.users_of("a"), vec!["u1".to_string(), "u2".to_string(), "u3".to_string()]);
    assert!(roster.users_of("b").is_empty());

    assert_eq!(roster.take_user("a", 1), Some("u2".to_string()));
    assert_eq!(roster.take_user("a", 2), None);
    assert_eq!(roster.take_user("b", 0), None);
    assert_eq!(roster.take_user("c", 0), None);
    assert_eq!(roster.users_of("a"), vec!["u1".to_string(), "u3".to_string()]);

    roster.add_user("b", "u4".to_string());
    assert_eq!(roster.rooms_with_users(), vec!["a".to_string(), "b".to_string()]);
    assert_eq!(roster.clear("a"), vec!["u1".to_string(), "u3".to_string()]);
    assert!(roster.clear("a").is_empty());
    assert!(roster.clear("c").is_empty());
    assert_eq!(roster.rooms_with_users(), vec!["b".to_string()]);

    roster.track("b".to_string());
    assert_eq!(roster.room_names(), vec!["a".to_string(), "b".to_string()]);
    assert!(roster.users_of("b").is_empty());

    roster.untrack("a");
    roster.untrack("zzz");
    assert_eq!(roster.room_names(), vec!["b".to_string()]);
}
