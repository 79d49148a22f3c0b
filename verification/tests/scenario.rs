use chat_rooms::error::RoomError;
use chat_rooms::managers::room_manager::RoomManager;
use chat_rooms::models::message::Message;
use chat_rooms::models::user::User;
use chat_rooms::stream::stream_messages;
use tokio::sync::broadcast::error::TryRecvError;

fn user(id: u128, name: &str) -> User {
    User { id, username: name.to_string() }
}

fn message(sender: &User, content: &str) -> Message {
    Message { sender: sender.clone(), content: content.to_string() }
}

fn member_ids(manager: &RoomManager, room: u128) -> Vec<u128> {
    manager.get_room(room).unwrap().users.iter().map(|u| u.id).collect()
}

fn history(manager: &RoomManager, room: u128) -> Vec<String> {
    manager.get_room(room).unwrap().messages.iter().map(|m| m.content.clone()).collect()
}

#[test]
fn create_join_post_remove() {
    let a = user(1, "ana");
    let b = user(2, "bruno");
    let mut manager = RoomManager::new();

    let room = manager.create_room(a.clone());
    let snapshot = manager.get_room(room).unwrap();
    assert_eq!(snapshot.id, room);
    assert_eq!(snapshot.users.len(), 1);
    assert_eq!(snapshot.users[0].id, 1);
    assert_eq!(snapshot.users[0].username, "ana");
    assert!(snapshot.messages.is_empty());

    assert_eq!(manager.join_room(room, b.clone()), Ok(()));
    assert_eq!(member_ids(&manager, room), vec![1, 2]);

    let (_session, mut listener) = stream_messages(&manager, room).unwrap();
    assert_eq!(manager.send_message(message(&a, "m1"), room), Ok(()));
    assert_eq!(history(&manager, room), vec!["m1".to_string()]);
    let seen = listener.try_recv().unwrap();
    assert_eq!(seen.content, "m1");
    assert_eq!(seen.sender.id, 1);
    assert_eq!(seen.sender.username, "ana");
    assert_eq!(listener.try_recv().unwrap_err(), TryRecvError::Empty);

    // A moderates the room it created: it may take B out.
    assert_eq!(manager.delete_user(room, 1, 2), Ok(()));
    assert_eq!(member_ids(&manager, room), vec![1]);

    assert_eq!(manager.send_message(message(&b, "m2"), room), Err(RoomError::SenderNotMember));
    assert_eq!(history(&manager, room), vec!["m1".to_string()]);
    assert_eq!(listener.try_recv().unwrap_err(), TryRecvError::Empty);
}

#[test]
fn creator_is_the_only_moderator() {
    let mut manager = RoomManager::new();
    let room = manager.create_room(user(1, "ana"));
    manager.join_room(room, user(2, "bruno")).unwrap();
    manager.join_room(room, user(3, "carla")).unwrap();
    assert_eq!(manager.delete_user(room, 2, 3), Err(RoomError::PermissionDenied));
    assert_eq!(manager.delete_user(room, 3, 2), Err(RoomError::PermissionDenied));
    assert_eq!(manager.delete_user(room, 1, 3), Ok(()));
    assert_eq!(member_ids(&manager, room), vec![1, 2]);
}

#[test]
fn joining_twice_is_refused_and_changes_nothing() {
    let mut manager = RoomManager::new();
    let room = manager.create_room(user(1, "ana"));
    assert_eq!(manager.join_room(room, user(2, "bruno")), Ok(()));
    assert_eq!(manager.join_room(room, user(2, "bruno")), Err(RoomError::UserAlreadyMember));
    // The identifier decides, not the name.
    assert_eq!(manager.join_room(room, user(2, "somebody else")), Err(RoomError::UserAlreadyMember));
    assert_eq!(manager.join_room(room, user(1, "ana")), Err(RoomError::UserAlreadyMember));
    let snapshot = manager.get_room(room).unwrap();
    assert_eq!(snapshot.users.len(), 2);
    assert_eq!(snapshot.users[0].id, 1);
    assert_eq!(snapshot.users[1].id, 2);
    assert_eq!(snapshot.users[1].username, "bruno");
}

#[test]
fn many_joins_leave_no_identifier_twice() {
    let mut manager = RoomManager::new();
    let room = manager.create_room(user(0, "u0"));
    let asked: [u128; 12] = [3, 1, 3, 0, 2, 1, 7, 7, 3, 5, 0, 2];
    for id in asked {
        let _ = manager.join_room(room, user(id, "u"));
    }
    assert_eq!(member_ids(&manager, room), vec![0, 3, 1, 2, 7, 5]);
}

#[test]
fn two_joins_in_either_order_keep_both() {
    let mut first = RoomManager::new();
    let room_one = first.create_room(user(1, "ana"));
    assert_eq!(first.join_room(room_one, user(2, "bruno")), Ok(()));
    assert_eq!(first.join_room(room_one, user(3, "carla")), Ok(()));

    let mut second = RoomManager::new();
    let room_two = second.create_room(user(1, "ana"));
    assert_eq!(second.join_room(room_two, user(3, "carla")), Ok(()));
    assert_eq!(second.join_room(room_two, user(2, "bruno")), Ok(()));

    let mut one = member_ids(&first, room_one);
    let mut two = member_ids(&second, room_two);
    assert_eq!(one, vec![1, 2, 3]);
    assert_eq!(two, vec![1, 3, 2]);
    one.sort();
    two.sort();
    assert_eq!(one, two);
}

#[test]
fn a_stranger_cannot_post() {
    let a = user(1, "ana");
    let stranger = user(9, "nobody");
    let mut manager = RoomManager::new();
    let room = manager.create_room(a.clone());
    manager.send_message(message(&a, "hello"), room).unwrap();
    assert_eq!(
        manager.send_message(message(&stranger, "let me in"), room),
        Err(RoomError::SenderNotMember)
    );
    assert_eq!(history(&manager, room), vec!["hello".to_string()]);
    assert_eq!(member_ids(&manager, room), vec![1]);
}

#[test]
fn a_member_who_does_not_moderate_cannot_remove() {
    let mut manager = RoomManager::new();
    let room = manager.create_room(user(1, "ana"));
    manager.join_room(room, user(2, "bruno")).unwrap();
    assert_eq!(manager.delete_user(room, 2, 1), Err(RoomError::PermissionDenied));
    assert_eq!(manager.delete_user(room, 2, 2), Err(RoomError::PermissionDenied));
    assert_eq!(member_ids(&manager, room), vec![1, 2]);
}

#[test]
fn membership_is_asked_before_permission() {
    let mut manager = RoomManager::new();
    let room = manager.create_room(user(1, "ana"));
    manager.join_room(room, user(2, "bruno")).unwrap();
    // The actor is no member: not found, although it does not moderate either.
    assert_eq!(manager.delete_user(room, 9, 2), Err(RoomError::UserNotFound));
    // The target is no member.
    assert_eq!(manager.delete_user(room, 1, 9), Err(RoomError::UserNotFound));
    assert_eq!(manager.delete_user(room, 2, 9), Err(RoomError::UserNotFound));
    assert_eq!(manager.delete_user(room, 8, 9), Err(RoomError::UserNotFound));
    assert_eq!(member_ids(&manager, room), vec![1, 2]);
}

#[test]
fn an_unknown_room_is_not_found() {
    let a = user(1, "ana");
    let mut manager = RoomManager::new();
    let room = manager.create_room(a.clone());
    let other = room ^ 1;
    assert_eq!(manager.join_room(other, user(2, "bruno")), Err(RoomError::RoomNotFound));
    assert_eq!(manager.send_message(message(&a, "hi"), other), Err(RoomError::RoomNotFound));
    assert_eq!(manager.delete_user(other, 1, 1), Err(RoomError::RoomNotFound));
    assert_eq!(manager.get_room(other).unwrap_err(), RoomError::RoomNotFound);
    assert_eq!(manager.get_sender(other).unwrap_err(), RoomError::RoomNotFound);
    assert_eq!(stream_messages(&manager, other).unwrap_err(), RoomError::RoomNotFound);
    assert!(manager.get_sender(room).is_ok());
    assert_eq!(member_ids(&manager, room), vec![1]);
    assert!(history(&manager, room).is_empty());
}

#[test]
fn an_empty_manager_knows_no_room() {
    let mut manager = RoomManager::new();
    assert_eq!(manager.get_room(0).unwrap_err(), RoomError::RoomNotFound);
    assert_eq!(manager.join_room(0, user(1, "ana")), Err(RoomError::RoomNotFound));
    assert_eq!(manager.unheard(), 0);
}

#[test]
fn a_moderation_outlives_the_membership() {
    let a = user(1, "ana");
    let mut manager = RoomManager::new();
    let room = manager.create_room(a.clone());
    manager.join_room(room, user(2, "bruno")).unwrap();
    // A takes itself out of the room.
    assert_eq!(manager.delete_user(room, 1, 1), Ok(()));
    assert_eq!(member_ids(&manager, room), vec![2]);
    // Out of the room, A is not found, moderator on record or not.
    assert_eq!(manager.delete_user(room, 1, 2), Err(RoomError::UserNotFound));
    // Back in the room, A moderates again.
    assert_eq!(manager.join_room(room, a), Ok(()));
    assert_eq!(member_ids(&manager, room), vec![2, 1]);
    assert_eq!(manager.delete_user(room, 1, 2), Ok(()));
    assert_eq!(member_ids(&manager, room), vec![1]);
}

#[test]
fn rooms_do_not_touch_each_other() {
    let a = user(1, "ana");
    let b = user(2, "bruno");
    let mut manager = RoomManager::new();
    let first = manager.create_room(a.clone());
    let second = manager.create_room(b.clone());
    assert_ne!(first, second);
    manager.join_room(first, user(3, "carla")).unwrap();
    manager.send_message(message(&b, "in the second"), second).unwrap();
    assert_eq!(manager.send_message(message(&b, "in the first"), first), Err(RoomError::SenderNotMember));
    assert_eq!(member_ids(&manager, first), vec![1, 3]);
    assert_eq!(member_ids(&manager, second), vec![2]);
    assert!(history(&manager, first).is_empty());
    assert_eq!(history(&manager, second), vec!["in the second".to_string()]);
}

#[test]
fn every_room_gets_its_own_identifier() {
    let mut manager = RoomManager::new();
    let mut seen: Vec<u128> = Vec::new();
    for n in 0..200u128 {
        let room = manager.create_room(user(n, "u"));
        assert!(!seen.contains(&room));
        seen.push(room);
    }
    for (n, room) in seen.iter().enumerate() {
        assert_eq!(member_ids(&manager, *room), vec![n as u128]);
    }
}

#[test]
fn a_snapshot_is_a_copy() {
    let a = user(1, "ana");
    let mut manager = RoomManager::new();
    let room = manager.create_room(a.clone());
    let mut before = manager.get_room(room).unwrap();
    manager.join_room(room, user(2, "bruno")).unwrap();
    manager.send_message(message(&a, "later"), room).unwrap();
    assert_eq!(before.users.len(), 1);
    assert!(before.messages.is_empty());
    before.users.clear();
    assert_eq!(member_ids(&manager, room), vec![1, 2]);
}

#[test]
fn a_snapshot_names_no_moderator() {
    let mut manager = RoomManager::new();
    let room = manager.create_room(user(1, "ana"));
    let snapshot = manager.get_room(room).unwrap();
    assert!(snapshot.is_user(1));
    assert!(!snapshot.is_moderator(1));
}

#[test]
fn a_room_is_made_under_the_wanted_identifier_where_it_is_free() {
    let mut manager = RoomManager::new();
    assert_eq!(manager.create_room_at(40, user(1, "ana")), 40);
    assert_eq!(member_ids(&manager, 40), vec![1]);
    assert_eq!(manager.get_room(40).unwrap().id, 40);
}

#[test]
fn a_taken_identifier_gives_way_to_the_next_free_one() {
    let mut manager = RoomManager::new();
    assert_eq!(manager.create_room_at(40, user(1, "ana")), 40);
    assert_eq!(manager.create_room_at(40, user(2, "bruno")), 41);
    assert_eq!(manager.create_room_at(42, user(3, "carla")), 42);
    assert_eq!(manager.create_room_at(40, user(4, "dora")), 43);
    assert_eq!(manager.create_room_at(41, user(5, "eva")), 44);
    // Nobody was put into somebody else's room.
    assert_eq!(member_ids(&manager, 40), vec![1]);
    assert_eq!(member_ids(&manager, 41), vec![2]);
    assert_eq!(member_ids(&manager, 42), vec![3]);
    assert_eq!(member_ids(&manager, 43), vec![4]);
    assert_eq!(member_ids(&manager, 44), vec![5]);
    assert_eq!(manager.get_room(43).unwrap().id, 43);
}

#[test]
fn the_search_for_a_free_identifier_goes_round() {
    let mut manager = RoomManager::new();
    assert_eq!(manager.create_room_at(u128::MAX, user(1, "ana")), u128::MAX);
    assert_eq!(manager.create_room_at(u128::MAX, user(2, "bruno")), 0);
    assert_eq!(manager.create_room_at(u128::MAX, user(3, "carla")), 1);
    assert_eq!(manager.create_room_at(u128::MAX - 1, user(4, "dora")), u128::MAX - 1);
    assert_eq!(manager.create_room_at(u128::MAX - 1, user(5, "eva")), 2);
    assert_eq!(member_ids(&manager, u128::MAX), vec![1]);
    assert_eq!(member_ids(&manager, 0), vec![2]);
    assert_eq!(member_ids(&manager, 2), vec![5]);
}

#[test]
fn a_room_made_on_a_taken_identifier_has_its_own_channel() {
    let a = user(1, "ana");
    let b = user(2, "bruno");
    let mut manager = RoomManager::new();
    let first = manager.create_room_at(7, a.clone());
    let (_, mut on_first) = stream_messages(&manager, first).unwrap();
    manager.send_message(message(&a, "kept"), first).unwrap();
    let second = manager.create_room_at(7, b.clone());
    assert_eq!(second, 8);
    manager.send_message(message(&b, "elsewhere"), second).unwrap();
    assert_eq!(history(&manager, first), vec!["kept".to_string()]);
    assert_eq!(on_first.try_recv().unwrap().content, "kept");
    assert_eq!(on_first.try_recv().unwrap_err(), TryRecvError::Empty);
}
