use chat_rooms::error::RoomError;
use chat_rooms::launch::rocket;
use chat_rooms::models::message::Message;
use chat_rooms::models::room::Room;
use chat_rooms::models::user::User;

fn user(id: u128, name: &str) -> User {
    User { id, username: name.to_string() }
}

fn ids(room: &Room) -> Vec<u128> {
    room.users.iter().map(|u| u.id).collect()
}

#[test]
fn a_new_room_is_empty_under_a_random_uuid() {
    let room = Room::new();
    assert!(room.users.is_empty());
    assert!(room.messages.is_empty());
    assert!(!room.is_user(1));
    assert!(!room.is_moderator(1));
    assert_eq!((room.id >> 76) & 0xf, 4);
    assert_eq!((room.id >> 62) & 0x3, 2);
    assert_ne!(Room::new().id, room.id);
}

#[test]
fn a_room_can_be_made_under_a_given_identifier() {
    let room = Room::with_id(42);
    assert_eq!(room.id, 42);
    assert!(room.users.is_empty());
    assert!(room.messages.is_empty());
}

#[test]
fn members_keep_the_order_in_which_they_came() {
    let mut room = Room::with_id(1);
    room.add_user(user(5, "e"));
    room.add_user(user(3, "c"));
    room.add_user(user(9, "i"));
    assert_eq!(ids(&room), vec![5, 3, 9]);
    assert!(room.is_user(3));
    assert!(room.is_user(5));
    assert!(room.is_user(9));
    assert!(!room.is_user(4));
    assert_eq!(room.users[1].username, "c");
}

#[test]
fn removing_takes_out_the_one_and_keeps_the_order() {
    let mut room = Room::with_id(1);
    for id in [5, 3, 9, 7] {
        room.add_user(user(id, "u"));
    }
    room.remove_user(3);
    assert_eq!(ids(&room), vec![5, 9, 7]);
    room.remove_user(3);
    assert_eq!(ids(&room), vec![5, 9, 7]);
    room.remove_user(7);
    assert_eq!(ids(&room), vec![5, 9]);
    room.remove_user(5);
    room.remove_user(9);
    assert!(room.users.is_empty());
    room.remove_user(9);
    assert!(room.users.is_empty());
}

#[test]
fn removing_takes_out_every_member_with_the_identifier() {
    // A room does not check who comes in; the manager does.
    let mut room = Room::with_id(1);
    room.add_user(user(2, "first"));
    room.add_user(user(4, "other"));
    room.add_user(user(2, "second"));
    room.remove_user(2);
    assert_eq!(ids(&room), vec![4]);
}

#[test]
fn moderation_is_granted_by_identifier_and_not_taken_back() {
    let mut room = Room::with_id(1);
    room.add_user(user(1, "ana"));
    room.add_user(user(2, "bruno"));
    assert!(!room.is_moderator(1));
    room.add_moderator(user(1, "ana"));
    assert!(room.is_moderator(1));
    assert!(!room.is_moderator(2));
    room.add_moderator(user(2, "bruno"));
    assert!(room.is_moderator(2));
    room.remove_user(1);
    assert!(!room.is_user(1));
    assert!(room.is_moderator(1));
}

#[test]
fn a_snapshot_has_everything_but_the_moderators() {
    let mut room = Room::with_id(8);
    room.add_user(user(1, "ana"));
    room.add_moderator(user(1, "ana"));
    room.messages.push(Message { sender: user(1, "ana"), content: "hi".to_string() });
    let copy = room.snapshot();
    assert_eq!(copy.id, 8);
    assert_eq!(ids(&copy), vec![1]);
    assert_eq!(copy.users[0].username, "ana");
    assert_eq!(copy.messages.len(), 1);
    assert_eq!(copy.messages[0].content, "hi");
    assert_eq!(copy.messages[0].sender.id, 1);
    assert!(!copy.is_moderator(1));
    assert!(room.is_moderator(1));
}

#[test]
fn users_are_equal_by_identifier() {
    assert_eq!(user(1, "ana"), user(1, "renamed"));
    assert_ne!(user(1, "ana"), user(2, "ana"));
}

#[test]
fn copies_of_users_and_messages_are_faithful() {
    let first = Message { sender: user(3, "carla"), content: "text".to_string() };
    let copy = first.clone();
    assert_eq!(copy.content, "text");
    assert_eq!(copy.sender.id, 3);
    assert_eq!(copy.sender.username, "carla");
}

#[test]
fn each_refusal_has_its_status() {
    assert_eq!(RoomError::PermissionDenied.status_code(), 403);
    assert_eq!(RoomError::RoomNotFound.status_code(), 404);
    assert_eq!(RoomError::UserNotFound.status_code(), 404);
    assert_eq!(RoomError::SenderNotMember.status_code(), 404);
    assert_eq!(RoomError::UserAlreadyMember.status_code(), 409);
}

#[test]
fn the_service_starts_without_rooms() {
    let launch = rocket();
    assert_eq!(launch.files_mount, "/");
    assert_eq!(launch.files_root, "public");
    assert_eq!(launch.room_mount, "/room");
    assert_eq!(launch.user_mount, "/user");
    assert_eq!(launch.room_manager.unheard(), 0);
    assert_eq!(launch.room_manager.get_room(0).unwrap_err(), RoomError::RoomNotFound);
}

#[test]
fn a_room_hands_out_what_it_holds() {
    let mut room = Room::with_id(8);
    room.add_user(user(5, "eva"));
    room.add_user(user(3, "carla"));
    room.messages.push(Message { sender: user(5, "eva"), content: "hi".to_string() });
    assert_eq!(room.id(), 8);
    let found: Vec<(u128, String)> =
        room.users().iter().map(|u| (u.id, u.username.clone())).collect();
    assert_eq!(found, vec![(5, "eva".to_string()), (3, "carla".to_string())]);
    assert_eq!(room.messages().len(), 1);
    assert_eq!(room.messages()[0].content, "hi");
    assert_eq!(room.messages()[0].sender.id, 5);
    assert!(Room::with_id(9).users().is_empty());
    assert!(Room::with_id(9).messages().is_empty());
}
