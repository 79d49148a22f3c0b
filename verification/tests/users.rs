use chat_rooms::managers::user_manager::{
    get_users, hash_or_none, hash_password, new_record, register_user, registration,
    user_of_record, users_from, UserRecord,
};

fn record(id: &str, username: &str) -> UserRecord {
    UserRecord { id: id.to_string(), username: username.to_string(), password: String::new() }
}

#[test]
fn a_record_holds_the_identifier_as_a_hyphenated_uuid() {
    let (user, record) = new_record(
        0x0123_4567_89ab_cdef_0123_4567_89ab_cdef,
        "ana".to_string(),
        "hash".to_string(),
    );
    assert_eq!(user.id, 0x0123_4567_89ab_cdef_0123_4567_89ab_cdef);
    assert_eq!(user.username, "ana");
    assert_eq!(record.id, "01234567-89ab-cdef-0123-456789abcdef");
    assert_eq!(record.username, "ana");
    assert_eq!(record.password, "hash");

    let (_, first) = new_record(1, "one".to_string(), String::new());
    assert_eq!(first.id, "00000000-0000-0000-0000-000000000001");
    let (_, last) = new_record(u128::MAX, "max".to_string(), String::new());
    assert_eq!(last.id, "ffffffff-ffff-ffff-ffff-ffffffffffff");
}

#[test]
fn a_record_reads_back_as_its_user() {
    let (user, record) = new_record(77, "bruno".to_string(), "hash".to_string());
    let read = user_of_record(&record).unwrap();
    assert_eq!(read.id, user.id);
    assert_eq!(read.username, "bruno");
}

#[test]
fn identifiers_are_read_in_the_forms_a_uuid_is_written_in() {
    let id = 0x67e5_5044_10b1_426f_9247_bb68_0e5f_e0c8;
    assert_eq!(user_of_record(&record("67e55044-10b1-426f-9247-bb680e5fe0c8", "a")).unwrap().id, id);
    assert_eq!(user_of_record(&record("67E55044-10B1-426F-9247-BB680E5FE0C8", "a")).unwrap().id, id);
    assert_eq!(user_of_record(&record("67e5504410b1426f9247bb680e5fe0c8", "a")).unwrap().id, id);
    assert_eq!(
        user_of_record(&record("urn:uuid:67e55044-10b1-426f-9247-bb680e5fe0c8", "a")).unwrap().id,
        id
    );
}

#[test]
fn what_is_no_uuid_is_no_user() {
    assert!(user_of_record(&record("", "a")).is_none());
    assert!(user_of_record(&record("not a uuid", "a")).is_none());
    assert!(user_of_record(&record("67e55044-10b1-426f-9247-bb680e5fe0c", "a")).is_none());
    assert!(user_of_record(&record("67e55044-10b1-426f-9247-bb680e5fe0cg", "a")).is_none());
    assert!(user_of_record(&record("1", "a")).is_none());
}

#[test]
fn stored_records_become_users_in_their_order() {
    let records = vec![
        record("00000000-0000-0000-0000-000000000003", "carla"),
        record("00000000-0000-0000-0000-000000000001", "ana"),
        record("00000000-0000-0000-0000-000000000001", "ana again"),
    ];
    let users = get_users(&records).unwrap();
    let found: Vec<(u128, String)> = users.into_iter().map(|u| (u.id, u.username)).collect();
    assert_eq!(
        found,
        vec![(3, "carla".to_string()), (1, "ana".to_string()), (1, "ana again".to_string())]
    );
    assert!(get_users(&Vec::new()).unwrap().is_empty());
}

#[test]
fn one_bad_record_spoils_the_reading() {
    let records = vec![
        record("00000000-0000-0000-0000-000000000003", "carla"),
        record("three", "nobody"),
        record("00000000-0000-0000-0000-000000000001", "ana"),
    ];
    assert!(get_users(&records).is_none());
}

#[test]
fn a_password_is_stored_as_its_bcrypt_hash() {
    let hash = hash_password(&"hunter2".to_string()).unwrap();
    assert_eq!(hash.chars().count(), 60);
    assert!(hash.starts_with("$2b$12$"));
    assert_ne!(hash, "hunter2");
    assert!(bcrypt::verify("hunter2", &hash).unwrap());
    assert!(!bcrypt::verify("hunter3", &hash).unwrap());
}

#[test]
fn a_registration_makes_a_user_and_its_record() {
    let (user, record) = register_user("ana".to_string(), "secret".to_string()).unwrap();
    assert_eq!(user.username, "ana");
    assert_eq!(record.username, "ana");
    // A random UUID: version 4, variant 10.
    assert_eq!((user.id >> 76) & 0xf, 4);
    assert_eq!((user.id >> 62) & 0x3, 2);
    assert_eq!(uuid::Uuid::parse_str(&record.id).unwrap().as_u128(), user.id);
    assert_eq!(record.id, uuid::Uuid::from_u128(user.id).to_string());
    assert_eq!(record.password.chars().count(), 60);
    assert!(bcrypt::verify("secret", &record.password).unwrap());

    let read = user_of_record(&record).unwrap();
    assert_eq!(read.id, user.id);
    assert_eq!(read.username, user.username);
}

#[test]
fn what_was_read_becomes_users_in_its_order() {
    let read = vec![
        (Some(9u128), "nine".to_string()),
        (Some(0u128), "zero".to_string()),
        (Some(u128::MAX), "max".to_string()),
    ];
    let users = users_from(read).unwrap();
    let found: Vec<(u128, String)> = users.into_iter().map(|u| (u.id, u.username)).collect();
    assert_eq!(
        found,
        vec![(9, "nine".to_string()), (0, "zero".to_string()), (u128::MAX, "max".to_string())]
    );
    assert!(users_from(Vec::new()).unwrap().is_empty());
}

#[test]
fn a_missing_identifier_leaves_no_users() {
    let read = vec![(Some(9u128), "nine".to_string()), (None, "none".to_string())];
    assert!(users_from(read).is_none());
    let only = vec![(None, "none".to_string())];
    assert!(users_from(only).is_none());
}

#[test]
fn a_registration_needs_a_hash() {
    assert!(registration(5, "ana".to_string(), None).is_none());
    let (user, record) = registration(5, "ana".to_string(), Some("h".to_string())).unwrap();
    assert_eq!(user.id, 5);
    assert_eq!(user.username, "ana");
    assert_eq!(record.id, "00000000-0000-0000-0000-000000000005");
    assert_eq!(record.username, "ana");
    assert_eq!(record.password, "h");
}

#[test]
fn an_error_of_bcrypt_leaves_no_hash() {
    assert_eq!(hash_or_none(Ok("made".to_string())), Some("made".to_string()));
    assert_eq!(hash_or_none(Ok(String::new())), Some(String::new()));
    assert_eq!(hash_or_none(Err(bcrypt::BcryptError::CostNotAllowed(3))), None);
    assert_eq!(hash_or_none(Err(bcrypt::BcryptError::Truncation(73))), None);
    assert_eq!(hash_or_none(Err(bcrypt::BcryptError::InvalidHash("no hash"))), None);
}
