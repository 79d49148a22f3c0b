//! The records of the user store.
//!
//! The store keeps one record for each registered user: the user's
//! identifier as text, the name, and the bcrypt hash of the password. Reading
//! and writing the store is the caller's work. Here a registration is turned
//! into the record to be written, and records that were read are turned back
//! into users.

use vstd::prelude::*;
use crate::ids::{is_random_uuid, random_id, read_id, text_of_uuid, uuid_of_text, write_id};
use crate::models::user::{user_views, User, UserView};

verus! {

/// Why bcrypt made no hash.
#[verifier::external_type_specification]
#[verifier::external_body]
pub struct ExBcryptError(bcrypt::BcryptError);

/// A record of the user store as the contracts see it.
pub struct UserRecordView {
    pub id: Seq<char>,
    pub username: Seq<char>,
    pub password: Seq<char>,
}

impl UserRecordView {
    /// The record under which `user` is stored with the password hash
    /// `password`.
    pub open spec fn of(user: UserView, password: Seq<char>) -> UserRecordView {
        UserRecordView { id: text_of_uuid(user.id), username: user.username, password }
    }

    /// The user that the record stands for; none where the identifier in it
    /// is no UUID.
    pub open spec fn user(self) -> Option<UserView> {
        match uuid_of_text(self.id) {
            Some(id) => Some(UserView { id, username: self.username }),
            None => None,
        }
    }
}

/// One record of the user store.
#[derive(Debug)]
pub struct UserRecord {
    /// The user's identifier, written as a UUID.
    pub id: String,
    pub username: String,
    /// The bcrypt hash of the user's password.
    pub password: String,
}

impl View for UserRecord {
    type V = UserRecordView;

    open spec fn view(&self) -> UserRecordView {
        UserRecordView { id: self.id@, username: self.username@, password: self.password@ }
    }
}

/// What was read from one record: the identifier, where the text in the
/// record is a UUID, and the name.
pub type ReadRecord = (Option<u128>, Seq<char>);

/// What is read from each of `records`, in their order.
pub open spec fn read_of(records: Seq<UserRecordView>) -> Seq<ReadRecord> {
    records.map_values(|r: UserRecordView| (uuid_of_text(r.id), r.username))
}

/// The users that were read, in the order of `read`; none where an
/// identifier is missing.
pub open spec fn users_with(read: Seq<ReadRecord>) -> Option<Seq<UserView>> {
    if forall|i: int| 0 <= i < read.len() ==> (#[trigger] read[i]).0 is Some {
        Some(read.map_values(|r: ReadRecord| UserView { id: r.0->0, username: r.1 }))
    } else {
        None
    }
}

/// The users that `records` stand for, in the order of the records; none
/// where the identifier in one of them is no UUID.
pub open spec fn users_of(records: Seq<UserRecordView>) -> Option<Seq<UserView>> {
    users_with(read_of(records))
}

/// What was read from the records of a list, as the contracts see it.
pub open spec fn read_views(read: Seq<(Option<u128>, String)>) -> Seq<ReadRecord> {
    read.map_values(|r: (Option<u128>, String)| (r.0, r.1@))
}

/// The records of a list as the contracts see them.
pub open spec fn record_views(records: Seq<UserRecord>) -> Seq<UserRecordView> {
    records.map_values(|r: UserRecord| r@)
}

/// Hashes `password` with `bcrypt::hash` at bcrypt's default cost, under a
/// salt that bcrypt draws at random.
///
/// Trusted: a hash that is made is 60 characters long. It differs from call
/// to call, and none is made where the operating system has no random bytes
/// to give.
#[verifier::external_body]
fn bcrypt_hash(password: &str) -> (hashed: Result<String, bcrypt::BcryptError>)
    ensures
        hashed matches Ok(hash) ==> hash@.len() == 60,
{
    bcrypt::hash(password, bcrypt::DEFAULT_COST)
}

/// The bcrypt hash of `password`, salted at random; none where bcrypt fails.
pub fn hash_password(password: &String) -> (hashed: Option<String>)
    ensures
        hashed matches Some(hash) ==> hash@.len() == 60,
{
    // Whether a hash is made is for bcrypt to say, and with it for the
    // operating system, which gives the salt: no input decides it.
    let outcome = bcrypt_hash(password.as_str());
    hash_or_none(outcome)
}

/// The user `id` with the name `username`, and the record under which the
/// user is stored with the password hash `password`. The record reads back
/// as that user.
pub fn new_record(id: u128, username: String, password: String) -> (made: (User, UserRecord))
    ensures
        made.0@ == (UserView { id, username: username@ }),
        made.1@ == UserRecordView::of(made.0@, password@),
        made.1@.user() == Some(made.0@),
{
    let record = UserRecord { id: write_id(id), username: username.clone(), password };
    (User { id, username }, record)
}

/// The registration of `username` under the identifier `id`, once the
/// password was hashed: the user and the record to be stored where there is
/// a hash, and nothing where there is none.
pub fn registration(id: u128, username: String, hashed: Option<String>) -> (registered: Option<
    (User, UserRecord),
>)
    ensures
        match hashed {
            Some(hash) => registered matches Some(made) && {
                &&& made.0@ == (UserView { id, username: username@ })
                &&& made.1@ == UserRecordView::of(made.0@, hash@)
                &&& made.1@.user() == Some(made.0@)
            },
            None => registered is None,
        },
{
    match hashed {
        Some(hash) => Some(new_record(id, username, hash)),
        None => None,
    }
}

/// Registers a user: hashes `password`, draws an identifier for `username`,
/// and returns the new user with the record that is to be stored. None where
/// the password could not be hashed; then nothing is to be stored.
///
/// The record reads back as the user that is returned beside it.
pub fn register_user(username: String, password: String) -> (registered: Option<
    (User, UserRecord),
>)
    ensures
        registered matches Some(made) ==> {
            &&& made.0@.username == username@
            &&& is_random_uuid(made.0@.id)
            &&& made.1@ == UserRecordView::of(made.0@, made.1@.password)
            &&& made.1@.password.len() == 60
            &&& made.1@.user() == Some(made.0@)
        },
{
    let hashed = hash_password(&password);
    registration(random_id(), username, hashed)
}

/// What becomes of bcrypt's answer: the hash where it made one, and nothing
/// where it gave an error, whichever error that is.
pub fn hash_or_none(outcome: Result<String, bcrypt::BcryptError>) -> (hashed: Option<String>)
    ensures
        match outcome {
            Ok(hash) => hashed == Some(hash),
            Err(_) => hashed is None,
        },
{
    match outcome {
        Ok(hash) => Some(hash),
        Err(_) => None,
    }
}

/// The identifier in `text`, where `text` is a UUID.
fn read_identifier(text: &str) -> (id: Option<u128>)
    ensures
        id == uuid_of_text(text@),
{
    match read_id(text) {
        Ok(id) => Some(id),
        Err(_) => None,
    }
}

/// The user that `record` stands for; none where the identifier in it is no
/// UUID.
pub fn user_of_record(record: &UserRecord) -> (user: Option<User>)
    ensures
        match record@.user() {
            Some(expected) => user matches Some(found) && found@ == expected,
            None => user is None,
        },
{
    match read_identifier(record.id.as_str()) {
        Some(id) => Some(User { id, username: record.username.clone() }),
        None => None,
    }
}

/// Reads the identifier of each record, and keeps the name beside it.
fn read_records(records: &Vec<UserRecord>) -> (read: Vec<(Option<u128>, String)>)
    ensures
        read_views(read@) == read_of(record_views(records@)),
{
    let mut read: Vec<(Option<u128>, String)> = Vec::new();
    let mut i: usize = 0;
    while i < records.len()
        invariant
            i <= records@.len(),
            read@.len() == i,
            forall|j: int|
                0 <= j < i ==> (#[trigger] read@[j]).0 == uuid_of_text(records@[j].id@)
                    && read@[j].1@ == records@[j].username@,
        decreases records@.len() - i,
    {
        let id = read_identifier(records[i].id.as_str());
        read.push((id, records[i].username.clone()));
        i += 1;
    }
    assert(read_views(read@) =~= read_of(record_views(records@)));
    read
}

/// The users that were read, in the order of `read`: each with the
/// identifier and the name that stand together. None where an identifier is
/// missing.
pub fn users_from(read: Vec<(Option<u128>, String)>) -> (users: Option<Vec<User>>)
    ensures
        match users_with(read_views(read@)) {
            Some(expected) => users matches Some(found) && user_views(found@) == expected,
            None => users is None,
        },
{
    let ghost views = read_views(read@);
    let mut users: Vec<User> = Vec::new();
    let mut i: usize = 0;
    while i < read.len()
        invariant
            i <= read@.len(),
            views == read_views(read@),
            users@.len() == i,
            forall|j: int|
                0 <= j < i ==> (#[trigger] views[j]).0 == Some(users@[j].id) && users@[j].username@
                    == views[j].1,
        decreases read@.len() - i,
    {
        match read[i].0 {
            Some(id) => {
                users.push(User { id, username: read[i].1.clone() });
            },
            None => {
                assert(views[i as int].0 is None);
                return None;
            },
        }
        i += 1;
    }
    proof {
        assert forall|j: int| 0 <= j < views.len() implies (#[trigger] views[j]).0 is Some by {
            assert(views[j].0 == Some(users@[j].id));
        }
        assert(user_views(users@) =~= users_with(views)->0);
    }
    Some(users)
}

/// The users that `records` stand for, in the order of the records; none
/// where the identifier in one of the records is no UUID.
pub fn get_users(records: &Vec<UserRecord>) -> (users: Option<Vec<User>>)
    ensures
        match users_of(record_views(records@)) {
            Some(expected) => users matches Some(found) && user_views(found@) == expected,
            None => users is None,
        },
{
    users_from(read_records(records))
}

} // verus!
