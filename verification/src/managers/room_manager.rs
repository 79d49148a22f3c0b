//! The registry of rooms, and the one way in to them.
//!
//! Every request on a room goes through a [`RoomManager`]. The manager holds
//! each room beside the broadcast channel of that room, from the moment the
//! room is created for as long as the manager lives. It is an ordinary owned
//! value: a service that serves many requests at once puts it behind a lock
//! and hands every handler the lock. Under an exclusive lock each operation
//! here is one step, so what is proved of sequences of operations holds of
//! every interleaving of concurrent requests.

use vstd::prelude::*;
use vstd::arithmetic::power2::is_pow2;
use vstd::set_lib::lemma_len_subset;
use vstd::std_specs::hash::*;
use std::collections::HashMap;
use tokio::sync::broadcast::{Receiver, Sender};
use crate::channel::{
    capacity_of, listens_on, on_one_channel, open_channel, share, subscribe, CHANNEL_CAPACITY,
};
use crate::error::RoomError;
use crate::ids::random_id;
use crate::models::message::{Message, MessageView};
use crate::models::room::{Room, RoomView};
use crate::models::user::{User, UserView};

verus! {

broadcast use vstd::std_specs::hash::group_hash_axioms;

/// The rooms of a manager, by identifier, as the contracts see them.
pub type Rooms = Map<u128, RoomView>;

/// Every room is filed under its own identifier, and in no room do two
/// members share an identifier.
pub open spec fn rooms_wf(rooms: Rooms) -> bool {
    forall|id: u128| #[trigger]
        rooms.contains_key(id) ==> rooms[id].id == id && rooms[id].distinct_users()
}

/// The rooms after `creator` made a room that is filed under `id`.
pub open spec fn create_outcome(rooms: Rooms, id: u128, creator: UserView) -> Rooms {
    rooms.insert(id, RoomView::created(id, creator))
}

/// What becomes of the rooms when `user` asks to join the room `room_id`:
/// the rooms with `user` behind the members of that room, or the reason for
/// which the request is refused.
pub open spec fn join_outcome(rooms: Rooms, room_id: u128, user: UserView) -> Result<
    Rooms,
    RoomError,
> {
    if !rooms.contains_key(room_id) {
        Err(RoomError::RoomNotFound)
    } else if rooms[room_id].has_user(user.id) {
        Err(RoomError::UserAlreadyMember)
    } else {
        Ok(rooms.insert(room_id, rooms[room_id].with_user(user)))
    }
}

/// What a reader of the room `room_id` is given.
pub open spec fn snapshot_outcome(rooms: Rooms, room_id: u128) -> Result<RoomView, RoomError> {
    if !rooms.contains_key(room_id) {
        Err(RoomError::RoomNotFound)
    } else {
        Ok(rooms[room_id].snapshot())
    }
}

/// What becomes of the rooms when `message` is posted to the room `room_id`:
/// the rooms with `message` at the end of that room's history, or the reason
/// for which the message is refused.
pub open spec fn send_outcome(rooms: Rooms, message: MessageView, room_id: u128) -> Result<
    Rooms,
    RoomError,
> {
    if !rooms.contains_key(room_id) {
        Err(RoomError::RoomNotFound)
    } else if !rooms[room_id].has_user(message.sender.id) {
        Err(RoomError::SenderNotMember)
    } else {
        Ok(rooms.insert(room_id, rooms[room_id].with_message(message)))
    }
}

/// What becomes of the rooms when `actor` asks that `target` be taken out of
/// the room `room_id`: the rooms with `target` gone from that room, or the
/// reason for which the request is refused. That both are members is asked
/// before whether `actor` moderates.
pub open spec fn delete_outcome(rooms: Rooms, room_id: u128, actor: u128, target: u128) -> Result<
    Rooms,
    RoomError,
> {
    if !rooms.contains_key(room_id) {
        Err(RoomError::RoomNotFound)
    } else if !rooms[room_id].has_user(actor) || !rooms[room_id].has_user(target) {
        Err(RoomError::UserNotFound)
    } else if !rooms[room_id].has_moderator(actor) {
        Err(RoomError::PermissionDenied)
    } else {
        Ok(rooms.insert(room_id, rooms[room_id].without_user(target)))
    }
}

/// The `steps`-th identifier after `start`, going round from the last
/// identifier to the first.
pub open spec fn id_after(start: u128, steps: nat) -> u128 {
    ((start + steps) % (u128::MAX + 1)) as u128
}

/// Whether `id` is the first identifier that names no room of `rooms`, going
/// up from `start` and round from the last identifier to the first.
pub open spec fn is_first_unused(rooms: Rooms, start: u128, id: u128) -> bool {
    &&& !rooms.contains_key(id)
    &&& exists|steps: nat|
        {
            &&& #[trigger] id_after(start, steps) == id
            &&& forall|k: nat| k < steps ==> rooms.contains_key(#[trigger] id_after(start, k))
        }
}

/// The count of unheard messages after one more message was offered to
/// `offered` listeners: one up where nobody listened, and never beyond the
/// largest number that the count can hold.
pub open spec fn unheard_after(count: nat, offered: usize) -> nat {
    if offered == 0 && count < u64::MAX {
        count + 1
    } else {
        count
    }
}

/// Counts one more message that was offered to `offered` listeners.
pub fn count_unheard(count: u64, offered: usize) -> (counted: u64)
    ensures
        counted == unheard_after(count as nat, offered),
{
    if offered == 0 && count < u64::MAX {
        count + 1
    } else {
        count
    }
}

/// The registry of rooms.
pub struct RoomManager {
    rooms: HashMap<u128, Room>,
    senders: HashMap<u128, Sender<Message>>,
    unheard: u64,
}

impl View for RoomManager {
    type V = Rooms;

    closed spec fn view(&self) -> Rooms {
        Map::new(|id: u128| self.rooms@.contains_key(id), |id: u128| self.rooms@[id]@)
    }
}

impl RoomManager {
    /// Every room has its channel, no channel is without its room, and the
    /// ring of each channel is [`CHANNEL_CAPACITY`] messages long.
    pub closed spec fn channels_match(&self) -> bool {
        &&& self.rooms@.dom() == self.senders@.dom()
        &&& forall|id: u128| #[trigger]
            self.senders@.contains_key(id) ==> capacity_of(self.senders@[id]) == CHANNEL_CAPACITY
    }

    /// The handle that the manager keeps on the channel of the room
    /// `room_id`. It is made with the room and stays the same from then on.
    pub closed spec fn channel(&self, room_id: u128) -> Sender<Message> {
        self.senders@[room_id]
    }

    /// Every room that `before` knows has the same channel in `self`.
    pub open spec fn keeps_channels_of(&self, before: &RoomManager) -> bool {
        forall|id: u128| #[trigger]
            before@.contains_key(id) ==> self.channel(id) == before.channel(id)
    }

    /// A manager is well formed where each room has its channel and the
    /// rooms are well formed.
    pub open spec fn wf(&self) -> bool {
        &&& self.channels_match()
        &&& self@.dom().finite()
        &&& rooms_wf(self@)
    }

    /// How many messages were recorded while nobody listened to their room.
    pub closed spec fn unheard_count(&self) -> nat {
        self.unheard as nat
    }

    /// A manager without rooms.
    pub fn new() -> (manager: RoomManager)
        ensures
            manager.wf(),
            manager@ == Map::<u128, RoomView>::empty(),
            manager.unheard_count() == 0,
    {
        let manager = RoomManager { rooms: HashMap::new(), senders: HashMap::new(), unheard: 0 };
        assert(manager@ =~= Map::<u128, RoomView>::empty());
        assert(manager.rooms@.dom() =~= manager.senders@.dom());
        manager
    }

    /// The first identifier that names no room, going up from `start` and
    /// round from the last identifier to the first.
    fn unused_id(&self, start: u128) -> (id: u128)
        ensures
            is_first_unused(self@, start, id),
    {
        let mut id = start;
        let ghost mut steps: nat = 0;
        let ghost mut tried: Set<u128> = Set::empty();
        proof {
            axiom_hashmap_view_finite_dom(self.rooms);
            axiom_spec_hash_map_len(&self.rooms);
        }
        while self.rooms.contains_key(&id)
            invariant
                self.rooms@.dom().finite(),
                self.rooms@.dom().len() <= usize::MAX,
                tried.finite(),
                tried.len() == steps,
                tried.subset_of(self.rooms@.dom()),
                forall|x: u128|
                    tried.contains(x) ==> exists|k: nat| k < steps && x == #[trigger] id_after(
                        start,
                        k,
                    ),
                forall|k: nat| k < steps ==> self.rooms@.contains_key(#[trigger] id_after(start, k)),
                id == id_after(start, steps),
            decreases self.rooms@.dom().len() - steps,
        {
            proof {
                lemma_len_subset(tried, self.rooms@.dom());
                assert(!tried.contains(id)) by {
                    if tried.contains(id) {
                        let k = choose|k: nat| k < steps && id == #[trigger] id_after(start, k);
                        assert(id_after(start, k) != id_after(start, steps));
                    }
                }
                tried = tried.insert(id);
                steps = steps + 1;
                lemma_len_subset(tried, self.rooms@.dom());
            }
            id = if id == u128::MAX {
                0
            } else {
                id + 1
            };
        }
        id
    }

    /// Makes a room with `user` as its one member and its one moderator,
    /// opens the room's channel, files both, and returns the identifier of
    /// the room. The identifier is drawn at random; should it name a room
    /// already, the next one that names none is taken. No room that was there
    /// before is touched.
    pub fn create_room(&mut self, user: User) -> (id: u128)
        requires
            old(self).wf(),
        ensures
            final(self).wf(),
            !old(self)@.contains_key(id),
            final(self)@ == create_outcome(old(self)@, id, user@),
            final(self).keeps_channels_of(old(self)),
            final(self).unheard_count() == old(self).unheard_count(),
    {
        self.create_room_at(random_id(), user)
    }

    /// Makes a room as [`RoomManager::create_room`] does, under the
    /// identifier `wanted` where that names no room yet, and else under the
    /// first identifier after `wanted` that names none, going round from the
    /// last identifier to the first.
    pub fn create_room_at(&mut self, wanted: u128, user: User) -> (id: u128)
        requires
            old(self).wf(),
        ensures
            final(self).wf(),
            is_first_unused(old(self)@, wanted, id),
            final(self)@ == create_outcome(old(self)@, id, user@),
            final(self).keeps_channels_of(old(self)),
            final(self).unheard_count() == old(self).unheard_count(),
    {
        let id = self.unused_id(wanted);
        let mut room = Room::with_id(id);
        proof {
            RoomView::empty(id).lemma_with_user_distinct(user@);
        }
        room.add_user(user.clone());
        room.add_moderator(user);
        let tx = open_channel(CHANNEL_CAPACITY);
        proof {
            assert(is_pow2(CHANNEL_CAPACITY as int)) by {
                reveal_with_fuel(is_pow2, 5);
            }
        }
        self.senders.insert(id, tx);
        self.rooms.insert(id, room);
        proof {
            assert(self@ =~= create_outcome(old(self)@, id, user@));
            assert(self.rooms@.dom() =~= self.senders@.dom());
        }
        id
    }

    /// Lets `user` into the room `room_id`, behind those who are there.
    ///
    /// Refused with `RoomNotFound` where no such room is registered, and with
    /// `UserAlreadyMember` where a member has the identifier of `user`. A
    /// refused request changes nothing.
    pub fn join_room(&mut self, room_id: u128, user: User) -> (result: Result<(), RoomError>)
        requires
            old(self).wf(),
        ensures
            final(self).wf(),
            final(self).keeps_channels_of(old(self)),
            final(self).unheard_count() == old(self).unheard_count(),
            match join_outcome(old(self)@, room_id, user@) {
                Ok(rooms) => result is Ok && final(self)@ == rooms,
                Err(e) => result == Err::<(), RoomError>(e) && final(self)@ == old(self)@,
            },
            old(self)@.contains_key(room_id) && old(self)@[room_id].has_user(user.id) ==> {
                &&& result == Err::<(), RoomError>(RoomError::UserAlreadyMember)
                &&& final(self)@ == old(self)@
            },
    {
        match self.rooms.get(&room_id) {
            None => {
                return Err(RoomError::RoomNotFound);
            },
            Some(room) => {
                if room.is_user(user.id) {
                    return Err(RoomError::UserAlreadyMember);
                }
            },
        }
        let mut room = self.rooms.remove(&room_id).unwrap();
        room.add_user(user);
        self.rooms.insert(room_id, room);
        proof {
            assert(self@ =~= old(self)@.insert(room_id, old(self)@[room_id].with_user(user@)));
            assert(self.rooms@.dom() =~= self.senders@.dom());
        }
        Ok(())
    }

    /// A copy of the room `room_id` as it is now: its identifier, its members
    /// and its history. Who moderates the room is left out of the copy.
    ///
    /// Refused with `RoomNotFound` where no such room is registered.
    pub fn get_room(&self, room_id: u128) -> (result: Result<Room, RoomError>)
        requires
            self.wf(),
        ensures
            match snapshot_outcome(self@, room_id) {
                Ok(snapshot) => result matches Ok(room) && room@ == snapshot && room.wf(),
                Err(e) => result matches Err(refusal) && refusal == e,
            },
    {
        match self.rooms.get(&room_id) {
            Some(room) => Ok(room.snapshot()),
            None => Err(RoomError::RoomNotFound),
        }
    }

    /// Posts `message` to the room `room_id`: the message is put at the end
    /// of the room's history and then offered to those who listen to the
    /// room. That nobody listens is no failure; it is counted, and the
    /// message is in the history all the same.
    ///
    /// Refused with `RoomNotFound` where no such room is registered, and with
    /// `SenderNotMember` where the sender is not in the room. A refused
    /// message changes nothing.
    pub fn send_message(&mut self, message: Message, room_id: u128) -> (result: Result<
        (),
        RoomError,
    >)
        requires
            old(self).wf(),
        ensures
            final(self).wf(),
            final(self).keeps_channels_of(old(self)),
            match send_outcome(old(self)@, message@, room_id) {
                Ok(rooms) => {
                    &&& result is Ok
                    &&& final(self)@ == rooms
                    &&& exists|offered: usize|
                        final(self).unheard_count() == #[trigger] unheard_after(
                            old(self).unheard_count(),
                            offered,
                        )
                },
                Err(e) => {
                    &&& result == Err::<(), RoomError>(e)
                    &&& final(self)@ == old(self)@
                    &&& final(self).unheard_count() == old(self).unheard_count()
                },
            },
            old(self)@.contains_key(room_id) && !old(self)@[room_id].has_user(message.sender.id)
                ==> {
                &&& result == Err::<(), RoomError>(RoomError::SenderNotMember)
                &&& final(self)@ == old(self)@
            },
    {
        match self.rooms.get(&room_id) {
            None => {
                return Err(RoomError::RoomNotFound);
            },
            Some(room) => {
                if !room.is_user(message.sender.id) {
                    return Err(RoomError::SenderNotMember);
                }
            },
        }
        let tx = share(self.senders.get(&room_id).unwrap());
        let mut room = self.rooms.remove(&room_id).unwrap();
        let offered = room.add_message(message, tx);
        self.rooms.insert(room_id, room);
        self.unheard = count_unheard(self.unheard, offered);
        proof {
            assert(self.unheard_count() == unheard_after(old(self).unheard_count(), offered));
            assert(self@ =~= old(self)@.insert(
                room_id,
                old(self)@[room_id].with_message(message@),
            ));
            assert(self.rooms@.dom() =~= self.senders@.dom());
        }
        Ok(())
    }

    /// A handle on the channel of the room `room_id`, from which a listener
    /// can be made. Every handle that is given out for a room is on that
    /// room's one channel. The rooms stay as they are.
    ///
    /// Refused with `RoomNotFound` where no such room is registered.
    pub fn get_sender(&self, room_id: u128) -> (result: Result<Sender<Message>, RoomError>)
        requires
            self.wf(),
        ensures
            result is Ok <==> self@.contains_key(room_id),
            result matches Ok(handle) ==> {
                &&& on_one_channel(self.channel(room_id), handle)
                &&& capacity_of(handle) == CHANNEL_CAPACITY
            },
            result matches Err(e) ==> e == RoomError::RoomNotFound,
    {
        match self.senders.get(&room_id) {
            Some(tx) => Ok(share(tx)),
            None => Err(RoomError::RoomNotFound),
        }
    }

    /// A new listener on the channel of the room `room_id`. It is sent what
    /// is posted to the room from now on. The rooms stay as they are.
    ///
    /// Refused with `RoomNotFound` where no such room is registered.
    pub fn subscribe(&self, room_id: u128) -> (result: Result<Receiver<Message>, RoomError>)
        requires
            self.wf(),
        ensures
            result is Ok <==> self@.contains_key(room_id),
            result matches Ok(listener) ==> listens_on(listener, self.channel(room_id)),
            result matches Err(e) ==> e == RoomError::RoomNotFound,
    {
        match self.senders.get(&room_id) {
            Some(tx) => Ok(subscribe(tx)),
            None => Err(RoomError::RoomNotFound),
        }
    }

    /// Takes the member `user_to_delete_id` out of the room `room_id`, on
    /// the word of the moderator `user_id`. A moderation that was granted to
    /// the one who leaves stays on record.
    ///
    /// Refused with `RoomNotFound` where no such room is registered; with
    /// `UserNotFound` where either of the two is not in the room; with
    /// `PermissionDenied` where both are and `user_id` does not moderate. A
    /// refused request changes nothing.
    pub fn delete_user(&mut self, room_id: u128, user_id: u128, user_to_delete_id: u128) -> (result:
        Result<(), RoomError>)
        requires
            old(self).wf(),
        ensures
            final(self).wf(),
            final(self).keeps_channels_of(old(self)),
            final(self).unheard_count() == old(self).unheard_count(),
            match delete_outcome(old(self)@, room_id, user_id, user_to_delete_id) {
                Ok(rooms) => result is Ok && final(self)@ == rooms,
                Err(e) => result == Err::<(), RoomError>(e) && final(self)@ == old(self)@,
            },
            ({
                let room = old(self)@[room_id];
                &&& old(self)@.contains_key(room_id)
                &&& room.has_user(user_id)
                &&& room.has_user(user_to_delete_id)
                &&& !room.has_moderator(user_id)
            }) ==> {
                &&& result == Err::<(), RoomError>(RoomError::PermissionDenied)
                &&& final(self)@ == old(self)@
            },
    {
        match self.rooms.get(&room_id) {
            None => {
                return Err(RoomError::RoomNotFound);
            },
            Some(room) => {
                if !room.is_user(user_id) || !room.is_user(user_to_delete_id) {
                    return Err(RoomError::UserNotFound);
                }
                if !room.is_moderator(user_id) {
                    return Err(RoomError::PermissionDenied);
                }
            },
        }
        let mut room = self.rooms.remove(&room_id).unwrap();
        room.remove_user(user_to_delete_id);
        self.rooms.insert(room_id, room);
        proof {
            assert(self@ =~= old(self)@.insert(
                room_id,
                old(self)@[room_id].without_user(user_to_delete_id),
            ));
            assert(self.rooms@.dom() =~= self.senders@.dom());
        }
        Ok(())
    }

    /// How many messages were recorded while nobody listened to their room.
    /// The count stops at the largest number it can hold.
    pub fn unheard(&self) -> (count: u64)
        ensures
            count == self.unheard_count(),
    {
        self.unheard
    }
}

/// The rooms after each user of `users` asked in turn to join the room
/// `room_id`. A request that is refused leaves the rooms as they were.
pub open spec fn after_joins(rooms: Rooms, room_id: u128, users: Seq<UserView>) -> Rooms
    decreases users.len(),
{
    if users.len() == 0 {
        rooms
    } else {
        let before = after_joins(rooms, room_id, users.drop_last());
        match join_outcome(before, room_id, users.last()) {
            Ok(after) => after,
            Err(_) => before,
        }
    }
}

/// Whatever is asked of well-formed rooms, the rooms that come of it are
/// well formed: a room made under an unused identifier, a user let in, a
/// message posted, a member taken out.
pub proof fn lemma_outcomes_keep_rooms_wf(
    rooms: Rooms,
    room_id: u128,
    user: UserView,
    message: MessageView,
    actor: u128,
    target: u128,
)
    requires
        rooms_wf(rooms),
    ensures
        rooms_wf(create_outcome(rooms, room_id, user)),
        join_outcome(rooms, room_id, user) matches Ok(after) ==> rooms_wf(after),
        send_outcome(rooms, message, room_id) matches Ok(after) ==> rooms_wf(after),
        delete_outcome(rooms, room_id, actor, target) matches Ok(after) ==> rooms_wf(after),
{
    RoomView::empty(room_id).lemma_with_user_distinct(user);
    if join_outcome(rooms, room_id, user) is Ok {
        rooms[room_id].lemma_with_user_distinct(user);
    }
    if delete_outcome(rooms, room_id, actor, target) is Ok {
        rooms[room_id].lemma_without_user_distinct(target);
    }
}

/// A room that was made is there for a reader at once, with its creator as
/// its one member and nothing said in it; and every room that was there
/// before is as it was, the new room being filed under an identifier that
/// named none of them.
pub proof fn lemma_created_room_is_read_back(rooms: Rooms, id: u128, creator: UserView)
    requires
        !rooms.contains_key(id),
    ensures
        snapshot_outcome(create_outcome(rooms, id, creator), id) == Ok::<RoomView, RoomError>(
            RoomView {
                id,
                users: seq![creator],
                moderators: Set::empty(),
                messages: Seq::empty(),
            },
        ),
        create_outcome(rooms, id, creator)[id].has_moderator(creator.id),
        forall|other: u128| #[trigger]
            rooms.contains_key(other) ==> create_outcome(rooms, id, creator).contains_key(other)
                && create_outcome(rooms, id, creator)[other] == rooms[other],
{
    RoomView::lemma_created(id, creator);
    let snapshot = snapshot_outcome(create_outcome(rooms, id, creator), id)->Ok_0;
    assert(snapshot.users =~= seq![creator]);
    assert(snapshot =~= RoomView {
        id,
        users: seq![creator],
        moderators: Set::empty(),
        messages: Seq::empty(),
    });
}

/// However many users ask to join a room that was just created, one after
/// the other and some of them more than once, the room is there afterwards
/// and no two of its members share an identifier.
pub proof fn lemma_joins_keep_members_distinct(
    rooms: Rooms,
    room_id: u128,
    creator: UserView,
    users: Seq<UserView>,
)
    ensures
        after_joins(create_outcome(rooms, room_id, creator), room_id, users).contains_key(
            room_id,
        ),
        after_joins(create_outcome(rooms, room_id, creator), room_id, users)[room_id]
            .distinct_users(),
    decreases users.len(),
{
    let created = create_outcome(rooms, room_id, creator);
    if users.len() == 0 {
        RoomView::empty(room_id).lemma_with_user_distinct(creator);
    } else {
        lemma_joins_keep_members_distinct(rooms, room_id, creator, users.drop_last());
        let before = after_joins(created, room_id, users.drop_last());
        if join_outcome(before, room_id, users.last()) is Ok {
            before[room_id].lemma_with_user_distinct(users.last());
        }
    }
}

/// A user who was let into a room and asks again is refused as a member.
pub proof fn lemma_second_join_is_refused(rooms: Rooms, room_id: u128, user: UserView)
    ensures
        join_outcome(rooms, room_id, user) matches Ok(after) ==> join_outcome(
            after,
            room_id,
            user,
        ) == Err::<Rooms, RoomError>(RoomError::UserAlreadyMember),
{
    if join_outcome(rooms, room_id, user) is Ok {
        rooms[room_id].lemma_with_user_members(user, user.id);
    }
}

/// Two users with different identifiers who both ask to join a room are
/// both let in, whichever of them is served first, and either way the
/// room has the same members afterwards: nobody's joining is lost. What else
/// the room holds, and every other room, is the same either way too.
pub proof fn lemma_joins_in_either_order(rooms: Rooms, room_id: u128, a: UserView, b: UserView)
    requires
        rooms.contains_key(room_id),
        a.id != b.id,
        !rooms[room_id].has_user(a.id),
        !rooms[room_id].has_user(b.id),
    ensures
        join_outcome(rooms, room_id, a) matches Ok(with_a) && join_outcome(with_a, room_id, b)
            matches Ok(a_then_b) && join_outcome(rooms, room_id, b) matches Ok(with_b)
            && join_outcome(with_b, room_id, a) matches Ok(b_then_a) && {
            &&& a_then_b[room_id].has_user(a.id) && a_then_b[room_id].has_user(b.id)
            &&& forall|id: u128|
                a_then_b[room_id].has_user(id) <==> b_then_a[room_id].has_user(id)
            &&& a_then_b[room_id].users.to_set() == b_then_a[room_id].users.to_set()
            &&& a_then_b[room_id].users.len() == rooms[room_id].users.len() + 2
            &&& a_then_b.remove(room_id) == b_then_a.remove(room_id)
            &&& a_then_b[room_id].messages == b_then_a[room_id].messages
            &&& a_then_b[room_id].moderators == b_then_a[room_id].moderators
        },
{
    let room = rooms[room_id];
    room.lemma_with_user_members(a, b.id);
    room.lemma_with_user_members(b, a.id);
    let with_a = join_outcome(rooms, room_id, a)->Ok_0;
    let with_b = join_outcome(rooms, room_id, b)->Ok_0;
    let a_then_b = join_outcome(with_a, room_id, b)->Ok_0;
    let b_then_a = join_outcome(with_b, room_id, a)->Ok_0;
    assert forall|id: u128|
        a_then_b[room_id].has_user(id) <==> b_then_a[room_id].has_user(id) by {
        room.lemma_with_user_members(a, id);
        room.lemma_with_user_members(b, id);
        room.with_user(a).lemma_with_user_members(b, id);
        room.with_user(b).lemma_with_user_members(a, id);
    }
    room.with_user(a).lemma_with_user_members(b, a.id);
    room.with_user(a).lemma_with_user_members(b, b.id);
    let ab = a_then_b[room_id].users;
    let ba = b_then_a[room_id].users;
    let n = room.users.len() as int;
    assert forall|u: UserView| ab.to_set().contains(u) <==> ba.to_set().contains(u) by {
        if ab.contains(u) {
            let i = choose|i: int| 0 <= i < ab.len() && ab[i] == u;
            if i < n {
                assert(ba[i] == u);
            } else if i == n {
                assert(ba[n + 1] == u);
            } else {
                assert(ba[n] == u);
            }
        }
        if ba.contains(u) {
            let i = choose|i: int| 0 <= i < ba.len() && ba[i] == u;
            if i < n {
                assert(ab[i] == u);
            } else if i == n {
                assert(ab[n + 1] == u);
            } else {
                assert(ab[n] == u);
            }
        }
    }
    assert(ab.to_set() =~= ba.to_set());
    assert(a_then_b.remove(room_id) =~= b_then_a.remove(room_id));
}

/// In a room that is registered, a message from somebody who is not a member
/// is refused because its sender is not one.
pub proof fn lemma_stranger_cannot_post(rooms: Rooms, message: MessageView, room_id: u128)
    requires
        rooms.contains_key(room_id),
        !rooms[room_id].has_user(message.sender.id),
    ensures
        send_outcome(rooms, message, room_id) == Err::<Rooms, RoomError>(
            RoomError::SenderNotMember,
        ),
{
}

/// In a room that is registered, a member who does not moderate cannot take
/// a member out: the request is refused for want of permission.
pub proof fn lemma_only_moderators_remove(rooms: Rooms, room_id: u128, actor: u128, target: u128)
    requires
        rooms.contains_key(room_id),
        rooms[room_id].has_user(actor),
        rooms[room_id].has_user(target),
        !rooms[room_id].has_moderator(actor),
    ensures
        delete_outcome(rooms, room_id, actor, target) == Err::<Rooms, RoomError>(
            RoomError::PermissionDenied,
        ),
{
}

/// A member who was taken out of a room is no member any more, everybody
/// else in the room still is, and a message from the one who left is refused
/// from then on.
pub proof fn lemma_removed_member_is_gone(
    rooms: Rooms,
    room_id: u128,
    actor: u128,
    target: u128,
    message: MessageView,
)
    requires
        message.sender.id == target,
    ensures
        delete_outcome(rooms, room_id, actor, target) matches Ok(after) ==> {
            &&& !after[room_id].has_user(target)
            &&& forall|id: u128|
                id != target ==> (after[room_id].has_user(id) <==> rooms[room_id].has_user(id))
            &&& send_outcome(after, message, room_id) == Err::<Rooms, RoomError>(
                RoomError::SenderNotMember,
            )
        },
{
    if delete_outcome(rooms, room_id, actor, target) is Ok {
        let room = rooms[room_id];
        room.lemma_without_user_members(target, target);
        assert forall|id: u128| id != target implies (room.without_user(target).has_user(id)
            <==> room.has_user(id)) by {
            room.lemma_without_user_members(target, id);
        }
    }
}

/// A message that was posted is the last of the history that a reader of the
/// room is given from then on, behind what the history held before.
pub proof fn lemma_posted_message_is_read_back(rooms: Rooms, message: MessageView, room_id: u128)
    ensures
        send_outcome(rooms, message, room_id) matches Ok(after) ==> snapshot_outcome(
            after,
            room_id,
        ) matches Ok(snapshot) && snapshot.messages == rooms[room_id].messages.push(message),
{
}

/// No request takes anything out of a history or changes what is in it:
/// after a request that was granted, each room's history begins with what it
/// held before.
pub proof fn lemma_history_only_grows(
    rooms: Rooms,
    room_id: u128,
    user: UserView,
    message: MessageView,
    actor: u128,
    target: u128,
    other: u128,
)
    requires
        rooms.contains_key(other),
    ensures
        join_outcome(rooms, room_id, user) matches Ok(after) ==> after.contains_key(other)
            && rooms[other].messages.is_prefix_of(after[other].messages),
        send_outcome(rooms, message, room_id) matches Ok(after) ==> after.contains_key(other)
            && rooms[other].messages.is_prefix_of(after[other].messages),
        delete_outcome(rooms, room_id, actor, target) matches Ok(after) ==> after.contains_key(
            other,
        ) && rooms[other].messages.is_prefix_of(after[other].messages),
{
}

/// A reader is never shown who moderates a room.
pub proof fn lemma_snapshot_names_no_moderator(rooms: Rooms, room_id: u128, id: u128)
    ensures
        snapshot_outcome(rooms, room_id) matches Ok(snapshot) ==> !snapshot.has_moderator(id),
{
}

/// No two identifiers are both the first unused one.
pub proof fn lemma_first_unused_is_one(rooms: Rooms, start: u128, a: u128, b: u128)
    requires
        is_first_unused(rooms, start, a),
        is_first_unused(rooms, start, b),
    ensures
        a == b,
{
    let i = choose|steps: nat|
        {
            &&& #[trigger] id_after(start, steps) == a
            &&& forall|k: nat| k < steps ==> rooms.contains_key(#[trigger] id_after(start, k))
        };
    let j = choose|steps: nat|
        {
            &&& #[trigger] id_after(start, steps) == b
            &&& forall|k: nat| k < steps ==> rooms.contains_key(#[trigger] id_after(start, k))
        };
    if i < j {
        assert(rooms.contains_key(id_after(start, i)));
    } else if j < i {
        assert(rooms.contains_key(id_after(start, j)));
    }
}

} // verus!
