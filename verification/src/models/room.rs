//! One chat room: who is in it, who moderates it, and what was said.
//!
//! A room does no checking of its own. The room manager decides what is
//! allowed and then calls the primitives here.

use vstd::prelude::*;
use tokio::sync::broadcast::Sender;
use crate::channel::{listeners_reached, publish};
use crate::ids::{is_random_uuid, random_id};
use crate::models::message::{message_views, Message, MessageView};
use crate::models::user::{user_views, User, UserView};

verus! {

/// A room as the contracts see it.
#[verifier::ext_equal]
pub struct RoomView {
    pub id: u128,
    /// The members, in the order in which they came.
    pub users: Seq<UserView>,
    /// The identifiers of those to whom moderation was granted.
    pub moderators: Set<u128>,
    /// The history, oldest message first.
    pub messages: Seq<MessageView>,
}

impl RoomView {
    /// The room `id` with nobody in it and nothing said.
    pub open spec fn empty(id: u128) -> RoomView {
        RoomView { id, users: Seq::empty(), moderators: Set::empty(), messages: Seq::empty() }
    }

    /// The room `id` as its creator finds it: the creator is its one member
    /// and its one moderator.
    pub open spec fn created(id: u128, creator: UserView) -> RoomView {
        RoomView::empty(id).with_user(creator).with_moderator(creator.id)
    }

    /// Whether a member has the identifier `id`.
    pub open spec fn has_user(self, id: u128) -> bool {
        exists|i: int| 0 <= i < self.users.len() && (#[trigger] self.users[i]).id == id
    }

    /// Whether moderation was granted to `id`.
    pub open spec fn has_moderator(self, id: u128) -> bool {
        self.moderators.contains(id)
    }

    /// No two members share an identifier.
    pub open spec fn distinct_users(self) -> bool {
        forall|i: int, j: int|
            0 <= i < j < self.users.len() ==> (#[trigger] self.users[i]).id != (
            #[trigger] self.users[j]).id
    }

    /// The room after `user` came in, behind those who were there.
    pub open spec fn with_user(self, user: UserView) -> RoomView {
        RoomView { users: self.users.push(user), ..self }
    }

    /// The room after moderation was granted to `id`.
    pub open spec fn with_moderator(self, id: u128) -> RoomView {
        RoomView { moderators: self.moderators.insert(id), ..self }
    }

    /// The room after `message` was said.
    pub open spec fn with_message(self, message: MessageView) -> RoomView {
        RoomView { messages: self.messages.push(message), ..self }
    }

    /// The room after every member with the identifier `id` left. The others
    /// keep their order, and a moderation granted to `id` stays on record.
    pub open spec fn without_user(self, id: u128) -> RoomView {
        RoomView { users: self.users.filter(|u: UserView| u.id != id), ..self }
    }

    /// What a reader is shown of the room: everything but who moderates it.
    pub open spec fn snapshot(self) -> RoomView {
        RoomView { moderators: Set::empty(), ..self }
    }

    /// A room that was just created has its creator as its one member and
    /// its one moderator, and an empty history.
    pub proof fn lemma_created(id: u128, creator: UserView)
        ensures
            RoomView::created(id, creator).id == id,
            RoomView::created(id, creator).users == seq![creator],
            RoomView::created(id, creator).moderators == set![creator.id],
            RoomView::created(id, creator).messages == Seq::<MessageView>::empty(),
            RoomView::created(id, creator).distinct_users(),
            forall|other: u128|
                RoomView::created(id, creator).has_user(other) <==> other == creator.id,
    {
        let room = RoomView::created(id, creator);
        assert(room.users =~= seq![creator]);
        assert(room.moderators =~= set![creator.id]);
        assert(room.users[0].id == creator.id);
    }

    /// A newcomer whose identifier is not yet in the room leaves the
    /// identifiers distinct.
    pub proof fn lemma_with_user_distinct(self, user: UserView)
        requires
            self.distinct_users(),
            !self.has_user(user.id),
        ensures
            self.with_user(user).distinct_users(),
            self.with_user(user).has_user(user.id),
    {
        let after = self.with_user(user);
        assert forall|i: int, j: int| 0 <= i < j < after.users.len() implies (
        #[trigger] after.users[i]).id != (#[trigger] after.users[j]).id by {
            if j == self.users.len() {
                assert(self.users[i].id != user.id);
            } else {
                assert(after.users[i] == self.users[i]);
                assert(after.users[j] == self.users[j]);
            }
        }
        assert(after.users[self.users.len() as int].id == user.id);
    }

    /// Who is a member after `user` came in: `user`, and who was before.
    pub proof fn lemma_with_user_members(self, user: UserView, id: u128)
        ensures
            self.with_user(user).has_user(id) <==> (id == user.id || self.has_user(id)),
    {
        let after = self.with_user(user);
        if self.has_user(id) {
            let i = choose|i: int| 0 <= i < self.users.len() && (#[trigger] self.users[i]).id == id;
            assert(after.users[i].id == id);
        }
        if id == user.id {
            assert(after.users[self.users.len() as int].id == id);
        }
        if after.has_user(id) {
            let i = choose|i: int|
                0 <= i < after.users.len() && (#[trigger] after.users[i]).id == id;
            if i < self.users.len() {
                assert(self.users[i].id == id);
            }
        }
    }

    /// Who is a member after `id` left: who was before, but for `id`.
    pub proof fn lemma_without_user_members(self, id: u128, other: u128)
        ensures
            self.without_user(id).has_user(other) <==> (other != id && self.has_user(other)),
        decreases self.users.len(),
    {
        reveal(Seq::filter);
        let keep = |u: UserView| u.id != id;
        let after = self.without_user(id);
        if self.users.len() > 0 {
            let shorter = RoomView { users: self.users.drop_last(), ..self };
            shorter.lemma_without_user_members(id, other);
            let before = shorter.without_user(id);
            let last = self.users.last();
            if shorter.has_user(other) {
                let i = choose|i: int|
                    0 <= i < shorter.users.len() && (#[trigger] shorter.users[i]).id == other;
                assert(self.users[i].id == other);
            }
            if self.has_user(other) {
                let i = choose|i: int|
                    0 <= i < self.users.len() && (#[trigger] self.users[i]).id == other;
                if i < shorter.users.len() {
                    assert(shorter.users[i].id == other);
                }
            }
            if keep(last) {
                assert(after.users == before.users.push(last));
                before.lemma_with_user_members(last, other);
            } else {
                assert(after.users == before.users);
            }
        }
    }

    /// Where the identifiers were distinct, they still are after `id` left.
    pub proof fn lemma_without_user_distinct(self, id: u128)
        requires
            self.distinct_users(),
        ensures
            self.without_user(id).distinct_users(),
        decreases self.users.len(),
    {
        reveal(Seq::filter);
        let keep = |u: UserView| u.id != id;
        if self.users.len() > 0 {
            let shorter = RoomView { users: self.users.drop_last(), ..self };
            let last = self.users.last();
            assert forall|i: int, j: int| 0 <= i < j < shorter.users.len() implies (
            #[trigger] shorter.users[i]).id != (#[trigger] shorter.users[j]).id by {
                assert(shorter.users[i] == self.users[i]);
                assert(shorter.users[j] == self.users[j]);
            }
            shorter.lemma_without_user_distinct(id);
            let before = shorter.without_user(id);
            if keep(last) {
                assert(self.without_user(id).users == before.users.push(last));
                shorter.lemma_without_user_members(id, last.id);
                if shorter.has_user(last.id) {
                    let i = choose|i: int|
                        0 <= i < shorter.users.len() && (#[trigger] shorter.users[i]).id
                            == last.id;
                    assert(self.users[i].id == self.users[self.users.len() - 1].id);
                }
                before.lemma_with_user_distinct(last);
            } else {
                assert(self.without_user(id).users == before.users);
            }
        }
    }
}

/// A chat room.
#[derive(Debug)]
pub struct Room {
    pub id: u128,
    /// The members, in the order in which they came.
    pub users: Vec<User>,
    /// The history, oldest message first.
    pub messages: Vec<Message>,
    /// Those to whom moderation was granted. Nothing outside the room reads
    /// this list: a room answers whether one identifier moderates it, and
    /// never who does.
    moderators: Vec<User>,
}

impl View for Room {
    type V = RoomView;

    closed spec fn view(&self) -> RoomView {
        RoomView {
            id: self.id,
            users: user_views(self.users@),
            moderators: self.moderator_ids(),
            messages: message_views(self.messages@),
        }
    }
}

impl Room {
    /// The identifiers on the list of moderators.
    closed spec fn moderator_ids(&self) -> Set<u128> {
        Set::new(
            |id: u128|
                exists|i: int|
                    0 <= i < self.moderators@.len() && (#[trigger] self.moderators@[i]).id == id,
        )
    }

    /// A room is well formed where no two of its members share an identifier.
    pub open spec fn wf(&self) -> bool {
        self@.distinct_users()
    }

    /// An empty room under a random identifier.
    pub fn new() -> (room: Room)
        ensures
            room@ == RoomView::empty(room@.id),
            is_random_uuid(room@.id),
            room.wf(),
    {
        Room::with_id(random_id())
    }

    /// An empty room under the identifier `id`.
    pub fn with_id(id: u128) -> (room: Room)
        ensures
            room@ == RoomView::empty(id),
            room.wf(),
    {
        let room = Room { id, users: Vec::new(), messages: Vec::new(), moderators: Vec::new() };
        assert(room@.users =~= Seq::empty());
        assert(room@.messages =~= Seq::empty());
        assert(room@.moderators =~= Set::empty());
        room
    }

    /// The identifier of the room.
    pub fn id(&self) -> (id: u128)
        ensures
            id == self@.id,
    {
        self.id
    }

    /// The members, in the order in which they came.
    pub fn users(&self) -> (users: &Vec<User>)
        ensures
            user_views(users@) == self@.users,
    {
        &self.users
    }

    /// The history, oldest message first.
    pub fn messages(&self) -> (messages: &Vec<Message>)
        ensures
            message_views(messages@) == self@.messages,
    {
        &self.messages
    }

    /// Puts `user` behind the members. Whether `user` is one already is for
    /// the caller to ask first: see [`Room::is_user`].
    pub fn add_user(&mut self, user: User)
        ensures
            final(self)@ == old(self)@.with_user(user@),
            old(self).wf() && !old(self)@.has_user(user.id) ==> final(self).wf(),
    {
        proof {
            if self.wf() && !self@.has_user(user.id) {
                self@.lemma_with_user_distinct(user@);
            }
        }
        self.users.push(user);
        assert(self@.users =~= old(self)@.users.push(user@));
    }

    /// Grants moderation to `moderator`.
    pub fn add_moderator(&mut self, moderator: User)
        ensures
            final(self)@ == old(self)@.with_moderator(moderator.id),
    {
        let ghost before = self.moderators@;
        self.moderators.push(moderator);
        assert forall|id: u128|
            self@.moderators.contains(id) <==> old(self)@.moderators.insert(
                moderator.id,
            ).contains(id) by {
            if old(self)@.moderators.contains(id) {
                let i = choose|i: int| 0 <= i < before.len() && (#[trigger] before[i]).id == id;
                assert(self.moderators@[i].id == id);
            }
            if id == moderator.id {
                assert(self.moderators@[before.len() as int].id == id);
            }
            if self@.moderators.contains(id) {
                let i = choose|i: int|
                    0 <= i < self.moderators@.len() && (#[trigger] self.moderators@[i]).id == id;
                if i < before.len() {
                    assert(before[i].id == id);
                }
            }
        }
        assert(self@.moderators =~= old(self)@.moderators.insert(moderator.id));
    }

    /// Records `message` in the history, then offers it to those who listen
    /// on `sender`, and returns to how many it was offered. Nobody listening
    /// is no failure: the message is in the history either way.
    pub fn add_message(&mut self, message: Message, sender: Sender<Message>) -> (offered: usize)
        ensures
            final(self)@ == old(self)@.with_message(message@),
            old(self).wf() ==> final(self).wf(),
    {
        let copy = message.clone();
        self.messages.push(message);
        assert(self@.messages =~= old(self)@.messages.push(message@));
        let outcome = publish(&sender, copy);
        listeners_reached(&outcome)
    }

    /// Whether moderation was granted to `user_id`.
    pub fn is_moderator(&self, user_id: u128) -> (found: bool)
        ensures
            found == self@.has_moderator(user_id),
    {
        let mut i: usize = 0;
        while i < self.moderators.len()
            invariant
                i <= self.moderators@.len(),
                forall|j: int| 0 <= j < i ==> (#[trigger] self.moderators@[j]).id != user_id,
            decreases self.moderators@.len() - i,
        {
            if self.moderators[i].id == user_id {
                return true;
            }
            i += 1;
        }
        false
    }

    /// Whether `user_id` is a member.
    pub fn is_user(&self, user_id: u128) -> (found: bool)
        ensures
            found == self@.has_user(user_id),
    {
        let mut i: usize = 0;
        while i < self.users.len()
            invariant
                i <= self.users@.len(),
                forall|j: int| 0 <= j < i ==> (#[trigger] self@.users[j]).id != user_id,
            decreases self.users@.len() - i,
        {
            if self.users[i].id == user_id {
                assert(self@.users[i as int].id == user_id);
                return true;
            }
            i += 1;
        }
        false
    }

    /// Takes every member with the identifier `id` out of the room. The
    /// others keep their order. A moderation granted to `id` is not taken
    /// back.
    pub fn remove_user(&mut self, id: u128)
        ensures
            final(self)@ == old(self)@.without_user(id),
            old(self).wf() ==> final(self).wf(),
    {
        let ghost keep = |u: UserView| u.id != id;
        let ghost before = self@.users;
        let mut kept: Vec<User> = Vec::new();
        let mut i: usize = 0;
        proof {
            reveal(Seq::filter);
            assert(before.take(0) =~= Seq::empty());
            assert(user_views(kept@) =~= before.take(0).filter(keep));
        }
        while i < self.users.len()
            invariant
                i <= self.users@.len(),
                before == user_views(self.users@),
                keep == |u: UserView| u.id != id,
                user_views(kept@) == before.take(i as int).filter(keep),
            decreases self.users@.len() - i,
        {
            proof {
                assert(before.take(i + 1) =~= before.take(i as int).push(before[i as int]));
                before.take(i as int).lemma_filter_push(before[i as int], keep);
            }
            if self.users[i].id != id {
                let ghost shorter = kept@;
                kept.push(self.users[i].clone());
                assert(user_views(kept@) =~= user_views(shorter).push(before[i as int]));
            }
            i += 1;
        }
        proof {
            assert(before.take(i as int) =~= before);
            if old(self).wf() {
                old(self)@.lemma_without_user_distinct(id);
            }
        }
        self.users = kept;
    }

    /// A copy of the room for a reader: its identifier, its members and its
    /// history as they are now, and no moderator.
    pub fn snapshot(&self) -> (copy: Room)
        ensures
            copy@ == self@.snapshot(),
    {
        let copy = Room {
            id: self.id,
            users: copy_users(&self.users),
            messages: copy_messages(&self.messages),
            moderators: Vec::new(),
        };
        assert(copy@.moderators =~= Set::empty());
        copy
    }
}

/// A copy of each user, in the same order.
fn copy_users(users: &Vec<User>) -> (copy: Vec<User>)
    ensures
        user_views(copy@) == user_views(users@),
{
    let mut copy: Vec<User> = Vec::new();
    let mut i: usize = 0;
    while i < users.len()
        invariant
            i <= users@.len(),
            copy@.len() == i,
            forall|j: int| 0 <= j < i ==> (#[trigger] copy@[j])@ == users@[j]@,
        decreases users@.len() - i,
    {
        copy.push(users[i].clone());
        i += 1;
    }
    assert(user_views(copy@) =~= user_views(users@));
    copy
}

/// A copy of each message, in the same order.
fn copy_messages(messages: &Vec<Message>) -> (copy: Vec<Message>)
    ensures
        message_views(copy@) == message_views(messages@),
{
    let mut copy: Vec<Message> = Vec::new();
    let mut i: usize = 0;
    while i < messages.len()
        invariant
            i <= messages@.len(),
            copy@.len() == i,
            forall|j: int| 0 <= j < i ==> (#[trigger] copy@[j])@ == messages@[j]@,
        decreases messages@.len() - i,
    {
        copy.push(messages[i].clone());
        i += 1;
    }
    assert(message_views(copy@) =~= message_views(messages@));
    copy
}

} // verus!
