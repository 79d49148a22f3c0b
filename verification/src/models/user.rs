//! Users, as the identity store hands them to the rooms.

use vstd::prelude::*;

verus! {

/// A user as the contracts see it.
pub struct UserView {
    pub id: u128,
    pub username: Seq<char>,
}

/// An identity: made elsewhere, taken here as it comes.
#[derive(Debug)]
pub struct User {
    /// The identifier, unique among users: the 128 bits of a UUID.
    pub id: u128,
    pub username: String,
}

impl View for User {
    type V = UserView;

    open spec fn view(&self) -> UserView {
        UserView { id: self.id, username: self.username@ }
    }
}

impl Clone for User {
    fn clone(&self) -> (copy: Self)
        ensures
            copy@ == self@,
    {
        User { id: self.id, username: self.username.clone() }
    }
}

/// Two users are the same user where their identifiers are equal, whatever
/// their names.
impl PartialEq for User {
    fn eq(&self, other: &Self) -> (same: bool) {
        self.id == other.id
    }
}

impl vstd::std_specs::cmp::PartialEqSpecImpl for User {
    open spec fn obeys_eq_spec() -> bool {
        true
    }

    open spec fn eq_spec(&self, other: &Self) -> bool {
        self.id == other.id
    }
}

impl Eq for User {

}

/// The users of a list as the contracts see them, in the order of the list.
pub open spec fn user_views(users: Seq<User>) -> Seq<UserView> {
    users.map_values(|u: User| u@)
}

} // verus!
