//! The reasons for which a request on a room is refused.

use vstd::prelude::*;

verus! {

/// Why the room manager refused a request.
#[derive(Clone, Copy, Debug, PartialEq, Eq, Structural)]
pub enum RoomError {
    /// No room is registered under the identifier.
    RoomNotFound,
    /// A user that the request names is not in the room.
    UserNotFound,
    /// The user who asks to join is in the room already.
    UserAlreadyMember,
    /// The sender of a message is not in the room.
    SenderNotMember,
    /// The acting user does not moderate the room.
    PermissionDenied,
}

impl RoomError {
    /// The HTTP status that stands for the error.
    pub open spec fn spec_status_code(self) -> u16 {
        match self {
            RoomError::PermissionDenied => 403,
            RoomError::RoomNotFound => 404,
            RoomError::UserNotFound => 404,
            RoomError::SenderNotMember => 404,
            RoomError::UserAlreadyMember => 409,
        }
    }

    /// The HTTP status with which a transport answers the error: 403 where
    /// permission is missing, 409 where the user is a member already, 404
    /// where the room or a user is not there.
    #[verifier::when_used_as_spec(spec_status_code)]
    pub fn status_code(self) -> (code: u16)
        ensures
            code == self.spec_status_code(),
    {
        match self {
            RoomError::PermissionDenied => 403,
            RoomError::RoomNotFound => 404,
            RoomError::UserNotFound => 404,
            RoomError::SenderNotMember => 404,
            RoomError::UserAlreadyMember => 409,
        }
    }
}

} // verus!
