//! How the service starts.

use vstd::prelude::*;
use crate::managers::room_manager::RoomManager;
use crate::models::room::RoomView;

verus! {

/// What the service is launched with: the state it starts from and the
/// places under which its parts are mounted.
pub struct Launch {
    /// The registry of rooms, with no room in it yet.
    pub room_manager: RoomManager,
    /// Where the static files are served: `/`.
    pub files_mount: String,
    /// The directory that the static files are read from: `public`.
    pub files_root: String,
    /// Where the room operations are served: `/room`.
    pub room_mount: String,
    /// Where the user operations are served: `/user`.
    pub user_mount: String,
}

/// The plan by which the service is launched: an empty registry of rooms,
/// static files from `public` under `/`, the room operations under `/room`
/// and the user operations under `/user`.
pub fn rocket() -> (launch: Launch)
    ensures
        launch.room_manager.wf(),
        launch.room_manager@ == Map::<u128, RoomView>::empty(),
        launch.room_manager.unheard_count() == 0,
        launch.files_mount@ == "/"@,
        launch.files_root@ == "public"@,
        launch.room_mount@ == "/room"@,
        launch.user_mount@ == "/user"@,
{
    Launch {
        room_manager: RoomManager::new(),
        files_mount: "/".to_owned(),
        files_root: "public".to_owned(),
        room_mount: "/room".to_owned(),
        user_mount: "/user".to_owned(),
    }
}

} // verus!
