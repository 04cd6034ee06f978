//! The scenes of the client: what a frame's clicks and the server's packets do
//! to each of them.

pub mod host_scene;
pub mod login_scene;
pub mod main_scene;
pub mod menu_scene;
pub mod participant_scene;
pub mod scene;
pub mod viewer;
pub mod watch_scene;
