//! The scene of a participant of a session.

use crate::protocol::Packet;
use crate::scenes::scene;
use crate::scenes::scene::{SceneAction, SceneChange};
use crate::scenes::viewer;
use crate::scenes::viewer::{leave_for_good, Viewer, ViewerEvent, ViewerInput};
use vstd::prelude::*;

verus! {

/// The scene of a participant of a session.
pub struct ParticipantScene {
    pub viewer: Viewer,
}

/// What a frame brings.
pub struct ParticipantFrame {
    /// The actions, in order.
    pub actions: Vec<SceneAction>,
    /// The scene that comes next.
    pub change: SceneChange,
}

/// The scene that comes after a frame.
pub open spec fn change_after(
    username: Seq<char>,
    stopped: bool,
    disconnect: bool,
) -> scene::SceneChangeView {
    if stopped {
        scene::SceneChangeView::Menu { username, status_message: "The host ended the session."@ }
    } else if disconnect {
        scene::SceneChangeView::Menu { username, status_message: Seq::empty() }
    } else {
        scene::SceneChangeView::Stay
    }
}

impl ParticipantScene {
    /// The scene of a user who has just joined.
    pub fn new(username: String, blank_frame: Vec<u8>) -> (scene: ParticipantScene)
        ensures
            viewer::has_just_joined(scene.viewer, username, blank_frame),
    {
        ParticipantScene { viewer: Viewer::new(username, blank_frame) }
    }

    /// Takes a packet of the server; denied requests are noted in the chat.
    pub fn on_packet(&mut self, packet: Packet) -> (event: ViewerEvent)
        ensures
            viewer::is_event_for(event, packet@),
            viewer::is_after_packet(
                old(self).viewer,
                final(self).viewer,
                packet@,
                true,
            ),
    {
        self.viewer.on_packet(packet, true)
    }

    /// The actions with which the client ends, before it closes the channel.
    pub fn on_exit(&self) -> (actions: Vec<SceneAction>)
        ensures
            scene::action_views(actions@) == viewer::leave_actions() + scene::last_actions(),
    {
        leave_for_good()
    }

    /// Works on a frame.
    pub fn update(&mut self, input: &ViewerInput) -> (frame: ParticipantFrame)
        ensures
            frame.change@ == change_after(
                old(self).viewer.username@,
                old(self).viewer.stopped,
                input.disconnect,
            ),
            viewer::is_after_frame(
                old(self).viewer,
                final(self).viewer,
                *input,
                scene::action_views(frame.actions@),
            ),
    {
        let change: SceneChange = if self.viewer.stopped {
            SceneChange::Menu {
                username: self.viewer.username.clone(),
                status_message: "The host ended the session.".to_owned(),
            }
        } else if input.disconnect {
            SceneChange::Menu {
                username: self.viewer.username.clone(),
                status_message: String::new(),
            }
        } else {
            SceneChange::Stay
        };
        assert(change@ == change_after(
            old(self).viewer.username@,
            old(self).viewer.stopped,
            input.disconnect,
        ));
        ParticipantFrame { actions: self.viewer.update(input), change }
    }
}

/// The user goes back to the menu, under the same name, exactly if the session
/// is over or the user leaves it; who is left by the host is
/// told so.
pub proof fn law_back_to_the_menu(username: Seq<char>, stopped: bool, disconnect: bool)
    ensures
        change_after(username, stopped, disconnect) is Stay <==> !stopped && !disconnect,
        stopped ==> change_after(username, stopped, disconnect) == (scene::SceneChangeView::Menu {
            username,
            status_message: "The host ended the session."@,
        }),
        !stopped && disconnect ==> change_after(username, stopped, disconnect)
            == (scene::SceneChangeView::Menu { username, status_message: Seq::empty() }),
{
}

} // verus!
