//! The plain scene of a participant: it does not tell of denied requests, and
//! goes back to the menu without a message.

use crate::keys;
use crate::protocol::Packet;
use crate::scenes::scene;
use crate::scenes::scene::{SceneAction, SceneChange};
use crate::scenes::viewer;
use crate::scenes::viewer::{leave_for_good, Viewer, ViewerEvent, ViewerInput};
use vstd::prelude::*;

verus! {

/// The plain scene of a participant of a session.
pub struct MainScene {
    pub viewer: Viewer,
}

/// What a frame brings.
pub struct MainFrame {
    /// The actions, in order.
    pub actions: Vec<SceneAction>,
    /// The scene that comes next.
    pub change: SceneChange,
}

/// The scene that comes after a frame.
pub open spec fn change_after(
    username: Seq<char>,
    stopped: bool,
    disconnect: bool,
) -> scene::SceneChangeView {
    if stopped || disconnect {
        scene::SceneChangeView::Menu { username, status_message: Seq::empty() }
    } else {
        scene::SceneChangeView::Stay
    }
}

/// Whether every known key among the events has a code.
pub open spec fn keys_have_codes(events: Seq<viewer::InputEvent>) -> bool {
    forall|i: int|
        0 <= i < events.len() ==> (#[trigger] events[i] matches viewer::InputEvent::Key {
            physical_key: Some(key),
            ..
        } ==> keys::key_code(key) is Some)
}

impl MainScene {
    /// The scene of a user who has just joined.
    pub fn new(username: String, blank_frame: Vec<u8>) -> (scene: MainScene)
        ensures
            viewer::has_just_joined(scene.viewer, username, blank_frame),
    {
        MainScene { viewer: Viewer::new(username, blank_frame) }
    }

    /// Takes a packet of the server; denied requests are not noted in the chat.
    pub fn on_packet(&mut self, packet: Packet) -> (event: ViewerEvent)
        ensures
            viewer::is_event_for(event, packet@),
            viewer::is_after_packet(
                old(self).viewer,
                final(self).viewer,
                packet@,
                false,
            ),
    {
        self.viewer.on_packet(packet, false)
    }

    /// The actions with which the client ends, before it closes the channel.
    pub fn on_exit(&self) -> (actions: Vec<SceneAction>)
        ensures
            scene::action_views(actions@) == viewer::leave_actions() + scene::last_actions(),
    {
        leave_for_good()
    }

    /// Works on a frame. Every key that is passed on has to have a code.
    pub fn update(&mut self, input: &ViewerInput) -> (frame: MainFrame)
        requires
            !old(self).viewer.stopped && viewer::controls(old(self).viewer.control, *input)
                ==> keys_have_codes(input.events@),
        ensures
            frame.change@ == change_after(
                old(self).viewer.username@,
                old(self).viewer.stopped,
                input.disconnect,
            ),
            viewer::is_after_frame(
                old(self).viewer,
                final(self).viewer,
                *input,
                scene::action_views(frame.actions@),
            ),
    {
        let change: SceneChange = if self.viewer.stopped || input.disconnect {
            SceneChange::Menu {
                username: self.viewer.username.clone(),
                status_message: String::new(),
            }
        } else {
            SceneChange::Stay
        };
        assert(change@ == change_after(
            old(self).viewer.username@,
            old(self).viewer.stopped,
            input.disconnect,
        ));
        MainFrame { actions: self.viewer.update(input), change }
    }
}

/// The user goes back to the menu, under the same name, exactly if the session
/// is over or the user leaves it.
pub proof fn law_back_to_the_menu(username: Seq<char>, stopped: bool, disconnect: bool)
    ensures
        change_after(username, stopped, disconnect) is Stay <==> !stopped && !disconnect,
        stopped ==> change_after(username, stopped, disconnect) == (scene::SceneChangeView::Menu {
            username,
            status_message: Seq::empty(),
        }),
        !stopped && disconnect ==> change_after(username, stopped, disconnect)
            == (scene::SceneChangeView::Menu { username, status_message: Seq::empty() }),
{
}

} // verus!
