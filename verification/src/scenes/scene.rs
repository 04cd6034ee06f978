//! What the scenes have in common.

use crate::protocol;
use crate::protocol::Packet;
use crate::server::client;
use vstd::prelude::*;

verus! {

/// The scene that comes next.
#[derive(PartialEq, Eq, Debug)]
pub enum SceneChange {
    /// The scene stays.
    Stay,
    /// The login scene.
    Login,
    /// The menu of a user, with a message to show.
    Menu { username: String, status_message: String },
    /// The scene of a host, with the code of the session.
    Host { code: String, username: String },
    /// The scene of a participant.
    Participant { username: String },
    /// The scene of a recording, with its length in frames.
    Watch { username: String, duration: i32 },
}

/// The content of a [`SceneChange`].
#[verifier::ext_equal]
pub enum SceneChangeView {
    Stay,
    Login,
    Menu { username: Seq<char>, status_message: Seq<char> },
    Host { code: Seq<char>, username: Seq<char> },
    Participant { username: Seq<char> },
    Watch { username: Seq<char>, duration: i32 },
}

impl View for SceneChange {
    type V = SceneChangeView;

    open spec fn view(&self) -> SceneChangeView {
        match self {
            SceneChange::Stay => SceneChangeView::Stay,
            SceneChange::Login => SceneChangeView::Login,
            SceneChange::Menu { username, status_message } => SceneChangeView::Menu {
                username: username@,
                status_message: status_message@,
            },
            SceneChange::Host { code, username } => SceneChangeView::Host {
                code: code@,
                username: username@,
            },
            SceneChange::Participant { username } => SceneChangeView::Participant {
                username: username@,
            },
            SceneChange::Watch { username, duration } => SceneChangeView::Watch {
                username: username@,
                duration: *duration,
            },
        }
    }
}

/// Of two changes of the scene in one frame, the later one counts.
pub open spec fn later(first: SceneChangeView, second: SceneChangeView) -> SceneChangeView {
    if second is Stay {
        first
    } else {
        second
    }
}

impl SceneChange {
    /// This change, or the later one if it is one.
    pub fn followed_by(self, next: SceneChange) -> (change: SceneChange)
        ensures
            change@ == later(self@, next@),
    {
        match next {
            SceneChange::Stay => self,
            _ => next,
        }
    }
}

/// One step of what a scene does in a frame.
#[derive(PartialEq, Eq, Debug)]
pub enum SceneAction {
    /// Send a packet.
    Send { packet: Packet },
    /// Stop the programs and threads of the video.
    StopVideo,
    /// Wait until no more packets of the session are received.
    AwaitEnd,
    /// Receive the recordings with which the server answers a user who comes
    /// back.
    ReceiveRecordings,
}

/// The content of a [`SceneAction`].
#[verifier::ext_equal]
pub enum SceneActionView {
    Send { packet: protocol::PacketView },
    StopVideo,
    AwaitEnd,
    ReceiveRecordings,
}

impl View for SceneAction {
    type V = SceneActionView;

    open spec fn view(&self) -> SceneActionView {
        match self {
            SceneAction::Send { packet } => SceneActionView::Send { packet: packet@ },
            SceneAction::StopVideo => SceneActionView::StopVideo,
            SceneAction::AwaitEnd => SceneActionView::AwaitEnd,
            SceneAction::ReceiveRecordings => SceneActionView::ReceiveRecordings,
        }
    }
}

/// The contents of a list of actions.
pub open spec fn action_views(actions: Seq<SceneAction>) -> Seq<SceneActionView> {
    actions.map_values(|a: SceneAction| a@)
}

/// The actions that send packets.
pub open spec fn sends(packets: Seq<protocol::PacketView>) -> Seq<SceneActionView> {
    packets.map_values(|packet: protocol::PacketView| SceneActionView::Send { packet })
}

/// Appends an action to a list.
pub(crate) fn push_action(actions: &mut Vec<SceneAction>, action: SceneAction)
    ensures
        action_views(final(actions)@) == action_views(old(actions)@).push(action@),
{
    actions.push(action);
    assert(action_views(actions@) =~= action_views(old(actions)@).push(action@));
}

/// Appends the sending of a packet to a list.
pub(crate) fn push_send(actions: &mut Vec<SceneAction>, packet: Packet)
    ensures
        action_views(final(actions)@) == action_views(old(actions)@) + sends(seq![packet@]),
{
    push_action(actions, SceneAction::Send { packet });
    assert(sends(seq![packet@]) =~= seq![SceneActionView::Send { packet: packet@ }]);
    assert(action_views(actions@) =~= action_views(old(actions)@) + sends(seq![packet@]));
}

/// Sending one list of packets and then another is sending both.
pub broadcast proof fn lemma_sends_concatenation(
    a: Seq<protocol::PacketView>,
    b: Seq<protocol::PacketView>,
)
    ensures
        #[trigger] sends(a + b) == sends(a) + sends(b),
{
    assert(sends(a + b) =~= sends(a) + sends(b));
}

/// The packets with which a client that is signed in and not in a session says
/// goodbye, before it closes the channel.
pub open spec fn goodbye() -> Seq<protocol::PacketView> {
    seq![protocol::PacketView::SignOut, protocol::PacketView::Shutdown]
}

/// The packets with which a client that is signed in and not in a session says
/// goodbye, before it closes the channel.
pub fn goodbye_packets() -> (packets: Vec<Packet>)
    ensures
        client::packet_views(packets@) == goodbye(),
{
    let mut packets: Vec<Packet> = Vec::new();
    packets.push(Packet::SignOut);
    packets.push(Packet::Shutdown);
    assert(client::packet_views(packets@) =~= goodbye());
    packets
}

/// The actions with which a client that has left a session says goodbye.
pub open spec fn last_actions() -> Seq<SceneActionView> {
    seq![SceneActionView::ReceiveRecordings] + sends(goodbye())
}

/// Appends the goodbye to the actions with which a session is left.
pub(crate) fn push_goodbye(actions: &mut Vec<SceneAction>)
    ensures
        action_views(final(actions)@) == action_views(old(actions)@) + last_actions(),
{
    push_action(actions, SceneAction::ReceiveRecordings);
    push_send(actions, Packet::SignOut);
    push_send(actions, Packet::Shutdown);
    assert(action_views(actions@) =~= action_views(old(actions)@) + last_actions());
}

/// Sending packets sends each of them, in order, and does nothing else.
pub proof fn law_sends(packets: Seq<protocol::PacketView>)
    ensures
        sends(packets).len() == packets.len(),
        forall|i: int|
            0 <= i < packets.len() ==> #[trigger] sends(packets)[i] == (SceneActionView::Send {
                packet: packets[i],
            }),
        forall|packet: protocol::PacketView| #[trigger]
            sends(packets).contains(SceneActionView::Send { packet }) <==> packets.contains(packet),
        forall|action: SceneActionView| #[trigger]
            sends(packets).contains(action) ==> action is Send,
{
    assert forall|packet: protocol::PacketView| #[trigger]
        sends(packets).contains(SceneActionView::Send { packet }) <==> packets.contains(packet) by {
        let action = SceneActionView::Send { packet };
        if sends(packets).contains(action) {
            let i = sends(packets).index_of(action);
            assert(packets[i] == packet);
        }
        if packets.contains(packet) {
            let i = packets.index_of(packet);
            assert(sends(packets)[i] == action);
        }
    }
}

/// Of changes that follow one another the last one counts that is one.
pub proof fn law_last_change_counts(
    first: SceneChangeView,
    second: SceneChangeView,
    third: SceneChangeView,
)
    ensures
        later(first, SceneChangeView::Stay) == first,
        !(second is Stay) ==> later(first, second) == second,
        later(later(first, second), third) == later(first, later(second, third)),
{
}

/// A client that ends signs out first and shuts down last; after a session it
/// takes the list of recordings before that.
pub proof fn law_goodbye()
    ensures
        goodbye() == seq![protocol::PacketView::SignOut, protocol::PacketView::Shutdown],
        last_actions() == seq![
            SceneActionView::ReceiveRecordings,
            SceneActionView::Send { packet: protocol::PacketView::SignOut },
            SceneActionView::Send { packet: protocol::PacketView::Shutdown },
        ],
{
    assert(last_actions() =~= seq![
        SceneActionView::ReceiveRecordings,
        SceneActionView::Send { packet: protocol::PacketView::SignOut },
        SceneActionView::Send { packet: protocol::PacketView::Shutdown },
    ]);
}

} // verus!
