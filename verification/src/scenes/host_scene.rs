//! The scene of a session's host.

use crate::chat;
use crate::chat::update_user;
use crate::input;
use crate::input::{inject, SystemInput};
use crate::names;
use crate::names::NameMap;
use crate::protocol;
use crate::protocol::Packet;
use crate::scenes::scene;
use crate::scenes::scene::{push_action, push_goodbye, push_send, SceneAction, SceneChange};
use crate::server::host;
use crate::server::session;
use crate::server::session::Connection;
use crate::text;
use crate::text::push_text;
use crate::user_type::UserType;
use crate::users_list;
use crate::users_list::{find_controller, revoke_clicked};
use vstd::prelude::*;

verus! {

/// The buttons next to a request that were clicked in a frame.
#[derive(Clone, Copy, PartialEq, Eq, Structural, Debug)]
pub struct Click {
    pub allow: bool,
    pub deny: bool,
}

/// What the host does in a frame.
pub struct HostInput {
    /// The clicks next to the requests for control, in their order.
    pub control_clicks: Vec<Click>,
    /// The clicks next to the requests to join, in their order.
    pub join_clicks: Vec<Click>,
    /// The clicks on "Revoke Control", in the order of the controllers.
    pub revoke_clicks: Vec<bool>,
    /// "End Session" was clicked.
    pub end_session: bool,
    /// Ctrl+Shift+R was pressed.
    pub revoke_hotkey: bool,
}

/// What a frame brings.
pub struct HostFrame {
    /// The actions, in order.
    pub actions: Vec<SceneAction>,
    /// The scene that comes next.
    pub change: SceneChange,
}

/// What is to be done for a packet of the server.
#[derive(Clone, Copy, PartialEq, Eq, Structural, Debug)]
pub enum HostEvent {
    /// Nothing.
    Nothing,
    /// Hand input to the operating system.
    Inject { input: SystemInput },
    /// Stop to receive packets.
    Stop,
}

/// The scene of a session's host.
pub struct HostScene {
    /// The code of the session.
    pub session_code: String,
    /// The users of the session.
    pub usernames: NameMap<UserType>,
    /// The name of the host.
    pub username: String,
    /// The users who ask for control.
    pub requesting_control: NameMap<()>,
    /// The users who ask to join.
    pub requesting_join: NameMap<()>,
    /// The chat.
    pub chat_log: Vec<String>,
    /// The message that is being typed.
    pub chat_message: String,
}

/// A list of requests.
pub type Requests = Seq<(Seq<char>, ())>;

/// The names in a list of requests.
pub open spec fn names_of(requests: Requests) -> Seq<Seq<char>> {
    requests.map_values(|request: (Seq<char>, ())| request.0)
}

/// Whose request was handled in a frame: the last one with a click. The empty
/// name stands for nobody.
pub open spec fn handled(names: Seq<Seq<char>>, clicks: Seq<Click>) -> Seq<char>
    decreases clicks.len(),
{
    if clicks.len() == 0 {
        Seq::empty()
    } else if clicks.last().allow || clicks.last().deny {
        names[clicks.len() - 1]
    } else {
        handled(names, clicks.drop_last())
    }
}

/// Whether "Allow" was clicked.
pub open spec fn any_allowed(clicks: Seq<Click>) -> bool {
    exists|i: int| 0 <= i < clicks.len() && (#[trigger] clicks[i]).allow
}

/// The requests that are left after one was handled.
pub open spec fn remaining(requests: Requests, handled: Seq<char>) -> Requests {
    if handled.len() > 0 {
        names::without(requests, handled)
    } else {
        requests
    }
}

/// The packet that denies a user control, or takes it back.
pub open spec fn deny_control(username: Seq<char>) -> protocol::PacketView {
    protocol::PacketView::DenyControl { username }
}

/// A denial for each request next to which "Deny" was clicked.
pub open spec fn denials(names: Seq<Seq<char>>, clicks: Seq<Click>) -> Seq<protocol::PacketView>
    decreases clicks.len(),
{
    if clicks.len() == 0 {
        Seq::empty()
    } else {
        denials(names, clicks.drop_last()) + if clicks.last().deny {
            seq![deny_control(names[clicks.len() - 1])]
        } else {
            Seq::empty()
        }
    }
}

/// A denial for each name.
pub open spec fn deny_all(names: Seq<Seq<char>>) -> Seq<protocol::PacketView> {
    names.map_values(|name: Seq<char>| deny_control(name))
}

/// A denial for the current controller, if there is one.
pub open spec fn revocation(users: users_list::Users) -> Seq<protocol::PacketView> {
    match users_list::first_controller(users) {
        Some(controller) => seq![deny_control(controller)],
        None => Seq::empty(),
    }
}

/// The packets for the clicks next to the requests for control. Who is allowed
/// takes over from the current controller, and all others are denied.
pub open spec fn control_packets(
    users: users_list::Users,
    requests: Requests,
    clicks: Seq<Click>,
) -> Seq<protocol::PacketView> {
    let user = handled(names_of(requests), clicks);
    denials(names_of(requests), clicks) + if any_allowed(clicks) {
        revocation(users) + seq![protocol::PacketView::RequestControl { username: user }]
            + deny_all(names_of(remaining(requests, user)))
    } else {
        Seq::empty()
    }
}

/// The requests for control after a frame.
pub open spec fn control_requests_after(requests: Requests, clicks: Seq<Click>) -> Requests {
    if any_allowed(clicks) {
        Seq::empty()
    } else {
        remaining(requests, handled(names_of(requests), clicks))
    }
}

/// The packets for the clicks next to the requests to join.
pub open spec fn join_packets(names: Seq<Seq<char>>, clicks: Seq<Click>) -> Seq<protocol::PacketView>
    decreases clicks.len(),
{
    if clicks.len() == 0 {
        Seq::empty()
    } else {
        let name = names[clicks.len() - 1];
        join_packets(names, clicks.drop_last()) + (if clicks.last().allow {
            seq![protocol::PacketView::Join { code: 0, username: name }]
        } else {
            Seq::empty()
        }) + (if clicks.last().deny {
            seq![protocol::PacketView::DenyJoin { username: name }]
        } else {
            Seq::empty()
        })
    }
}

/// The packet for the clicks on "Revoke Control".
pub open spec fn revoke_packets(users: users_list::Users, clicks: Seq<bool>) -> Seq<
    protocol::PacketView,
> {
    match users_list::last_clicked(users_list::names_with(users, UserType::Controller), clicks) {
        Some(controller) => seq![deny_control(controller)],
        None => Seq::empty(),
    }
}

/// The actions with which the host ends the session: the screen is no longer
/// sent, and the server's last packet is waited for.
pub open spec fn leave_actions() -> Seq<scene::SceneActionView> {
    seq![
        scene::SceneActionView::StopVideo,
        scene::SceneActionView::Send { packet: protocol::PacketView::SessionExit },
        scene::SceneActionView::AwaitEnd,
    ]
}

/// The actions of a frame.
pub open spec fn host_actions(
    users: users_list::Users,
    requesting_control: Requests,
    requesting_join: Requests,
    input: HostInput,
) -> Seq<scene::SceneActionView> {
    scene::sends(control_packets(users, requesting_control, input.control_clicks@)) + scene::sends(
        join_packets(names_of(requesting_join), input.join_clicks@),
    ) + scene::sends(revoke_packets(users, input.revoke_clicks@)) + (if input.end_session {
        leave_actions()
    } else {
        Seq::empty()
    }) + (if input.revoke_hotkey {
        scene::sends(revocation(users))
    } else {
        Seq::empty()
    })
}

/// Whether there is one click record for each request and each controller.
pub open spec fn fits(scene: HostScene, input: HostInput) -> bool {
    &&& input.control_clicks@.len() == scene.requesting_control@.len()
    &&& input.join_clicks@.len() == scene.requesting_join@.len()
    &&& input.revoke_clicks@.len() == users_list::names_with(
        scene.usernames@,
        UserType::Controller,
    ).len()
}

/// Whose request was handled in a frame.
fn find_handled(requests: &NameMap<()>, clicks: &Vec<Click>) -> (user: String)
    requires
        clicks@.len() == requests@.len(),
    ensures
        user@ == handled(names_of(requests@), clicks@),
{
    let ghost names = names_of(requests@);
    let mut i: usize = clicks.len();
    assert(clicks@.take(i as int) =~= clicks@);
    while i > 0
        invariant
            i <= clicks@.len(),
            clicks@.len() == requests@.len(),
            names == names_of(requests@),
            handled(names, clicks@) == handled(names, clicks@.take(i as int)),
        decreases i,
    {
        i -= 1;
        assert(clicks@.take(i + 1).drop_last() =~= clicks@.take(i as int));
        let click: Click = clicks[i];
        if click.allow || click.deny {
            assert(names[i as int] == requests@[i as int].0);
            return requests.name(i).clone();
        }
    }
    String::new()
}

/// Whether "Allow" was clicked.
fn has_allowed(clicks: &Vec<Click>) -> (allowed: bool)
    ensures
        allowed == any_allowed(clicks@),
{
    let n: usize = clicks.len();
    for i in 0..n
        invariant
            n == clicks@.len(),
            forall|j: int| 0 <= j < i ==> !(#[trigger] clicks@[j]).allow,
    {
        if clicks[i].allow {
            return true;
        }
    }
    false
}

/// Removes the request that was handled.
fn remove_handled(requests: &mut NameMap<()>, user: &String)
    ensures
        final(requests)@ == remaining(old(requests)@, user@),
{
    if !user.as_str().is_empty() {
        requests.remove(user);
    }
}

/// Appends denials for all who still ask.
fn push_denials(actions: &mut Vec<SceneAction>, requests: &NameMap<()>)
    ensures
        scene::action_views(final(actions)@) == scene::action_views(old(actions)@) + scene::sends(
            deny_all(names_of(requests@)),
        ),
{
    broadcast use scene::lemma_sends_concatenation;

    let ghost before = scene::action_views(actions@);
    let ghost all = deny_all(names_of(requests@));
    let n: usize = requests.len();
    assert(scene::sends(all.take(0)) =~= Seq::empty());
    assert(before + scene::sends(all.take(0)) =~= before);
    for i in 0..n
        invariant
            n == requests@.len(),
            all == deny_all(names_of(requests@)),
            scene::action_views(actions@) == before + scene::sends(all.take(i as int)),
    {
        let packet: Packet = Packet::DenyControl { username: requests.name(i).clone() };
        push_send(actions, packet);
        assert(all[i as int] == packet@);
        assert(all.take(i + 1) =~= all.take(i as int) + seq![packet@]);
        assert(scene::action_views(actions@) =~= before + scene::sends(all.take(i + 1)));
    }
    assert(all.take(n as int) =~= all);
}

/// Appends a denial for the current controller, if there is one.
fn push_revocation(actions: &mut Vec<SceneAction>, users: &NameMap<UserType>)
    ensures
        scene::action_views(final(actions)@) == scene::action_views(old(actions)@) + scene::sends(
            revocation(users@),
        ),
{
    match find_controller(users) {
        Some(controller) => {
            push_send(actions, Packet::DenyControl { username: controller });
        },
        None => {},
    }
    assert(scene::action_views(actions@) =~= scene::action_views(old(actions)@) + scene::sends(
        revocation(users@),
    ));
}

/// Appends the actions with which the host ends the session.
fn push_leave(actions: &mut Vec<SceneAction>)
    ensures
        scene::action_views(final(actions)@) == scene::action_views(old(actions)@)
            + leave_actions(),
{
    push_action(actions, SceneAction::StopVideo);
    push_action(actions, SceneAction::Send { packet: Packet::SessionExit });
    push_action(actions, SceneAction::AwaitEnd);
    assert(scene::action_views(actions@) =~= scene::action_views(old(actions)@) + leave_actions());
}

impl HostScene {
    /// The scene of a host whose session has just started.
    pub fn new(session_code: String, username: String) -> (scene: HostScene)
        ensures
            scene.session_code == session_code,
            scene.usernames@ == seq![(username@, UserType::Host)],
            scene.username@ == username@,
            scene.requesting_control@ == Seq::<(Seq<char>, ())>::empty(),
            scene.requesting_join@ == Seq::<(Seq<char>, ())>::empty(),
            text::texts(scene.chat_log@) == Seq::<Seq<char>>::empty(),
            scene.chat_message@ == Seq::<char>::empty(),
    {
        let mut usernames: NameMap<UserType> = NameMap::new();
        usernames.insert(username.clone(), UserType::Host);
        assert(usernames@ =~= seq![(username@, UserType::Host)]);
        let chat_log: Vec<String> = Vec::new();
        assert(text::texts(chat_log@) =~= Seq::empty());
        HostScene {
            session_code,
            usernames,
            username,
            requesting_control: NameMap::new(),
            requesting_join: NameMap::new(),
            chat_log,
            chat_message: String::new(),
        }
    }

    /// Takes a packet of the server. Input has to be such that the operating
    /// system can be given it.
    pub fn on_packet(&mut self, packet: Packet) -> (event: HostEvent)
        requires
            packet@ matches protocol::PacketView::Control { payload } ==> input::is_injectable(
                payload,
            ),
        ensures
            event == (match packet@ {
                protocol::PacketView::Control { payload } => HostEvent::Inject {
                    input: input::system_input(payload),
                },
                protocol::PacketView::SessionEnd => HostEvent::Stop,
                _ => HostEvent::Nothing,
            }),
            final(self).usernames@ == (match packet@ {
                protocol::PacketView::UserUpdate { user_type, username, .. } => {
                    chat::updated_users(old(self).usernames@, username, user_type)
                },
                _ => old(self).usernames@,
            }),
            final(self).requesting_join@ == (match packet@ {
                protocol::PacketView::Join { username, .. } => names::put(
                    old(self).requesting_join@,
                    username,
                    (),
                ),
                _ => old(self).requesting_join@,
            }),
            final(self).requesting_control@ == (match packet@ {
                protocol::PacketView::RequestControl { username } => names::put(
                    old(self).requesting_control@,
                    username,
                    (),
                ),
                _ => old(self).requesting_control@,
            }),
            text::texts(final(self).chat_log@) == (match packet@ {
                protocol::PacketView::UserUpdate { user_type, username, .. } => chat::with_line(
                    text::texts(old(self).chat_log@),
                    chat::update_line(old(self).usernames@, username, user_type, false),
                ),
                protocol::PacketView::Chat { message } => text::texts(old(self).chat_log@).push(
                    message,
                ),
                _ => text::texts(old(self).chat_log@),
            }),
            final(self).session_code == old(self).session_code,
            final(self).username == old(self).username,
            final(self).chat_message == old(self).chat_message,
    {
        match packet {
            Packet::Join { username, .. } => {
                self.requesting_join.insert(username, ());
                HostEvent::Nothing
            },
            Packet::UserUpdate { user_type, username, .. } => {
                update_user(
                    &mut self.usernames,
                    &mut self.chat_log,
                    &username,
                    user_type,
                    false,
                );
                HostEvent::Nothing
            },
            Packet::Control { payload } => HostEvent::Inject { input: inject(payload) },
            Packet::RequestControl { username } => {
                self.requesting_control.insert(username, ());
                HostEvent::Nothing
            },
            Packet::Chat { message } => {
                push_text(&mut self.chat_log, message);
                HostEvent::Nothing
            },
            Packet::SessionEnd => HostEvent::Stop,
            _ => HostEvent::Nothing,
        }
    }

    /// Works on the clicks next to the requests for control.
    fn handle_control_requests(&mut self, clicks: &Vec<Click>, actions: &mut Vec<SceneAction>)
        requires
            clicks@.len() == old(self).requesting_control@.len(),
        ensures
            scene::action_views(final(actions)@) == scene::action_views(old(actions)@)
                + scene::sends(
                control_packets(old(self).usernames@, old(self).requesting_control@, clicks@),
            ),
            final(self).requesting_control@ == control_requests_after(
                old(self).requesting_control@,
                clicks@,
            ),
            *final(self) == (HostScene {
                requesting_control: final(self).requesting_control,
                ..*old(self)
            }),
    {
        broadcast use scene::lemma_sends_concatenation;

        let ghost users = self.usernames@;
        let ghost requests = self.requesting_control@;
        let ghost names = names_of(requests);
        let ghost before = scene::action_views(actions@);
        let n: usize = clicks.len();
        assert(clicks@.take(0) =~= Seq::empty());
        assert(before + scene::sends(Seq::empty()) =~= before);
        for i in 0..n
            invariant
                n == clicks@.len(),
                n == self.requesting_control@.len(),
                requests == self.requesting_control@,
                names == names_of(requests),
                *self == *old(self),
                scene::action_views(actions@) == before + scene::sends(
                    denials(names, clicks@.take(i as int)),
                ),
        {
            broadcast use scene::lemma_sends_concatenation;

            assert(clicks@.take(i + 1).drop_last() =~= clicks@.take(i as int));
            if clicks[i].deny {
                let packet: Packet = Packet::DenyControl {
                    username: self.requesting_control.name(i).clone(),
                };
                push_send(actions, packet);
                assert(names[i as int] == requests[i as int].0);
            } else {
                assert(denials(names, clicks@.take(i + 1)) =~= denials(
                    names,
                    clicks@.take(i as int),
                ));
            }
            assert(scene::action_views(actions@) =~= before + scene::sends(
                denials(names, clicks@.take(i + 1)),
            ));
        }
        assert(clicks@.take(n as int) =~= clicks@);
        let ghost first = denials(names, clicks@);
        let user: String = find_handled(&self.requesting_control, clicks);
        remove_handled(&mut self.requesting_control, &user);
        if has_allowed(clicks) {
            push_revocation(actions, &self.usernames);
            push_send(actions, Packet::RequestControl { username: user.clone() });
            push_denials(actions, &self.requesting_control);
            let ghost rest = deny_all(names_of(remaining(requests, user@)));
            let ghost allow = seq![protocol::PacketView::RequestControl { username: user@ }];
            assert(scene::action_views(actions@) =~= before + scene::sends(
                first + (revocation(users) + allow + rest),
            ));
            self.requesting_control.clear();
        } else {
            assert(first + Seq::empty() =~= first);
        }
    }

    /// Works on the clicks next to the requests to join.
    fn handle_join_requests(&mut self, clicks: &Vec<Click>, actions: &mut Vec<SceneAction>)
        requires
            clicks@.len() == old(self).requesting_join@.len(),
        ensures
            scene::action_views(final(actions)@) == scene::action_views(old(actions)@)
                + scene::sends(join_packets(names_of(old(self).requesting_join@), clicks@)),
            final(self).requesting_join@ == remaining(
                old(self).requesting_join@,
                handled(names_of(old(self).requesting_join@), clicks@),
            ),
            *final(self) == (HostScene {
                requesting_join: final(self).requesting_join,
                ..*old(self)
            }),
    {
        broadcast use scene::lemma_sends_concatenation;

        let ghost requests = self.requesting_join@;
        let ghost names = names_of(requests);
        let ghost before = scene::action_views(actions@);
        let n: usize = clicks.len();
        assert(clicks@.take(0) =~= Seq::empty());
        assert(before + scene::sends(Seq::empty()) =~= before);
        for i in 0..n
            invariant
                n == clicks@.len(),
                n == self.requesting_join@.len(),
                requests == self.requesting_join@,
                names == names_of(requests),
                *self == *old(self),
                scene::action_views(actions@) == before + scene::sends(
                    join_packets(names, clicks@.take(i as int)),
                ),
        {
            broadcast use scene::lemma_sends_concatenation;

            let ghost earlier = join_packets(names, clicks@.take(i as int));
            assert(clicks@.take(i + 1).drop_last() =~= clicks@.take(i as int));
            assert(names[i as int] == requests[i as int].0);
            if clicks[i].allow {
                push_send(
                    actions,
                    Packet::Join { code: 0, username: self.requesting_join.name(i).clone() },
                );
            }
            if clicks[i].deny {
                push_send(
                    actions,
                    Packet::DenyJoin { username: self.requesting_join.name(i).clone() },
                );
            }
            assert(scene::action_views(actions@) =~= before + scene::sends(
                join_packets(names, clicks@.take(i + 1)),
            ));
        }
        assert(clicks@.take(n as int) =~= clicks@);
        let user: String = find_handled(&self.requesting_join, clicks);
        remove_handled(&mut self.requesting_join, &user);
    }

    /// The actions with which the client ends, before it closes the channel.
    pub fn on_exit(&self) -> (actions: Vec<SceneAction>)
        ensures
            scene::action_views(actions@) == leave_actions() + scene::last_actions(),
    {
        let mut actions: Vec<SceneAction> = Vec::new();
        assert(scene::action_views(actions@) =~= Seq::empty());
        push_leave(&mut actions);
        push_goodbye(&mut actions);
        assert(scene::action_views(actions@) =~= leave_actions() + scene::last_actions());
        actions
    }

    /// Works on a frame.
    pub fn update(&mut self, input: &HostInput) -> (frame: HostFrame)
        requires
            fits(*old(self), *input),
        ensures
            scene::action_views(frame.actions@) == host_actions(
                old(self).usernames@,
                old(self).requesting_control@,
                old(self).requesting_join@,
                *input,
            ),
            frame.change@ == if input.end_session {
                scene::SceneChangeView::Menu {
                    username: old(self).username@,
                    status_message: Seq::empty(),
                }
            } else {
                scene::SceneChangeView::Stay
            },
            final(self).requesting_control@ == control_requests_after(
                old(self).requesting_control@,
                input.control_clicks@,
            ),
            final(self).requesting_join@ == remaining(
                old(self).requesting_join@,
                handled(names_of(old(self).requesting_join@), input.join_clicks@),
            ),
            *final(self) == (HostScene {
                requesting_control: final(self).requesting_control,
                requesting_join: final(self).requesting_join,
                ..*old(self)
            }),
    {
        let mut actions: Vec<SceneAction> = Vec::new();
        assert(scene::action_views(actions@) =~= Seq::empty());
        self.handle_control_requests(&input.control_clicks, &mut actions);
        self.handle_join_requests(&input.join_clicks, &mut actions);
        match revoke_clicked(&self.usernames, &input.revoke_clicks) {
            Some(controller) => {
                push_send(&mut actions, Packet::DenyControl { username: controller });
            },
            None => {},
        }
        let mut change: SceneChange = SceneChange::Stay;
        if input.end_session {
            push_leave(&mut actions);
            change = SceneChange::Menu {
                username: self.username.clone(),
                status_message: String::new(),
            };
            assert(change@ == (scene::SceneChangeView::Menu {
                username: old(self).username@,
                status_message: Seq::empty(),
            }));
        }
        if input.revoke_hotkey {
            push_revocation(&mut actions, &self.usernames);
        }
        assert(scene::action_views(actions@) =~= host_actions(
            old(self).usernames@,
            old(self).requesting_control@,
            old(self).requesting_join@,
            *input,
        ));
        HostFrame { actions, change }
    }
}

/// A session after the server has worked on packets of its host.
pub open spec fn served(
    session: session::SessionView,
    host_username: Seq<char>,
    packets: Seq<protocol::PacketView>,
) -> session::SessionView
    decreases packets.len(),
{
    if packets.len() == 0 {
        session
    } else {
        let before = served(session, host_username, packets.drop_last());
        session::run(before, host::host_plan(before, host_username, packets.last()))
    }
}

/// Whether nobody but `user` has control of a session.
pub open spec fn controlled_by_at_most(
    session: session::SessionView,
    user: Option<Seq<char>>,
) -> bool {
    forall|name: Seq<char>|
        (names::holds(session.connections, name) && (#[trigger] names::lookup(
            session.connections,
            name,
        ))->Some_0.user_type == UserType::Controller) ==> Some(name) == user
}

/// Serving one list of packets and then another is serving both.
proof fn lemma_served_concatenation(
    session: session::SessionView,
    host_username: Seq<char>,
    a: Seq<protocol::PacketView>,
    b: Seq<protocol::PacketView>,
)
    ensures
        served(session, host_username, a + b) == served(
            served(session, host_username, a),
            host_username,
            b,
        ),
    decreases b.len(),
{
    if b.len() == 0 {
        assert(a + b =~= a);
    } else {
        assert((a + b).drop_last() =~= a + b.drop_last());
        lemma_served_concatenation(session, host_username, a, b.drop_last());
    }
}

/// Denying control to users gives control to nobody, takes it from those who
/// are named, and leaves the others as they are.
proof fn lemma_denials_served(
    session: session::SessionView,
    host_username: Seq<char>,
    names: Seq<Seq<char>>,
    user: Option<Seq<char>>,
)
    requires
        session::well_formed(session),
        controlled_by_at_most(session, user),
    ensures
        ({
            let after = served(session, host_username, deny_all(names));
            &&& session::well_formed(after)
            &&& controlled_by_at_most(
                after,
                if user is Some && names.contains(user->Some_0) {
                    None
                } else {
                    user
                },
            )
            &&& forall|name: Seq<char>| #[trigger]
                names::holds(after.connections, name) == names::holds(session.connections, name)
            &&& forall|name: Seq<char>|
                !names.contains(name) ==> #[trigger] names::lookup(after.connections, name)
                    == names::lookup(session.connections, name)
        }),
    decreases names.len(),
{
    if names.len() > 0 {
        let earlier = names.drop_last();
        lemma_denials_served(session, host_username, earlier, user);
        assert(deny_all(names).drop_last() =~= deny_all(earlier));
        let before = served(session, host_username, deny_all(earlier));
        let denied = names.last();
        let packet = deny_control(denied);
        let plan = host::host_plan(before, host_username, packet);
        let after = session::run(before, plan);
        assert(after == served(session, host_username, deny_all(names)));
        session::law_run_keeps_names_distinct(before, plan);
        assert forall|name: Seq<char>| earlier.contains(name) implies names.contains(name) by {
            let i = earlier.index_of(name);
            assert(names[i] == name);
        }
        assert(names.contains(denied)) by {
            assert(names[names.len() - 1] == denied);
        }
        assert forall|name: Seq<char>| names.contains(name) implies earlier.contains(name) || name
            == denied by {
            let i = names.index_of(name);
            if i < earlier.len() {
                assert(earlier[i] == name);
            }
        }
        if names::holds(before.connections, denied) {
            let connection = names::lookup(before.connections, denied)->Some_0;
            let changed = Connection { user_type: UserType::Participant, ..connection };
            host::law_control(before, host_username, denied);
            assert forall|name: Seq<char>| name != denied implies #[trigger] names::lookup(
                after.connections,
                name,
            ) == names::lookup(before.connections, name) by {
                names::law_put(before.connections, denied, changed, name);
            }
            names::law_put(before.connections, denied, changed, denied);
            assert forall|name: Seq<char>| #[trigger]
                names::holds(after.connections, name) == names::holds(before.connections, name) by {
                if name != denied {
                    assert(names::lookup(after.connections, name) == names::lookup(
                        before.connections,
                        name,
                    ));
                }
            }
        } else {
            assert(plan.len() == 0);
            assert(after == before);
        }
        let left = if user is Some && names.contains(user->Some_0) {
            None
        } else {
            user
        };
        assert forall|name: Seq<char>|
            (names::holds(after.connections, name) && (#[trigger] names::lookup(
                after.connections,
                name,
            ))->Some_0.user_type == UserType::Controller) implies Some(name) == left by {
            if name != denied || !names::holds(before.connections, denied) {
                assert(names::lookup(after.connections, name) == names::lookup(
                    before.connections,
                    name,
                ));
                assert(names::holds(before.connections, name));
            }
        }
    } else {
        assert(deny_all(names) =~= Seq::empty());
    }
}

/// Denials are denials of a list of names.
proof fn lemma_denials_are_denials(names: Seq<Seq<char>>, clicks: Seq<Click>) -> (denied: Seq<
    Seq<char>,
>)
    ensures
        denials(names, clicks) == deny_all(denied),
    decreases clicks.len(),
{
    if clicks.len() == 0 {
        let none = Seq::<Seq<char>>::empty();
        assert(deny_all(none) =~= denials(names, clicks));
        none
    } else {
        let earlier = lemma_denials_are_denials(names, clicks.drop_last());
        if clicks.last().deny {
            let denied = earlier.push(names[clicks.len() - 1]);
            assert(deny_all(denied) =~= denials(names, clicks));
            denied
        } else {
            assert(deny_all(earlier) =~= denials(names, clicks));
            earlier
        }
    }
}

/// When the host allows a request for control, the user who asked becomes the
/// one and only controller of the session: the packets that the scene sends
/// take control from the current controller first. The host has to know the
/// one who has control, as it does from the updates of the server.
pub proof fn law_one_controller(
    session: session::SessionView,
    host_username: Seq<char>,
    users: users_list::Users,
    requests: Requests,
    clicks: Seq<Click>,
)
    requires
        session::well_formed(session),
        names::distinct(requests),
        clicks.len() == requests.len(),
        any_allowed(clicks),
        handled(names_of(requests), clicks).len() > 0,
        names::holds(session.connections, handled(names_of(requests), clicks)),
        controlled_by_at_most(session, users_list::first_controller(users)),
    ensures
        ({
            let user = handled(names_of(requests), clicks);
            let after = served(session, host_username, control_packets(users, requests, clicks));
            &&& controlled_by_at_most(after, Some(user))
            &&& names::lookup(after.connections, user) is Some
            &&& names::lookup(after.connections, user)->Some_0.user_type == UserType::Controller
        }),
{
    let user = handled(names_of(requests), clicks);
    let controller = users_list::first_controller(users);
    let denied = lemma_denials_are_denials(names_of(requests), clicks);
    let a = denials(names_of(requests), clicks);
    let b = revocation(users);
    let c = seq![protocol::PacketView::RequestControl { username: user }];
    let rest = names_of(remaining(requests, user));
    let d = deny_all(rest);
    assert(control_packets(users, requests, clicks) =~= a + (b + (c + d)));
    lemma_served_concatenation(session, host_username, a, b + (c + d));
    let s1 = served(session, host_username, a);
    lemma_denials_served(session, host_username, denied, controller);
    lemma_served_concatenation(s1, host_username, b, c + d);
    let s2 = served(s1, host_username, b);
    let revoked = match controller {
        Some(controller) => seq![controller],
        None => Seq::<Seq<char>>::empty(),
    };
    assert(b =~= deny_all(revoked));
    assert(controlled_by_at_most(s1, controller));
    lemma_denials_served(s1, host_username, revoked, controller);
    if let Some(name) = controller {
        assert(revoked[0] == name);
    }
    assert(controlled_by_at_most(s2, None));
    assert(names::holds(s2.connections, user));
    lemma_served_concatenation(s2, host_username, c, d);
    let s3 = served(s2, host_username, c);
    assert(c.drop_last() =~= Seq::empty());
    let plan = host::host_plan(s2, host_username, c[0]);
    reveal_with_fuel(served, 2);
    assert(s3 == session::run(s2, plan));
    host::law_control(s2, host_username, user);
    session::law_run_keeps_names_distinct(s2, plan);
    let connection = names::lookup(s2.connections, user)->Some_0;
    let changed = Connection { user_type: UserType::Controller, ..connection };
    names::law_put(s2.connections, user, changed, user);
    assert forall|name: Seq<char>|
        (names::holds(s3.connections, name) && (#[trigger] names::lookup(
            s3.connections,
            name,
        ))->Some_0.user_type == UserType::Controller) implies Some(name) == Some(user) by {
        if name != user {
            names::law_put(s2.connections, user, changed, name);
            assert(names::lookup(s2.connections, name) == names::lookup(s3.connections, name));
        }
    }
    assert(!rest.contains(user)) by {
        names::law_without(requests, user, user);
        if rest.contains(user) {
            let i = rest.index_of(user);
            assert(names::without(requests, user)[i].0 == user);
        }
    }
    lemma_denials_served(s3, host_username, rest, Some(user));
}

/// What the clicks on "Deny" give.
proof fn lemma_denials(names: Seq<Seq<char>>, clicks: Seq<Click>, packet: protocol::PacketView)
    requires
        clicks.len() <= names.len(),
    ensures
        denials(names, clicks).contains(packet) <==> exists|i: int|
            0 <= i < clicks.len() && (#[trigger] clicks[i]).deny && packet
                == (protocol::PacketView::DenyControl { username: names[i] }),
    decreases clicks.len(),
{
    if clicks.len() > 0 {
        let n = clicks.len() - 1;
        let earlier = denials(names, clicks.drop_last());
        lemma_denials(names, clicks.drop_last(), packet);
        assert forall|i: int| 0 <= i < n implies clicks.drop_last()[i] == #[trigger] clicks[i] by {}
        if clicks.last().deny {
            let last = seq![deny_control(names[n])];
            vstd::seq_lib::lemma_seq_concat_contains_all_elements(earlier, last, packet);
            assert(last[0] == deny_control(names[n]));
            assert(clicks[n].deny);
        } else {
            assert(earlier + Seq::empty() =~= earlier);
        }
        if earlier.contains(packet) {
            let i = choose|i: int|
                0 <= i < n && (#[trigger] clicks.drop_last()[i]).deny && packet
                    == (protocol::PacketView::DenyControl { username: names[i] });
            assert(clicks[i].deny);
        }
        if exists|i: int|
            0 <= i < clicks.len() && (#[trigger] clicks[i]).deny && packet
                == (protocol::PacketView::DenyControl { username: names[i] }) {
            let i = choose|i: int|
                0 <= i < clicks.len() && (#[trigger] clicks[i]).deny && packet
                    == (protocol::PacketView::DenyControl { username: names[i] });
            if i < n {
                assert(clicks.drop_last()[i].deny);
            }
        }
    }
}

/// The request that was handled is the last one with a click.
proof fn lemma_handled(names: Seq<Seq<char>>, clicks: Seq<Click>) -> (at: int)
    requires
        clicks.len() <= names.len(),
    ensures
        -1 <= at < clicks.len(),
        at >= 0 ==> (clicks[at].allow || clicks[at].deny) && handled(names, clicks) == names[at],
        at == -1 ==> handled(names, clicks).len() == 0,
        forall|j: int|
            at < j < clicks.len() ==> !(#[trigger] clicks[j]).allow && !clicks[j].deny,
    decreases clicks.len(),
{
    if clicks.len() == 0 {
        -1
    } else if clicks.last().allow || clicks.last().deny {
        clicks.len() - 1
    } else {
        let at = lemma_handled(names, clicks.drop_last());
        assert forall|j: int| at < j < clicks.len() implies !(#[trigger] clicks[j]).allow
            && !clicks[j].deny by {
            if j < clicks.len() - 1 {
                assert(clicks.drop_last()[j] == clicks[j]);
            }
        }
        if at >= 0 {
            assert(clicks.drop_last()[at] == clicks[at]);
        }
        at
    }
}

/// The name that stands in a row of the requests.
proof fn lemma_names_of(requests: Requests, i: int)
    requires
        0 <= i < requests.len(),
    ensures
        names_of(requests).len() == requests.len(),
        names_of(requests)[i] == requests[i].0,
{
}

/// What stands in the list of denials for names.
proof fn lemma_deny_all(requests: Requests, packet: protocol::PacketView)
    ensures
        deny_all(names_of(requests)).contains(packet) <==> exists|i: int|
            0 <= i < requests.len() && packet == (protocol::PacketView::DenyControl {
                username: (#[trigger] requests[i]).0,
            }),
{
    let all = deny_all(names_of(requests));
    assert forall|i: int| 0 <= i < requests.len() implies #[trigger] all[i]
        == (protocol::PacketView::DenyControl { username: requests[i].0 }) by {}
    if all.contains(packet) {
        let i = all.index_of(packet);
        assert(packet == (protocol::PacketView::DenyControl { username: requests[i].0 }));
    }
    if exists|i: int|
        0 <= i < requests.len() && packet == (protocol::PacketView::DenyControl {
            username: (#[trigger] requests[i]).0,
        }) {
        let i = choose|i: int|
            0 <= i < requests.len() && packet == (protocol::PacketView::DenyControl {
                username: (#[trigger] requests[i]).0,
            });
        assert(all[i] == packet);
    }
}

/// Control is taken back from a user who has it, if there is one, and from
/// nobody else.
pub proof fn law_revocation_names_a_controller(users: users_list::Users)
    ensures
        revocation(users).len() <= 1,
        (exists|k: int|
            0 <= k < users.len() && (#[trigger] users[k]).1 == UserType::Controller) <==> revocation(
            users,
        ).len() == 1,
        revocation(users).len() == 1 ==> exists|k: int|
            0 <= k < users.len() && (#[trigger] users[k]).1 == UserType::Controller
                && revocation(users)[0] == (protocol::PacketView::DenyControl {
                username: users[k].0,
            }),
{
    users_list::law_first_controller(users);
}

/// Control is given to the user next to whose request "Allow" was clicked, and
/// to nobody else: there is one packet that gives control, and it names that
/// user. Everybody else who asked is denied, and so is whoever has control
/// before; the one who is allowed is not denied after it. No request is left.
pub proof fn law_allowed_user_gets_control(
    users: users_list::Users,
    requests: Requests,
    clicks: Seq<Click>,
    i: int,
)
    requires
        names::distinct(requests),
        clicks.len() == requests.len(),
        0 <= i < clicks.len(),
        clicks[i].allow,
        forall|j: int| 0 <= j < clicks.len() ==> !(#[trigger] clicks[j]).deny,
        forall|j: int| 0 <= j < clicks.len() && j != i ==> !(#[trigger] clicks[j]).allow,
    ensures
        ({
            let packets = control_packets(users, requests, clicks);
            let chosen = requests[i].0;
            &&& forall|name: Seq<char>| #[trigger]
                packets.contains(protocol::PacketView::RequestControl { username: name })
                    <==> name == chosen
            &&& forall|p: int, q: int|
                0 <= p < q < packets.len() ==> !((#[trigger] packets[p]) is RequestControl && (
                #[trigger] packets[q]) is RequestControl)
            &&& forall|j: int|
                0 <= j < requests.len() && (#[trigger] requests[j]).0 != chosen
                    ==> packets.contains(
                    protocol::PacketView::DenyControl { username: requests[j].0 },
                )
            &&& (exists|k: int| 0 <= k < users.len() && (#[trigger] users[k]).1
                == UserType::Controller) ==> exists|k: int|
                {
                    &&& 0 <= k < users.len()
                    &&& (#[trigger] users[k]).1 == UserType::Controller
                    &&& packets[0] == (protocol::PacketView::DenyControl { username: users[k].0 })
                }
            &&& chosen.len() > 0 && packets.contains(
                protocol::PacketView::DenyControl { username: chosen },
            ) ==> exists|k: int|
                {
                    &&& 0 <= k < users.len()
                    &&& #[trigger] users[k] == (chosen, UserType::Controller)
                    &&& packets[0] == (protocol::PacketView::DenyControl { username: chosen })
                }
            &&& control_requests_after(requests, clicks).len() == 0
        }),
{
    let names = names_of(requests);
    let packets = control_packets(users, requests, clicks);
    let chosen = requests[i].0;
    lemma_names_of(requests, i);
    let at = lemma_handled(names, clicks);
    assert(at == i) by {
        if at < i {
            assert(clicks[i].allow);
        } else if at > i {
            assert(!clicks[at].allow && !clicks[at].deny);
        }
    }
    assert(any_allowed(clicks));
    let first = denials(names, clicks);
    assert(first =~= Seq::empty()) by {
        if first.len() > 0 {
            lemma_denials(names, clicks, first[0]);
            assert(first.contains(first[0]));
        }
    }
    let revoked = revocation(users);
    law_revocation_names_a_controller(users);
    let given = seq![protocol::PacketView::RequestControl { username: chosen }];
    let rest = remaining(requests, chosen);
    let others = deny_all(names_of(rest));
    assert(packets =~= revoked + given + others);
    let n = revoked.len() as int;
    assert(packets[n] == given[0]);
    assert forall|p: int| 0 <= p < packets.len() && p != n implies (#[trigger] packets[p]) is DenyControl by {
        if p < n {
            assert(packets[p] == revoked[p]);
        } else {
            assert(packets[p] == others[p - n - 1]);
        }
    }
    assert forall|name: Seq<char>| #[trigger]
        packets.contains(protocol::PacketView::RequestControl { username: name }) <==> name
            == chosen by {
        let packet = protocol::PacketView::RequestControl { username: name };
        if packets.contains(packet) {
            let p = packets.index_of(packet);
            assert(packets[p] is RequestControl);
        }
    }
    assert forall|j: int| 0 <= j < requests.len() && (#[trigger] requests[j]).0 != chosen implies packets.contains(
        protocol::PacketView::DenyControl { username: requests[j].0 },
    ) by {
        let packet = protocol::PacketView::DenyControl { username: requests[j].0 };
        names::lemma_position(requests, requests[j].0, j);
        names::law_without(requests, chosen, requests[j].0);
        assert(names::holds(rest, requests[j].0));
        let k = names::position(rest, requests[j].0);
        assert(rest[k].0 == requests[j].0);
        lemma_deny_all(rest, packet);
        let q = others.index_of(packet);
        assert(packets[n + 1 + q] == packet);
    }
    if n > 0 {
        assert(packets[0] == revoked[0]);
    }
    let denied = protocol::PacketView::DenyControl { username: chosen };
    if chosen.len() > 0 && packets.contains(denied) {
        let p = packets.index_of(denied);
        if p > n {
            assert(others[p - n - 1] == denied);
            assert(others.contains(denied));
            lemma_deny_all(rest, denied);
            names::law_without(requests, chosen, chosen);
            assert(false);
        }
        assert(p == 0);
        let k = choose|k: int|
            0 <= k < users.len() && (#[trigger] users[k]).1 == UserType::Controller && revoked[0]
                == (protocol::PacketView::DenyControl { username: users[k].0 });
        assert(users[k] == (chosen, UserType::Controller));
    }
}

/// If no request for control is allowed, exactly those are denied next to which
/// "Deny" was clicked, and nobody is given control.
pub proof fn law_denied_users_are_told(
    users: users_list::Users,
    requests: Requests,
    clicks: Seq<Click>,
    packet: protocol::PacketView,
)
    requires
        clicks.len() == requests.len(),
        forall|j: int| 0 <= j < clicks.len() ==> !(#[trigger] clicks[j]).allow,
    ensures
        control_packets(users, requests, clicks).contains(packet) <==> exists|j: int|
            0 <= j < clicks.len() && (#[trigger] clicks[j]).deny && packet
                == (protocol::PacketView::DenyControl { username: requests[j].0 }),
{
    let names = names_of(requests);
    assert(!any_allowed(clicks));
    assert(control_packets(users, requests, clicks) =~= denials(names, clicks));
    lemma_denials(names, clicks, packet);
    assert forall|j: int| 0 <= j < requests.len() implies names[j] == (#[trigger] requests[j]).0 by {}
    if denials(names, clicks).contains(packet) {
        let j = choose|j: int|
            0 <= j < clicks.len() && (#[trigger] clicks[j]).deny && packet
                == (protocol::PacketView::DenyControl { username: names[j] });
        assert(clicks[j].deny && names[j] == requests[j].0);
    }
    if exists|j: int|
        0 <= j < clicks.len() && (#[trigger] clicks[j]).deny && packet
            == (protocol::PacketView::DenyControl { username: requests[j].0 }) {
        let j = choose|j: int|
            0 <= j < clicks.len() && (#[trigger] clicks[j]).deny && packet
                == (protocol::PacketView::DenyControl { username: requests[j].0 });
        assert(clicks[j].deny && names[j] == requests[j].0);
    }
}

/// A request next to which nothing was clicked is still there after the frame,
/// unless another request for control was allowed; one that was clicked alone
/// is gone.
pub proof fn law_clicked_requests_are_gone(requests: Requests, clicks: Seq<Click>, i: int)
    requires
        names::distinct(requests),
        clicks.len() == requests.len(),
        0 <= i < clicks.len(),
    ensures
        ({
            let left = remaining(requests, handled(names_of(requests), clicks));
            &&& !clicks[i].allow && !clicks[i].deny ==> names::holds(left, requests[i].0)
            &&& ((clicks[i].allow || clicks[i].deny) && requests[i].0.len() > 0 && (forall|j: int|
                0 <= j < clicks.len() && j != i ==> !(#[trigger] clicks[j]).allow
                    && !clicks[j].deny)) ==> !names::holds(left, requests[i].0)
            &&& (forall|j: int| 0 <= j < clicks.len() ==> !(#[trigger] clicks[j]).allow)
                ==> control_requests_after(requests, clicks) == left
        }),
{
    let names = names_of(requests);
    let at = lemma_handled(names, clicks);
    let user = handled(names, clicks);
    lemma_names_of(requests, i);
    names::lemma_position(requests, requests[i].0, i);
    if at >= 0 {
        lemma_names_of(requests, at);
        names::law_without(requests, user, requests[i].0);
        if at != i {
            assert(requests[at].0 != requests[i].0) by {
                if at < i {
                    assert(requests[at].0 != requests[i].0);
                } else {
                    assert(requests[i].0 != requests[at].0);
                }
            }
        }
    }
    if (clicks[i].allow || clicks[i].deny) && (forall|j: int|
        0 <= j < clicks.len() && j != i ==> !(#[trigger] clicks[j]).allow && !clicks[j].deny) {
        if at < i {
            assert(!clicks[i].allow && !clicks[i].deny);
        } else if at > i {
            assert(!clicks[at].allow && !clicks[at].deny);
        }
        names::law_without(requests, user, user);
    }
}

/// Whoever is allowed to join is let in, and whoever is denied is turned away:
/// the packets name exactly those next to whom the button was clicked.
pub proof fn law_join_requests_are_answered(
    names: Seq<Seq<char>>,
    clicks: Seq<Click>,
    packet: protocol::PacketView,
)
    requires
        clicks.len() <= names.len(),
    ensures
        join_packets(names, clicks).contains(packet) <==> exists|i: int|
            0 <= i < clicks.len() && (((#[trigger] clicks[i]).allow && packet
                == (protocol::PacketView::Join { code: 0, username: names[i] })) || (clicks[i].deny
                && packet == (protocol::PacketView::DenyJoin { username: names[i] }))),
    decreases clicks.len(),
{
    if clicks.len() > 0 {
        let n = clicks.len() - 1;
        let name = names[n];
        let earlier = join_packets(names, clicks.drop_last());
        law_join_requests_are_answered(names, clicks.drop_last(), packet);
        let allow = if clicks.last().allow {
            seq![protocol::PacketView::Join { code: 0, username: name }]
        } else {
            Seq::empty()
        };
        let deny = if clicks.last().deny {
            seq![protocol::PacketView::DenyJoin { username: name }]
        } else {
            Seq::empty()
        };
        assert(join_packets(names, clicks) == earlier + allow + deny);
        vstd::seq_lib::lemma_seq_concat_contains_all_elements(earlier + allow, deny, packet);
        vstd::seq_lib::lemma_seq_concat_contains_all_elements(earlier, allow, packet);
        if clicks.last().allow {
            assert(allow[0] == protocol::PacketView::Join { code: 0, username: name });
        }
        if clicks.last().deny {
            assert(deny[0] == protocol::PacketView::DenyJoin { username: name });
        }
        if earlier.contains(packet) {
            let i = choose|i: int|
                0 <= i < n && (((#[trigger] clicks.drop_last()[i]).allow && packet
                    == (protocol::PacketView::Join { code: 0, username: names[i] })) || (
                clicks.drop_last()[i].deny && packet == (protocol::PacketView::DenyJoin {
                    username: names[i],
                })));
            assert(clicks[i] == clicks.drop_last()[i]);
        } else if allow.contains(packet) || deny.contains(packet) {
            assert(clicks[n] == clicks.last());
        }
        if exists|i: int|
            0 <= i < clicks.len() && (((#[trigger] clicks[i]).allow && packet
                == (protocol::PacketView::Join { code: 0, username: names[i] })) || (clicks[i].deny
                && packet == (protocol::PacketView::DenyJoin { username: names[i] }))) {
            let i = choose|i: int|
                0 <= i < clicks.len() && (((#[trigger] clicks[i]).allow && packet
                    == (protocol::PacketView::Join { code: 0, username: names[i] })) || (
                clicks[i].deny && packet == (protocol::PacketView::DenyJoin {
                    username: names[i],
                })));
            if i < n {
                assert(clicks.drop_last()[i] == clicks[i]);
            } else {
                assert(clicks.last() == clicks[i]);
            }
        }
    }
}

/// Each click next to a request to join gives one packet.
pub proof fn law_one_answer_for_each_click(names: Seq<Seq<char>>, clicks: Seq<Click>, i: int)
    requires
        clicks.len() <= names.len(),
        0 <= i < clicks.len(),
        clicks[i].allow != clicks[i].deny,
        forall|j: int|
            0 <= j < clicks.len() && j != i ==> !(#[trigger] clicks[j]).allow && !clicks[j].deny,
    ensures
        join_packets(names, clicks) == seq![
            if clicks[i].allow {
                protocol::PacketView::Join { code: 0, username: names[i] }
            } else {
                protocol::PacketView::DenyJoin { username: names[i] }
            },
        ],
    decreases clicks.len(),
{
    let earlier = join_packets(names, clicks.drop_last());
    if i < clicks.len() - 1 {
        assert(!clicks[clicks.len() - 1].allow);
        assert forall|j: int|
            0 <= j < clicks.drop_last().len() && j != i implies !(#[trigger] clicks.drop_last()[j]).allow
            && !clicks.drop_last()[j].deny by {
            assert(clicks.drop_last()[j] == clicks[j]);
        }
        law_one_answer_for_each_click(names, clicks.drop_last(), i);
        assert(join_packets(names, clicks) =~= earlier);
    } else {
        assert(earlier =~= Seq::empty()) by {
            if earlier.len() > 0 {
                law_join_requests_are_answered(names, clicks.drop_last(), earlier[0]);
                assert(earlier.contains(earlier[0]));
                let j = choose|j: int|
                    0 <= j < clicks.drop_last().len() && (((#[trigger] clicks.drop_last()[j]).allow
                        && earlier[0] == (protocol::PacketView::Join {
                        code: 0,
                        username: names[j],
                    })) || (clicks.drop_last()[j].deny && earlier[0]
                        == (protocol::PacketView::DenyJoin { username: names[j] })));
                assert(clicks.drop_last()[j] == clicks[j]);
            }
        }
        assert(join_packets(names, clicks) =~= seq![
            if clicks[i].allow {
                protocol::PacketView::Join { code: 0, username: names[i] }
            } else {
                protocol::PacketView::DenyJoin { username: names[i] }
            },
        ]);
    }
}

/// Where the button to take control back was clicked once, control is taken
/// from the controller in that row; without a click from nobody.
pub proof fn law_revoking_takes_control_back(
    users: users_list::Users,
    clicks: Seq<bool>,
    i: int,
)
    requires
        clicks.len() == users_list::names_with(users, UserType::Controller).len(),
        0 <= i < clicks.len(),
        forall|j: int| 0 <= j < clicks.len() && j != i ==> !(#[trigger] clicks[j]),
    ensures
        revoke_packets(users, clicks) == if clicks[i] {
            seq![
                protocol::PacketView::DenyControl {
                    username: users_list::names_with(users, UserType::Controller)[i],
                },
            ]
        } else {
            Seq::empty()
        },
{
    users_list::law_clicked_name(users_list::names_with(users, UserType::Controller), clicks);
}

/// What a frame of the host does: it sends what the clicks next to the
/// requests and on "Revoke Control" ask for, takes control back on the hotkey,
/// and ends the session if that was clicked, and nothing else.
pub proof fn law_host_frame(
    users: users_list::Users,
    requesting_control: Requests,
    requesting_join: Requests,
    input: HostInput,
    packet: protocol::PacketView,
)
    ensures
        ({
            let actions = host_actions(users, requesting_control, requesting_join, input);
            let sent = scene::SceneActionView::Send { packet };
            &&& actions.contains(sent) <==> {
                ||| control_packets(users, requesting_control, input.control_clicks@).contains(
                    packet,
                )
                ||| join_packets(names_of(requesting_join), input.join_clicks@).contains(packet)
                ||| revoke_packets(users, input.revoke_clicks@).contains(packet)
                ||| input.end_session && packet == protocol::PacketView::SessionExit
                ||| input.revoke_hotkey && revocation(users).contains(packet)
            }
            &&& actions.contains(scene::SceneActionView::StopVideo) == input.end_session
            &&& actions.contains(scene::SceneActionView::AwaitEnd) == input.end_session
        }),
{
    let actions = host_actions(users, requesting_control, requesting_join, input);
    let a = scene::sends(control_packets(users, requesting_control, input.control_clicks@));
    let b = scene::sends(join_packets(names_of(requesting_join), input.join_clicks@));
    let c = scene::sends(revoke_packets(users, input.revoke_clicks@));
    let d = if input.end_session {
        leave_actions()
    } else {
        Seq::empty()
    };
    let e = if input.revoke_hotkey {
        scene::sends(revocation(users))
    } else {
        Seq::empty()
    };
    assert(actions == a + b + c + d + e);
    scene::law_sends(control_packets(users, requesting_control, input.control_clicks@));
    scene::law_sends(join_packets(names_of(requesting_join), input.join_clicks@));
    scene::law_sends(revoke_packets(users, input.revoke_clicks@));
    scene::law_sends(revocation(users));
    assert forall|x: scene::SceneActionView| #[trigger]
        actions.contains(x) <==> (a.contains(x) || b.contains(x) || c.contains(x) || d.contains(x)
            || e.contains(x)) by {
        vstd::seq_lib::lemma_seq_concat_contains_all_elements(a + b + c + d, e, x);
        vstd::seq_lib::lemma_seq_concat_contains_all_elements(a + b + c, d, x);
        vstd::seq_lib::lemma_seq_concat_contains_all_elements(a + b, c, x);
        vstd::seq_lib::lemma_seq_concat_contains_all_elements(a, b, x);
    }
    if input.end_session {
        assert(d[0] == scene::SceneActionView::StopVideo);
        assert(d[1] == scene::SceneActionView::Send { packet: protocol::PacketView::SessionExit });
        assert(d[2] == scene::SceneActionView::AwaitEnd);
    }
}

/// A host who ends the session stops the video first, tells the server, and
/// waits for its last packet.
pub proof fn law_host_leaves()
    ensures
        leave_actions() == seq![
            scene::SceneActionView::StopVideo,
            scene::SceneActionView::Send { packet: protocol::PacketView::SessionExit },
            scene::SceneActionView::AwaitEnd,
        ],
{
}

} // verus!
