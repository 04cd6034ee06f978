//! What is shared by the scenes that show another user's screen.

use crate::chat;
use crate::chat::update_user;
use crate::keys;
use crate::keys::{egui_key_to_vk, Key};
use crate::modifiers_state;
use crate::modifiers_state::{ModifierKey, Modifiers, ModifiersState};
use crate::names;
use crate::names::NameMap;
use crate::protocol;
use crate::protocol::{ControlPayload, Packet, PointerButton};
use crate::scenes::scene;
use crate::scenes::scene::{push_action, push_goodbye, push_send, SceneAction};
use crate::text;
use crate::text::push_text;
use crate::user_type::UserType;
use std::collections::VecDeque;
use vstd::prelude::*;

verus! {

/// The panel on the right side.
#[derive(Clone, Copy, PartialEq, Eq, Structural, Debug)]
pub enum RightPanelType {
    UsersList,
    Chat,
}

/// Whether the user has control, or has asked for it.
#[derive(Clone, Copy, PartialEq, Eq, Structural, Debug)]
pub enum ControlState {
    /// The user can ask for control.
    Request,
    /// The user has asked for control and waits.
    Waiting,
    /// The user has control.
    Controlling,
}

/// The text of the button with which a user asks for control.
pub open spec fn control_message(state: ControlState) -> Seq<char> {
    match state {
        ControlState::Request => "Request Control"@,
        ControlState::Waiting => "Waiting for response..."@,
        ControlState::Controlling => "You're the controller!"@,
    }
}

impl ControlState {
    /// The text of the button with which a user asks for control.
    pub fn message(&self) -> (message: String)
        ensures
            message@ == control_message(*self),
    {
        match self {
            ControlState::Request => "Request Control".to_owned(),
            ControlState::Waiting => "Waiting for response...".to_owned(),
            ControlState::Controlling => "You're the controller!".to_owned(),
        }
    }
}

/// An event of the mouse or the keyboard over the picture. Positions are
/// scaled to the range from 0 to 65,535.
#[derive(Clone, Copy, PartialEq, Eq, Structural, Debug)]
pub enum InputEvent {
    /// A mouse button was pressed or released.
    PointerButton { mouse_x: u32, mouse_y: u32, button: PointerButton, pressed: bool },
    /// A key was pressed or released; the physical key may be unknown.
    Key { physical_key: Option<Key>, pressed: bool },
    /// The mouse moved.
    PointerMoved { mouse_x: u32, mouse_y: u32 },
    /// The wheel was turned, up (1) or down (-1).
    MouseWheel { delta: i32 },
    /// Anything else.
    Other,
}

/// The packet for a change of a modifier key.
pub open spec fn modifier_packet(key: ModifierKey) -> protocol::PacketView {
    protocol::PacketView::Control {
        payload: ControlPayload::Keyboard { pressed: key.pressed, key: key.key },
    }
}

/// The packet for an event, if it is passed on: keys without a code are not.
pub open spec fn event_packet(event: InputEvent) -> Seq<protocol::PacketView> {
    match event {
        InputEvent::PointerButton { mouse_x, mouse_y, button, pressed } => seq![
            protocol::PacketView::Control {
                payload: ControlPayload::MouseClick { mouse_x, mouse_y, pressed, button },
            },
        ],
        InputEvent::Key { physical_key, pressed } => match physical_key {
            Some(key) => match keys::key_code(key) {
                Some(code) => seq![
                    protocol::PacketView::Control {
                        payload: ControlPayload::Keyboard { pressed, key: code },
                    },
                ],
                None => Seq::empty(),
            },
            None => Seq::empty(),
        },
        InputEvent::PointerMoved { mouse_x, mouse_y } => seq![
            protocol::PacketView::Control {
                payload: ControlPayload::MouseMove { mouse_x, mouse_y },
            },
        ],
        InputEvent::MouseWheel { delta } => seq![
            protocol::PacketView::Control { payload: ControlPayload::Scroll { delta } },
        ],
        InputEvent::Other => Seq::empty(),
    }
}

/// The packets for a row of events.
pub open spec fn event_packets(events: Seq<InputEvent>) -> Seq<protocol::PacketView>
    decreases events.len(),
{
    if events.len() == 0 {
        Seq::empty()
    } else {
        event_packets(events.drop_last()) + event_packet(events.last())
    }
}

/// The packets for the modifier keys that changed.
pub open spec fn modifier_packets(keys: Seq<ModifierKey>) -> Seq<protocol::PacketView> {
    keys.map_values(|key: ModifierKey| modifier_packet(key))
}

/// The changes of the modifier keys in a frame.
pub open spec fn modifier_changes(state: ModifiersState, modifiers: Modifiers) -> Seq<ModifierKey> {
    modifiers_state::change(state.command, modifiers.command, modifiers_state::VK_CONTROL)
        + modifiers_state::change(state.alt, modifiers.alt, modifiers_state::VK_MENU)
        + modifiers_state::change(state.shift, modifiers.shift, modifiers_state::VK_SHIFT)
}

/// Whether the state of the modifier keys is up to date after a frame.
pub open spec fn follows(before: ModifiersState, modifiers: Modifiers, after: ModifiersState) -> bool {
    &&& after.command == modifiers_state::next_state(before.command, modifiers.command)
    &&& after.alt == modifiers_state::next_state(before.alt, modifiers.alt)
    &&& after.shift == modifiers_state::next_state(before.shift, modifiers.shift)
    &&& after.keys@ == modifier_changes(before, modifiers)
}

/// What a user does in a frame.
pub struct ViewerInput {
    /// It is time for the next picture.
    pub frame_due: bool,
    /// The panel that is selected.
    pub right_panel_type: RightPanelType,
    /// "Disconnect" was clicked.
    pub disconnect: bool,
    /// The button with which control is asked for was clicked.
    pub request_control: bool,
    /// The mouse is over the picture.
    pub hovered: bool,
    /// The modifier keys that are down.
    pub modifiers: Modifiers,
    /// The events of the frame.
    pub events: Vec<InputEvent>,
}

/// A user who watches the screen of a host, and may control it.
pub struct Viewer {
    /// The pictures that are still to be shown.
    pub frame_queue: VecDeque<Vec<u8>>,
    /// The picture that is shown.
    pub current_frame: Vec<u8>,
    /// The modifier keys.
    pub modifiers_state: ModifiersState,
    /// Whether the session is over.
    pub stopped: bool,
    /// The panel that is selected.
    pub right_panel_type: RightPanelType,
    /// The users of the session.
    pub usernames: NameMap<UserType>,
    /// The name of the user.
    pub username: String,
    /// Whether the user has control.
    pub control: ControlState,
    /// The chat.
    pub chat_log: Vec<String>,
    /// The message that is being typed.
    pub chat_message: String,
}

/// What is to be done for a packet of the server.
#[derive(PartialEq, Eq, Debug)]
pub enum ViewerEvent {
    /// Nothing.
    Nothing,
    /// Hand a piece of video to the decoder.
    Decode { bytes: Vec<u8> },
    /// Stop to receive packets.
    Stop,
    /// Send the packet back, and stop to receive packets.
    ConfirmEnd,
}

/// The number of pictures that may wait.
pub const MAX_WAITING_FRAMES: usize = 4;

/// The pictures that wait after another one came: the oldest makes room.
pub open spec fn queue_with(queue: Seq<Vec<u8>>, frame: Vec<u8>) -> Seq<Vec<u8>> {
    if queue.len() > 3 {
        queue.skip(1).push(frame)
    } else {
        queue.push(frame)
    }
}

/// The users after a packet.
pub open spec fn users_after(
    users: Seq<(Seq<char>, UserType)>,
    packet: protocol::PacketView,
) -> Seq<(Seq<char>, UserType)> {
    match packet {
        protocol::PacketView::UserUpdate { user_type, username, .. } => chat::updated_users(
            users,
            username,
            user_type,
        ),
        _ => users,
    }
}

/// The state of control after a packet.
pub open spec fn control_after(control: ControlState, packet: protocol::PacketView) -> ControlState {
    match packet {
        protocol::PacketView::RequestControl { .. } => ControlState::Controlling,
        protocol::PacketView::DenyControl { .. } => ControlState::Request,
        _ => control,
    }
}

/// The line with which the log tells that a request was denied. Who had
/// control already is not told so.
pub open spec fn denial_line(control: ControlState) -> Option<Seq<char>> {
    if control != ControlState::Controlling {
        Some("#rYour control request was denied by the host."@)
    } else {
        None
    }
}

/// The log after a packet; `tell_denials` says whether denied requests are
/// noted.
pub open spec fn log_after(
    log: Seq<Seq<char>>,
    users: Seq<(Seq<char>, UserType)>,
    control: ControlState,
    packet: protocol::PacketView,
    tell_denials: bool,
) -> Seq<Seq<char>> {
    match packet {
        protocol::PacketView::UserUpdate { user_type, joined_before, username } => chat::with_line(
            log,
            chat::update_line(users, username, user_type, joined_before),
        ),
        protocol::PacketView::DenyControl { .. } => if tell_denials {
            chat::with_line(log, denial_line(control))
        } else {
            log
        },
        protocol::PacketView::Chat { message } => log.push(message),
        _ => log,
    }
}

/// What is to be done for a packet of the server.
pub open spec fn is_event_for(event: ViewerEvent, packet: protocol::PacketView) -> bool {
    match packet {
        protocol::PacketView::Screen { bytes } => event is Decode && event->bytes@ == bytes,
        protocol::PacketView::SessionExit => event is Stop,
        protocol::PacketView::SessionEnd => event is ConfirmEnd,
        _ => event is Nothing,
    }
}

/// The actions with which a user leaves the session.
pub open spec fn leave_actions() -> Seq<scene::SceneActionView> {
    seq![
        scene::SceneActionView::Send { packet: protocol::PacketView::SessionExit },
        scene::SceneActionView::AwaitEnd,
        scene::SceneActionView::StopVideo,
    ]
}

/// The actions of the frame in which the end of the session is noticed.
pub open spec fn end_actions() -> Seq<scene::SceneActionView> {
    seq![scene::SceneActionView::StopVideo, scene::SceneActionView::AwaitEnd]
}

/// The actions of a frame in which the session goes on.
pub open spec fn frame_actions(
    username: Seq<char>,
    control: ControlState,
    modifiers: ModifiersState,
    input: ViewerInput,
) -> Seq<scene::SceneActionView> {
    (if input.disconnect {
        leave_actions()
    } else {
        Seq::empty()
    }) + (if asks(control, input) {
        scene::sends(seq![protocol::PacketView::RequestControl { username }])
    } else {
        Seq::empty()
    }) + (if controls(control, input) {
        scene::sends(
            modifier_packets(modifier_changes(modifiers, input.modifiers)) + event_packets(
                input.events@,
            ),
        )
    } else {
        Seq::empty()
    })
}

/// Whether a user asks for control in a frame: the button can be clicked only
/// by who has not asked yet.
pub open spec fn asks(control: ControlState, input: ViewerInput) -> bool {
    input.request_control && control == ControlState::Request
}

/// Whether a user's input is passed on in a frame.
pub open spec fn controls(control: ControlState, input: ViewerInput) -> bool {
    input.hovered && control == ControlState::Controlling
}

/// Whether `viewer` is a user who has just joined, with an empty picture.
pub open spec fn has_just_joined(viewer: Viewer, username: String, blank_frame: Vec<u8>) -> bool {
    &&& viewer.frame_queue@ == Seq::<Vec<u8>>::empty()
    &&& viewer.current_frame == blank_frame
    &&& viewer.modifiers_state.command == modifiers_state::ModifierKeyState::Idle
    &&& viewer.modifiers_state.alt == modifiers_state::ModifierKeyState::Idle
    &&& viewer.modifiers_state.shift == modifiers_state::ModifierKeyState::Idle
    &&& viewer.modifiers_state.keys@ == Seq::<ModifierKey>::empty()
    &&& !viewer.stopped
    &&& viewer.right_panel_type == RightPanelType::UsersList
    &&& viewer.usernames@ == Seq::<(Seq<char>, UserType)>::empty()
    &&& viewer.username == username
    &&& viewer.control == ControlState::Request
    &&& text::texts(viewer.chat_log@) == Seq::<Seq<char>>::empty()
    &&& viewer.chat_message@ == Seq::<char>::empty()
}

/// Whether `after` is what a packet of the server makes of `before`;
/// `tell_denials` says whether denied requests are noted.
pub open spec fn is_after_packet(
    before: Viewer,
    after: Viewer,
    packet: protocol::PacketView,
    tell_denials: bool,
) -> bool {
    &&& after.usernames@ == users_after(before.usernames@, packet)
    &&& after.control == control_after(before.control, packet)
    &&& text::texts(after.chat_log@) == log_after(
        text::texts(before.chat_log@),
        before.usernames@,
        before.control,
        packet,
        tell_denials,
    )
    &&& after.stopped == (before.stopped || packet is SessionExit || packet is SessionEnd)
    &&& after.frame_queue == before.frame_queue
    &&& after.current_frame == before.current_frame
    &&& after.modifiers_state == before.modifiers_state
    &&& after.right_panel_type == before.right_panel_type
    &&& after.username == before.username
    &&& after.chat_message == before.chat_message
}

/// Whether `after` is what a frame makes of `before`, with these actions.
pub open spec fn is_after_frame(
    before: Viewer,
    after: Viewer,
    input: ViewerInput,
    actions: Seq<scene::SceneActionView>,
) -> bool {
    let shown = input.frame_due && before.frame_queue@.len() > 0;
    &&& actions == if before.stopped {
        end_actions()
    } else {
        frame_actions(before.username@, before.control, before.modifiers_state, input)
    }
    &&& after.control == if !before.stopped && asks(before.control, input) {
        ControlState::Waiting
    } else {
        before.control
    }
    &&& after.current_frame == if shown {
        before.frame_queue@[0]
    } else {
        before.current_frame
    }
    &&& after.frame_queue@ == if shown {
        before.frame_queue@.skip(1)
    } else {
        before.frame_queue@
    }
    &&& after.stopped == (before.stopped || input.disconnect)
    &&& after.right_panel_type == if before.stopped {
        before.right_panel_type
    } else {
        input.right_panel_type
    }
    &&& if !before.stopped && controls(before.control, input) {
        follows(before.modifiers_state, input.modifiers, after.modifiers_state)
    } else {
        after.modifiers_state == before.modifiers_state
    }
    &&& after.usernames == before.usernames
    &&& after.username == before.username
    &&& after.chat_log == before.chat_log
    &&& after.chat_message == before.chat_message
}

/// Appends the actions with which a user leaves the session.
fn push_leave(actions: &mut Vec<SceneAction>)
    ensures
        scene::action_views(final(actions)@) == scene::action_views(old(actions)@)
            + leave_actions(),
{
    push_action(actions, SceneAction::Send { packet: Packet::SessionExit });
    push_action(actions, SceneAction::AwaitEnd);
    push_action(actions, SceneAction::StopVideo);
    assert(scene::action_views(actions@) =~= scene::action_views(old(actions)@) + leave_actions());
}

/// The actions with which a user leaves the session and the client ends.
pub(crate) fn leave_for_good() -> (actions: Vec<SceneAction>)
    ensures
        scene::action_views(actions@) == leave_actions() + scene::last_actions(),
{
    let mut actions: Vec<SceneAction> = Vec::new();
    assert(scene::action_views(actions@) =~= Seq::empty());
    push_leave(&mut actions);
    push_goodbye(&mut actions);
    assert(scene::action_views(actions@) =~= leave_actions() + scene::last_actions());
    actions
}

impl Viewer {
    /// A user who has just joined, with an empty picture.
    pub fn new(username: String, blank_frame: Vec<u8>) -> (viewer: Viewer)
        ensures
            has_just_joined(viewer, username, blank_frame),
    {
        let chat_log: Vec<String> = Vec::new();
        assert(text::texts(chat_log@) =~= Seq::empty());
        Viewer {
            frame_queue: VecDeque::new(),
            current_frame: blank_frame,
            modifiers_state: ModifiersState::new(),
            stopped: false,
            right_panel_type: RightPanelType::UsersList,
            usernames: NameMap::new(),
            username,
            control: ControlState::Request,
            chat_log,
            chat_message: String::new(),
        }
    }

    /// Takes a decoded picture.
    pub fn push_frame(&mut self, frame: Vec<u8>)
        ensures
            *final(self) == (Viewer { frame_queue: final(self).frame_queue, ..*old(self) }),
            final(self).frame_queue@ == queue_with(old(self).frame_queue@, frame),
            old(self).frame_queue@.len() <= MAX_WAITING_FRAMES ==> final(self).frame_queue@.len()
                <= MAX_WAITING_FRAMES,
            final(self).frame_queue@.last() == frame,
    {
        if self.frame_queue.len() > 3 {
            let _ = self.frame_queue.pop_front();
            assert(self.frame_queue@ =~= old(self).frame_queue@.skip(1));
        }
        self.frame_queue.push_back(frame);
    }

    /// Takes a packet of the server.
    pub fn on_packet(&mut self, packet: Packet, tell_denials: bool) -> (event: ViewerEvent)
        ensures
            is_event_for(event, packet@),
            is_after_packet(*old(self), *final(self), packet@, tell_denials),
    {
        match packet {
            Packet::Screen { bytes } => ViewerEvent::Decode { bytes },
            Packet::UserUpdate { user_type, joined_before, username } => {
                update_user(
                    &mut self.usernames,
                    &mut self.chat_log,
                    &username,
                    user_type,
                    joined_before,
                );
                ViewerEvent::Nothing
            },
            Packet::RequestControl { .. } => {
                self.control = ControlState::Controlling;
                ViewerEvent::Nothing
            },
            Packet::DenyControl { .. } => {
                if tell_denials && self.control != ControlState::Controlling {
                    push_text(
                        &mut self.chat_log,
                        "#rYour control request was denied by the host.".to_owned(),
                    );
                }
                self.control = ControlState::Request;
                ViewerEvent::Nothing
            },
            Packet::SessionExit => {
                self.stopped = true;
                ViewerEvent::Stop
            },
            Packet::SessionEnd => {
                self.stopped = true;
                ViewerEvent::ConfirmEnd
            },
            Packet::Chat { message } => {
                push_text(&mut self.chat_log, message);
                ViewerEvent::Nothing
            },
            _ => ViewerEvent::Nothing,
        }
    }

    /// Turns the input of a frame into packets for the host.
    pub fn handle_input(&mut self, modifiers: Modifiers, events: &Vec<InputEvent>) -> (actions: Vec<
        SceneAction,
    >)
        ensures
            scene::action_views(actions@) == scene::sends(
                modifier_packets(modifier_changes(old(self).modifiers_state, modifiers))
                    + event_packets(events@),
            ),
            *final(self) == (Viewer { modifiers_state: final(self).modifiers_state, ..*old(self) }),
            follows(old(self).modifiers_state, modifiers, final(self).modifiers_state),
    {
        broadcast use scene::lemma_sends_concatenation;

        self.modifiers_state.update(modifiers);
        let ghost changes = self.modifiers_state.keys@;
        let mut actions: Vec<SceneAction> = Vec::new();
        let n: usize = self.modifiers_state.keys.len();
        assert(scene::action_views(actions@) =~= scene::sends(modifier_packets(changes.take(0))));
        for i in 0..n
            invariant
                changes == self.modifiers_state.keys@,
                n == changes.len(),
                scene::action_views(actions@) == scene::sends(
                    modifier_packets(changes.take(i as int)),
                ),
        {
            let key: ModifierKey = self.modifiers_state.keys[i];
            let packet: Packet = Packet::Control {
                payload: ControlPayload::Keyboard { pressed: key.pressed, key: key.key },
            };
            push_send(&mut actions, packet);
            assert(modifier_packets(changes.take(i + 1)) =~= modifier_packets(
                changes.take(i as int),
            ) + seq![modifier_packet(key)]);
        }
        assert(changes.take(n as int) =~= changes);
        let ghost first = modifier_packets(changes);
        let m: usize = events.len();
        assert(first + event_packets(events@.take(0)) =~= first);
        for j in 0..m
            invariant
                m == events@.len(),
                scene::action_views(actions@) == scene::sends(
                    first + event_packets(events@.take(j as int)),
                ),
        {
            broadcast use scene::lemma_sends_concatenation;

            let event: InputEvent = events[j];
            assert(events@.take(j + 1).drop_last() =~= events@.take(j as int));
            assert(first + event_packets(events@.take(j + 1)) =~= first + event_packets(
                events@.take(j as int),
            ) + event_packet(event));
            match to_packet(event) {
                Some(packet) => {
                    push_send(&mut actions, packet);
                },
                None => {
                    assert(first + event_packets(events@.take(j + 1)) =~= first + event_packets(
                        events@.take(j as int),
                    ));
                },
            }
        }
        assert(events@.take(m as int) =~= events@);
        actions
    }

    /// Works on a frame while the session goes on.
    pub fn update(&mut self, input: &ViewerInput) -> (actions: Vec<SceneAction>)
        ensures
            is_after_frame(*old(self), *final(self), *input, scene::action_views(actions@)),
    {
        if input.frame_due {
            if let Some(frame) = self.frame_queue.pop_front() {
                assert(self.frame_queue@ =~= old(self).frame_queue@.skip(1));
                self.current_frame = frame;
            }
        }
        let mut actions: Vec<SceneAction> = Vec::new();
        assert(scene::action_views(actions@) =~= Seq::empty());
        if self.stopped {
            push_action(&mut actions, SceneAction::StopVideo);
            push_action(&mut actions, SceneAction::AwaitEnd);
            assert(scene::action_views(actions@) =~= end_actions());
            return actions;
        }
        self.right_panel_type = input.right_panel_type;
        if input.disconnect {
            push_leave(&mut actions);
            self.stopped = true;
        }
        if input.request_control && self.control == ControlState::Request {
            self.control = ControlState::Waiting;
            push_send(&mut actions, Packet::RequestControl { username: self.username.clone() });
        }
        if input.hovered && self.control == ControlState::Controlling {
            let mut more: Vec<SceneAction> = self.handle_input(input.modifiers, &input.events);
            let ghost before = scene::action_views(actions@);
            let ghost added = scene::action_views(more@);
            actions.append(&mut more);
            assert(scene::action_views(actions@) =~= before + added);
        }
        assert(scene::action_views(actions@) =~= frame_actions(
            old(self).username@,
            old(self).control,
            old(self).modifiers_state,
            *input,
        ));
        actions
    }
}

/// The packet for an event, if it is passed on.
fn to_packet(event: InputEvent) -> (packet: Option<Packet>)
    ensures
        match packet {
            Some(packet) => event_packet(event) == seq![packet@],
            None => event_packet(event) == Seq::<protocol::PacketView>::empty(),
        },
{
    let payload: ControlPayload = match event {
        InputEvent::PointerButton { mouse_x, mouse_y, button, pressed } => {
            ControlPayload::MouseClick { mouse_x, mouse_y, pressed, button }
        },
        InputEvent::Key { physical_key, pressed } => match physical_key {
            Some(key) => match egui_key_to_vk(&key) {
                Some(code) => ControlPayload::Keyboard { pressed, key: code },
                None => return None,
            },
            None => return None,
        },
        InputEvent::PointerMoved { mouse_x, mouse_y } => ControlPayload::MouseMove {
            mouse_x,
            mouse_y,
        },
        InputEvent::MouseWheel { delta } => ControlPayload::Scroll { delta },
        InputEvent::Other => return None,
    };
    Some(Packet::Control { payload })
}

/// A user without control sends no input, whatever happens in a frame.
pub proof fn law_no_input_without_control(
    username: Seq<char>,
    control: ControlState,
    modifiers: ModifiersState,
    input: ViewerInput,
    payload: ControlPayload,
)
    requires
        control != ControlState::Controlling,
    ensures
        !frame_actions(username, control, modifiers, input).contains(
            scene::SceneActionView::Send { packet: protocol::PacketView::Control { payload } },
        ),
{
}

/// What is passed on for each kind of event, whatever its particulars: a click,
/// a move or a turn of the wheel gives one packet that tells just that, and so
/// does a key that has a code, whether it is pressed or released. Unknown keys
/// and other events are not passed on.
pub proof fn law_events_are_passed_on(event: InputEvent)
    ensures
        match event {
            InputEvent::PointerButton { mouse_x, mouse_y, button, pressed } => event_packet(event)
                == seq![
                protocol::PacketView::Control {
                    payload: ControlPayload::MouseClick { mouse_x, mouse_y, pressed, button },
                },
            ],
            InputEvent::PointerMoved { mouse_x, mouse_y } => event_packet(event) == seq![
                protocol::PacketView::Control {
                    payload: ControlPayload::MouseMove { mouse_x, mouse_y },
                },
            ],
            InputEvent::MouseWheel { delta } => event_packet(event) == seq![
                protocol::PacketView::Control { payload: ControlPayload::Scroll { delta } },
            ],
            InputEvent::Key { physical_key: Some(key), pressed } => match keys::key_code(key) {
                Some(code) => event_packet(event) == seq![
                    protocol::PacketView::Control {
                        payload: ControlPayload::Keyboard { pressed, key: code },
                    },
                ],
                None => event_packet(event).len() == 0,
            },
            InputEvent::Key { physical_key: None, .. } => event_packet(event).len() == 0,
            InputEvent::Other => event_packet(event).len() == 0,
        },
{
}

/// A press and a release of a key that has a code give one packet each, which
/// differ in nothing but whether the key is pressed.
pub proof fn law_presses_and_releases_are_passed_on(key: Key)
    requires
        keys::key_code(key) is Some,
    ensures
        ({
            let code = keys::key_code(key)->Some_0;
            let events = seq![
                InputEvent::Key { physical_key: Some(key), pressed: true },
                InputEvent::Key { physical_key: Some(key), pressed: false },
            ];
            event_packets(events) == seq![
                protocol::PacketView::Control {
                    payload: ControlPayload::Keyboard { pressed: true, key: code },
                },
                protocol::PacketView::Control {
                    payload: ControlPayload::Keyboard { pressed: false, key: code },
                },
            ]
        }),
{
    let down = InputEvent::Key { physical_key: Some(key), pressed: true };
    let up = InputEvent::Key { physical_key: Some(key), pressed: false };
    law_one_event(down);
    law_one_event(up);
    law_events_one_after_another(seq![down], seq![up]);
    assert(seq![down] + seq![up] =~= seq![down, up]);
    law_events_are_passed_on(down);
    law_events_are_passed_on(up);
    assert(event_packets(seq![down, up]) =~= event_packet(down) + event_packet(up));
}

/// A row of one event gives what the event gives.
pub proof fn law_one_event(event: InputEvent)
    ensures
        event_packets(seq![event]) == event_packet(event),
{
    reveal_with_fuel(event_packets, 2);
    assert(seq![event].drop_last() =~= Seq::empty());
    assert(event_packets(seq![event]) =~= event_packet(event));
}

/// Events that follow one another are passed on one after another.
pub proof fn law_events_one_after_another(a: Seq<InputEvent>, b: Seq<InputEvent>)
    ensures
        event_packets(a + b) == event_packets(a) + event_packets(b),
    decreases b.len(),
{
    if b.len() == 0 {
        assert(a + b =~= a);
        assert(event_packets(a) + event_packets(b) =~= event_packets(a));
    } else {
        law_events_one_after_another(a, b.drop_last());
        assert((a + b).drop_last() =~= a + b.drop_last());
        assert(event_packets(a + b) =~= event_packets(a) + event_packets(b));
    }
}

/// In a frame of a user who has control and whose mouse is over the picture,
/// first the modifier keys that changed are passed on, then the events, all of
/// them and in order.
pub proof fn law_controller_input_is_sent(
    username: Seq<char>,
    modifiers: ModifiersState,
    input: ViewerInput,
)
    requires
        input.hovered,
        !input.disconnect,
    ensures
        frame_actions(username, ControlState::Controlling, modifiers, input) == scene::sends(
            modifier_packets(modifier_changes(modifiers, input.modifiers)),
        ) + scene::sends(event_packets(input.events@)),
{
    scene::lemma_sends_concatenation(
        modifier_packets(modifier_changes(modifiers, input.modifiers)),
        event_packets(input.events@),
    );
    assert(frame_actions(username, ControlState::Controlling, modifiers, input) =~= scene::sends(
        modifier_packets(modifier_changes(modifiers, input.modifiers)),
    ) + scene::sends(event_packets(input.events@)));
}

/// Each of Control, Alt and Shift is passed on under its own code exactly if it
/// went down or up.
pub proof fn law_modifier_keys_are_passed_on(
    state: ModifiersState,
    modifiers: Modifiers,
    pressed: bool,
    key: u16,
)
    ensures
        modifier_packets(modifier_changes(state, modifiers)).contains(
            protocol::PacketView::Control { payload: ControlPayload::Keyboard { pressed, key } },
        ) <==> {
            ||| key == 0x11 && pressed == modifiers.command && pressed != (state.command
                == modifiers_state::ModifierKeyState::Pressed)
            ||| key == 0x12 && pressed == modifiers.alt && pressed != (state.alt
                == modifiers_state::ModifierKeyState::Pressed)
            ||| key == 0x10 && pressed == modifiers.shift && pressed != (state.shift
                == modifiers_state::ModifierKeyState::Pressed)
        },
{
    let a = modifiers_state::change(state.command, modifiers.command, modifiers_state::VK_CONTROL);
    let b = modifiers_state::change(state.alt, modifiers.alt, modifiers_state::VK_MENU);
    let c = modifiers_state::change(state.shift, modifiers.shift, modifiers_state::VK_SHIFT);
    let all = modifier_changes(state, modifiers);
    assert(all == a + b + c);
    let wanted = ModifierKey { key, pressed };
    let packet = protocol::PacketView::Control {
        payload: ControlPayload::Keyboard { pressed, key },
    };
    vstd::seq_lib::lemma_seq_concat_contains_all_elements(a + b, c, wanted);
    vstd::seq_lib::lemma_seq_concat_contains_all_elements(a, b, wanted);
    let packets = modifier_packets(all);
    if packets.contains(packet) {
        let i = packets.index_of(packet);
        assert(all[i] == wanted);
        assert(all.contains(wanted));
    }
    if a.len() == 1 {
        assert(a.contains(a[0]));
    }
    if b.len() == 1 {
        assert(b.contains(b[0]));
    }
    if c.len() == 1 {
        assert(c.contains(c[0]));
    }
    if all.contains(wanted) {
        let i = all.index_of(wanted);
        assert(packets[i] == packet);
    }
}

/// A user leaves the session exactly if that was clicked, and asks for control
/// exactly if that was clicked and the user neither has it nor has asked; the
/// request names the user.
pub proof fn law_leaving_and_asking(
    username: Seq<char>,
    control: ControlState,
    modifiers: ModifiersState,
    input: ViewerInput,
    name: Seq<char>,
)
    ensures
        ({
            let actions = frame_actions(username, control, modifiers, input);
            &&& actions.contains(
                scene::SceneActionView::Send { packet: protocol::PacketView::SessionExit },
            ) == input.disconnect
            &&& actions.contains(scene::SceneActionView::StopVideo) == input.disconnect
            &&& actions.contains(scene::SceneActionView::AwaitEnd) == input.disconnect
            &&& actions.contains(
                scene::SceneActionView::Send {
                    packet: protocol::PacketView::RequestControl { username: name },
                },
            ) <==> (input.request_control && control == ControlState::Request && name == username)
            &&& (!input.hovered || control != ControlState::Controlling) && !input.disconnect && !(
            input.request_control && control == ControlState::Request) ==> actions.len() == 0
        }),
{
    let actions = frame_actions(username, control, modifiers, input);
    let a = if input.disconnect {
        leave_actions()
    } else {
        Seq::empty()
    };
    let request = seq![protocol::PacketView::RequestControl { username }];
    let b = if asks(control, input) {
        scene::sends(request)
    } else {
        Seq::empty()
    };
    let passed = modifier_packets(modifier_changes(modifiers, input.modifiers)) + event_packets(
        input.events@,
    );
    let c = if controls(control, input) {
        scene::sends(passed)
    } else {
        Seq::empty()
    };
    assert(actions == a + b + c);
    scene::law_sends(request);
    scene::law_sends(passed);
    lemma_input_is_control(modifiers, input);
    assert forall|x: scene::SceneActionView| #[trigger]
        actions.contains(x) <==> (a.contains(x) || b.contains(x) || c.contains(x)) by {
        vstd::seq_lib::lemma_seq_concat_contains_all_elements(a + b, c, x);
        vstd::seq_lib::lemma_seq_concat_contains_all_elements(a, b, x);
    }
    assert(request.contains(request[0]));
    if input.disconnect {
        assert(a[0] == scene::SceneActionView::Send { packet: protocol::PacketView::SessionExit });
        assert(a[1] == scene::SceneActionView::AwaitEnd);
        assert(a[2] == scene::SceneActionView::StopVideo);
    }
}

/// All that is passed on is input.
proof fn lemma_input_is_control(modifiers: ModifiersState, input: ViewerInput)
    ensures
        forall|packet: protocol::PacketView| #[trigger]
            (modifier_packets(modifier_changes(modifiers, input.modifiers)) + event_packets(
                input.events@,
            )).contains(packet) ==> packet is Control,
{
    let a = modifier_packets(modifier_changes(modifiers, input.modifiers));
    let b = event_packets(input.events@);
    lemma_events_are_control(input.events@);
    assert forall|packet: protocol::PacketView| #[trigger] (a + b).contains(packet) implies packet is Control by {
        vstd::seq_lib::lemma_seq_concat_contains_all_elements(a, b, packet);
    }
}

/// All packets for events are input.
proof fn lemma_events_are_control(events: Seq<InputEvent>)
    ensures
        forall|i: int| 0 <= i < event_packets(events).len() ==> (#[trigger] event_packets(events)[i]) is Control,
    decreases events.len(),
{
    if events.len() > 0 {
        lemma_events_are_control(events.drop_last());
        let before = event_packets(events.drop_last());
        assert forall|i: int| 0 <= i < event_packets(events).len() implies (
        #[trigger] event_packets(events)[i]) is Control by {
            if i < before.len() {
                assert(event_packets(events)[i] == before[i]);
            }
        }
    }
}

/// What a frame does to a viewer: the oldest waiting picture is shown when it
/// is time, and none otherwise; who asks for control waits; who leaves has left,
/// and nothing else ends the session; the selected panel is shown; users and
/// chat stay as they are.
pub proof fn law_frame_of_a_viewer(
    before: Viewer,
    after: Viewer,
    input: ViewerInput,
    actions: Seq<scene::SceneActionView>,
)
    requires
        is_after_frame(before, after, input, actions),
    ensures
        input.frame_due && before.frame_queue@.len() > 0 ==> {
            &&& after.current_frame == before.frame_queue@[0]
            &&& after.frame_queue@ == before.frame_queue@.skip(1)
        },
        !input.frame_due || before.frame_queue@.len() == 0 ==> {
            &&& after.current_frame == before.current_frame
            &&& after.frame_queue@ == before.frame_queue@
        },
        after.stopped <==> before.stopped || input.disconnect,
        before.stopped ==> after.control == before.control && after.right_panel_type
            == before.right_panel_type && actions == seq![
            scene::SceneActionView::StopVideo,
            scene::SceneActionView::AwaitEnd,
        ],
        !before.stopped ==> {
            &&& after.right_panel_type == input.right_panel_type
            &&& after.control == ControlState::Waiting <==> (before.control == ControlState::Waiting
                || (before.control == ControlState::Request && input.request_control))
            &&& after.control == ControlState::Controlling <==> before.control
                == ControlState::Controlling
            &&& actions == frame_actions(
                before.username@,
                before.control,
                before.modifiers_state,
                input,
            )
        },
        after.usernames == before.usernames,
        after.username == before.username,
        after.chat_log == before.chat_log,
        after.chat_message == before.chat_message,
        !input.hovered || before.control != ControlState::Controlling ==> after.modifiers_state
            == before.modifiers_state,
        !before.stopped && input.hovered && before.control == ControlState::Controlling ==> {
            &&& after.modifiers_state.command == modifiers_state::ModifierKeyState::Pressed
                <==> input.modifiers.command
            &&& after.modifiers_state.alt == modifiers_state::ModifierKeyState::Pressed
                <==> input.modifiers.alt
            &&& after.modifiers_state.shift == modifiers_state::ModifierKeyState::Pressed
                <==> input.modifiers.shift
        },
{
}

/// What a packet of the server does to a viewer: control is given and taken
/// back, roles are taken over, messages are noted, and the session ends, each
/// for its own packet and for no other.
pub proof fn law_packet_for_a_viewer(
    before: Viewer,
    after: Viewer,
    packet: protocol::PacketView,
    tell_denials: bool,
    other: Seq<char>,
)
    requires
        is_after_packet(before, after, packet, tell_denials),
        names::distinct(before.usernames@),
    ensures
        packet is RequestControl ==> after.control == ControlState::Controlling,
        packet is DenyControl ==> after.control == ControlState::Request,
        !(packet is RequestControl) && !(packet is DenyControl) ==> after.control == before.control,
        after.stopped <==> before.stopped || packet is SessionExit || packet is SessionEnd,
        packet matches protocol::PacketView::UserUpdate { user_type, username, .. } ==> {
            &&& user_type != UserType::Leaving ==> names::lookup(after.usernames@, username)
                == Some(user_type)
            &&& user_type == UserType::Leaving ==> names::lookup(after.usernames@, username) is None
            &&& other != username ==> names::lookup(after.usernames@, other) == names::lookup(
                before.usernames@,
                other,
            )
        },
        !(packet is UserUpdate) ==> after.usernames@ == before.usernames@,
        packet matches protocol::PacketView::Chat { message } ==> text::texts(after.chat_log@)
            == text::texts(before.chat_log@).push(message),
        packet is DenyControl && tell_denials && before.control != ControlState::Controlling
            ==> text::texts(after.chat_log@) == text::texts(before.chat_log@).push(
            "#rYour control request was denied by the host."@,
        ),
        packet is DenyControl && (!tell_denials || before.control == ControlState::Controlling)
            ==> text::texts(after.chat_log@) == text::texts(before.chat_log@),
        !(packet is Chat) && !(packet is DenyControl) && !(packet is UserUpdate) ==> text::texts(
            after.chat_log@,
        ) == text::texts(before.chat_log@),
        packet matches protocol::PacketView::UserUpdate { user_type, joined_before, username }
            ==> text::texts(after.chat_log@) == match chat::update_line(
            before.usernames@,
            username,
            user_type,
            joined_before,
        ) {
            Some(line) => text::texts(before.chat_log@).push(line),
            None => text::texts(before.chat_log@),
        },
        after.frame_queue == before.frame_queue,
        after.current_frame == before.current_frame,
        after.modifiers_state == before.modifiers_state,
        after.right_panel_type == before.right_panel_type,
        after.username == before.username,
        after.chat_message == before.chat_message,
{
    if let protocol::PacketView::UserUpdate { user_type, username, .. } = packet {
        chat::law_update_takes_the_role(before.usernames@, username, user_type, other);
    }
}

/// The video of a packet goes to the decoder as it is, the end of the session
/// is confirmed if the host ended it, and nothing is done for other packets.
pub proof fn law_event_for_a_packet(event: ViewerEvent, packet: protocol::PacketView)
    requires
        is_event_for(event, packet),
    ensures
        packet matches protocol::PacketView::Screen { bytes } ==> event is Decode && event->bytes@
            == bytes,
        event is Decode ==> packet is Screen,
        event is Stop <==> packet is SessionExit,
        event is ConfirmEnd <==> packet is SessionEnd,
{
}

/// A new picture is the last to be shown; at most four wait, and only the
/// oldest makes room, if there are four already.
pub proof fn law_pictures_wait_in_order(queue: Seq<Vec<u8>>, frame: Vec<u8>)
    ensures
        queue.len() < 4 ==> queue_with(queue, frame) == queue.push(frame),
        queue.len() == 4 ==> queue_with(queue, frame) == queue.skip(1).push(frame),
        queue.len() <= 4 ==> queue_with(queue, frame).len() <= 4,
        queue_with(queue, frame).last() == frame,
{
}

/// Who has just joined watches without control, sees no picture and no message
/// yet and knows of nobody; no modifier key is down.
pub proof fn law_start_of_a_viewer(viewer: Viewer, username: String, blank_frame: Vec<u8>)
    requires
        has_just_joined(viewer, username, blank_frame),
    ensures
        viewer.control == ControlState::Request,
        !viewer.stopped,
        viewer.username == username,
        viewer.current_frame == blank_frame,
        viewer.frame_queue@.len() == 0,
        viewer.usernames@.len() == 0,
        viewer.chat_log@.len() == 0,
        viewer.chat_message@.len() == 0,
        viewer.right_panel_type == RightPanelType::UsersList,
        viewer.modifiers_state.command != modifiers_state::ModifierKeyState::Pressed,
        viewer.modifiers_state.alt != modifiers_state::ModifierKeyState::Pressed,
        viewer.modifiers_state.shift != modifiers_state::ModifierKeyState::Pressed,
{
    assert(text::texts(viewer.chat_log@).len() == viewer.chat_log@.len());
}

/// The modifier keys that changed are told of in the order Control, Alt, Shift,
/// each at most once.
pub proof fn law_order_of_modifier_keys(state: ModifiersState, modifiers: Modifiers, i: int, j: int)
    requires
        0 <= i < j < modifier_changes(state, modifiers).len(),
    ensures
        modifier_changes(state, modifiers)[i].key != modifier_changes(state, modifiers)[j].key,
        modifier_changes(state, modifiers)[i].key != 0x10,
        modifier_changes(state, modifiers)[j].key != 0x11,
        modifier_packets(modifier_changes(state, modifiers)).len() == modifier_changes(
            state,
            modifiers,
        ).len(),
        modifier_packets(modifier_changes(state, modifiers))[i] == (protocol::PacketView::Control {
            payload: ControlPayload::Keyboard {
                pressed: modifier_changes(state, modifiers)[i].pressed,
                key: modifier_changes(state, modifiers)[i].key,
            },
        }),
{
}

/// After a frame with control the state of each modifier key is that of the
/// frame, told from its state before, and the changes are those of the frame.
pub proof fn law_modifier_keys_are_followed(
    before: ModifiersState,
    modifiers: Modifiers,
    after: ModifiersState,
)
    requires
        follows(before, modifiers, after),
    ensures
        after.command == modifiers_state::next_state(before.command, modifiers.command),
        after.alt == modifiers_state::next_state(before.alt, modifiers.alt),
        after.shift == modifiers_state::next_state(before.shift, modifiers.shift),
        after.keys@ == modifier_changes(before, modifiers),
{
}

/// In a frame the goodbye comes first, then the wish for control, then the
/// input.
pub proof fn law_order_of_a_frame(
    username: Seq<char>,
    control: ControlState,
    modifiers: ModifiersState,
    input: ViewerInput,
)
    ensures
        ({
            let actions = frame_actions(username, control, modifiers, input);
            let stay = ViewerInput { disconnect: false, ..input };
            let rest = frame_actions(username, control, modifiers, stay);
            &&& !input.disconnect ==> actions == rest
            &&& input.disconnect ==> actions == seq![
                scene::SceneActionView::Send { packet: protocol::PacketView::SessionExit },
                scene::SceneActionView::AwaitEnd,
                scene::SceneActionView::StopVideo,
            ] + rest
            &&& input.request_control && control == ControlState::Request ==> rest == seq![
                scene::SceneActionView::Send {
                    packet: protocol::PacketView::RequestControl { username },
                },
            ]
        }),
{
    let actions = frame_actions(username, control, modifiers, input);
    let stay = ViewerInput { disconnect: false, ..input };
    let rest = frame_actions(username, control, modifiers, stay);
    if input.disconnect {
        assert(actions =~= leave_actions() + rest);
    } else {
        assert(actions =~= rest);
    }
    if input.request_control && control == ControlState::Request {
        assert(rest =~= seq![
            scene::SceneActionView::Send { packet: protocol::PacketView::RequestControl { username } },
        ]);
    }
}

/// A user who ends the client leaves the session first.
pub proof fn law_leaving_a_session()
    ensures
        leave_actions() == seq![
            scene::SceneActionView::Send { packet: protocol::PacketView::SessionExit },
            scene::SceneActionView::AwaitEnd,
            scene::SceneActionView::StopVideo,
        ],
        control_message(ControlState::Request) == "Request Control"@,
        control_message(ControlState::Waiting) == "Waiting for response..."@,
        control_message(ControlState::Controlling) == "You're the controller!"@,
{
}

} // verus!
