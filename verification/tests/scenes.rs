use stream_desk::chat::{chat_ui, send_message, show_message, Span, TextColor};
use stream_desk::ffmpeg::{start_ffmpeg, start_ffmpeg_capture, start_ffprobe};
use stream_desk::input::{inject, SystemInput};
use stream_desk::keys::{egui_key_to_vk, Key};
use stream_desk::modifiers_state::{ModifierKey, Modifiers, ModifiersState};
use stream_desk::protocol::{ControlPayload, Packet, PointerButton, ResultPacket};
use stream_desk::scenes::host_scene::{Click, HostEvent, HostInput, HostScene};
use stream_desk::scenes::login_scene::{ConnectionNews, LoginInput, LoginScene};
use stream_desk::scenes::main_scene::MainScene;
use stream_desk::scenes::menu_scene::{MenuInput, MenuScene, RecordingList};
use stream_desk::scenes::participant_scene::ParticipantScene;
use stream_desk::scenes::scene::{SceneAction, SceneChange};
use stream_desk::scenes::viewer::{
    ControlState, InputEvent, RightPanelType, ViewerEvent, ViewerInput,
};
use stream_desk::scenes::watch_scene::{
    on_player_packet, PlayerAction, PlayerEvent, WatchInput, WatchScene,
};
use stream_desk::server::host::handle_host;
use stream_desk::server::session::{Action, Connection, Session};
use stream_desk::user_type::UserType;
use stream_desk::users_list::users_list;

fn text(s: &str) -> String {
    s.to_owned()
}

fn send(packet: Packet) -> SceneAction {
    SceneAction::Send { packet }
}

fn deny(username: &str) -> SceneAction {
    send(Packet::DenyControl { username: text(username) })
}

fn update(username: &str, user_type: UserType, joined_before: bool) -> Packet {
    Packet::UserUpdate { user_type, joined_before, username: text(username) }
}

#[test]
fn keys_have_virtual_key_codes() {
    assert_eq!(egui_key_to_vk(&Key::A), Some(0x41));
    assert_eq!(egui_key_to_vk(&Key::Num9), Some(0x39));
    assert_eq!(egui_key_to_vk(&Key::F20), Some(0x83));
    assert_eq!(egui_key_to_vk(&Key::F21), None);
    assert_eq!(egui_key_to_vk(&Key::PageDown), Some(0x22));
    assert_eq!(egui_key_to_vk(&Key::Plus), egui_key_to_vk(&Key::Equals));
    assert_eq!(egui_key_to_vk(&Key::Colon), Some(0xBA));
    assert_eq!(egui_key_to_vk(&Key::Copy), None);
}

fn modifiers(command: bool, alt: bool, shift: bool) -> Modifiers {
    Modifiers { command, alt, shift }
}

#[test]
fn modifier_keys_are_reported_when_they_change() {
    let mut state = ModifiersState::new();
    state.update(modifiers(true, false, true));
    assert_eq!(
        state.keys,
        vec![
            ModifierKey { key: 0x11, pressed: true },
            ModifierKey { key: 0x10, pressed: true },
        ]
    );
    state.update(modifiers(true, false, true));
    assert_eq!(state.keys, vec![]);
    state.update(modifiers(false, true, true));
    assert_eq!(
        state.keys,
        vec![
            ModifierKey { key: 0x11, pressed: false },
            ModifierKey { key: 0x12, pressed: true },
        ]
    );
    state.update(modifiers(true, true, true));
    assert_eq!(state.keys, vec![ModifierKey { key: 0x11, pressed: true }]);
}

#[test]
fn payloads_become_system_input() {
    assert_eq!(
        inject(ControlPayload::MouseMove { mouse_x: 65_535, mouse_y: u32::MAX }),
        SystemInput::Mouse { dx: 65_535, dy: -1, mouse_data: 0, flags: 0x8001 }
    );
    let click = |button, pressed| ControlPayload::MouseClick {
        mouse_x: 1,
        mouse_y: 2,
        pressed,
        button,
    };
    let flags = [
        (PointerButton::Primary, true, 0x8003),
        (PointerButton::Primary, false, 0x8005),
        (PointerButton::Secondary, true, 0x8009),
        (PointerButton::Secondary, false, 0x8011),
        (PointerButton::Middle, true, 0x8021),
        (PointerButton::Middle, false, 0x8041),
        (PointerButton::Extra2, true, 0x8001),
    ];
    for (button, pressed, flags) in flags {
        assert_eq!(
            inject(click(button, pressed)),
            SystemInput::Mouse { dx: 1, dy: 2, mouse_data: 0, flags }
        );
    }
    assert_eq!(
        inject(ControlPayload::Keyboard { pressed: false, key: 0x41 }),
        SystemInput::Key { key: 0x41, flags: 2 }
    );
    assert_eq!(
        inject(ControlPayload::Scroll { delta: -1 }),
        SystemInput::Mouse { dx: 0, dy: 0, mouse_data: (-120i32) as u32, flags: 0x0800 }
    );
}

fn span(s: &str, color: TextColor) -> Span {
    Span { text: text(s), color }
}

#[test]
fn messages_are_shown_in_colors() {
    assert_eq!(
        show_message(&text("#rbob has disconnected.")),
        vec![span("bob has disconnected.", TextColor::Red)]
    );
    assert_eq!(show_message(&text("#gx")), vec![span("x", TextColor::Green)]);
    assert_eq!(show_message(&text("#bx")), vec![span("x", TextColor::Blue)]);
    assert_eq!(show_message(&text("#zx")), vec![span("x", TextColor::White)]);
    assert_eq!(show_message(&text("#")), vec![span("#", TextColor::White)]);
    assert_eq!(show_message(&text("")), vec![span("", TextColor::White)]);
    assert_eq!(
        show_message(&text("ann: see: this")),
        vec![span("ann: ", TextColor::LightBlue), span("see: this", TextColor::White)]
    );
    assert_eq!(
        show_message(&text("#zann: hi")),
        vec![span("ann: ", TextColor::LightBlue), span("hi", TextColor::White)]
    );
    assert_eq!(
        show_message(&text("#gann: hé")),
        vec![span("ann: ", TextColor::Green), span("hé", TextColor::White)]
    );
}

#[test]
fn the_log_is_shown_from_the_bottom_up() {
    let log = vec![text("first"), text("second")];
    assert_eq!(
        chat_ui(&log),
        vec![
            vec![span("second", TextColor::White)],
            vec![span("first", TextColor::White)],
        ]
    );
}

#[test]
fn messages_are_sent_on_a_click() {
    let mut message = text("hi");
    assert_eq!(send_message(&mut message, false), None);
    assert_eq!(message, "hi");
    assert_eq!(
        send_message(&mut message, true),
        Some(Packet::Chat { message: text("hi") })
    );
    assert_eq!(message, "");
    assert_eq!(send_message(&mut message, true), None);
}

fn host_scene() -> HostScene {
    let mut scene = HostScene::new(text("123456"), text("host"));
    scene.on_packet(update("ann", UserType::Participant, false));
    scene.on_packet(update("bob", UserType::Controller, false));
    scene
}

fn quiet() -> HostInput {
    HostInput {
        control_clicks: vec![],
        join_clicks: vec![],
        revoke_clicks: vec![false],
        end_session: false,
        revoke_hotkey: false,
    }
}

const NOTHING: Click = Click { allow: false, deny: false };
const ALLOW: Click = Click { allow: true, deny: false };
const DENY: Click = Click { allow: false, deny: true };

#[test]
fn users_are_listed_by_role() {
    let list = users_list(&host_scene().usernames, &text("ann"));
    assert_eq!(list.hosts, vec!["host"]);
    assert_eq!(list.controllers, vec!["bob"]);
    assert_eq!(list.participants, vec!["ann (You)"]);
}

#[test]
fn the_host_hears_of_users() {
    let mut scene = host_scene();
    assert_eq!(
        scene.chat_log,
        vec!["#gann has joined the session.", "#gbob has joined the session."]
    );
    scene.on_packet(update("ann", UserType::Controller, true));
    scene.on_packet(update("bob", UserType::Leaving, false));
    scene.on_packet(Packet::Chat { message: text("ann: hi") });
    assert_eq!(
        scene.chat_log[2..],
        [text("#bann is now a Controller."), text("#rbob has disconnected."), text("ann: hi")]
    );
    assert_eq!(scene.usernames.get(&text("ann")), Some(UserType::Controller));
    assert!(!scene.usernames.contains(&text("bob")));
    assert_eq!(scene.on_packet(Packet::SessionEnd), HostEvent::Stop);
    assert_eq!(
        scene.on_packet(Packet::Control {
            payload: ControlPayload::Keyboard { pressed: true, key: 9 },
        }),
        HostEvent::Inject { input: SystemInput::Key { key: 9, flags: 0 } }
    );
}

#[test]
fn allowing_control_leaves_one_controller() {
    let mut scene = host_scene();
    for name in ["ann", "eve", "zoe"] {
        scene.on_packet(Packet::RequestControl { username: text(name) });
    }
    scene.on_packet(Packet::RequestControl { username: text("ann") });
    assert_eq!(scene.requesting_control.len(), 3);
    let input = HostInput { control_clicks: vec![ALLOW, NOTHING, NOTHING], ..quiet() };
    let frame = scene.update(&input);
    assert_eq!(
        frame.actions,
        vec![
            deny("bob"),
            send(Packet::RequestControl { username: text("ann") }),
            deny("eve"),
            deny("zoe"),
        ]
    );
    assert_eq!(frame.change, SceneChange::Stay);
    assert_eq!(scene.requesting_control.len(), 0);

    let mut session = Session::new(
        text("host"),
        Connection { channel: 1, user_type: UserType::Host },
    );
    for (name, channel, user_type) in [
        ("ann", 2, UserType::Participant),
        ("bob", 3, UserType::Controller),
        ("eve", 4, UserType::Participant),
    ] {
        session.apply(&Action::Admit {
            username: text(name),
            connection: Connection { channel, user_type },
        });
    }
    for action in frame.actions {
        if let SceneAction::Send { packet } = action {
            for action in handle_host(&session, &text("host"), &packet).actions {
                session.apply(&action);
            }
        }
    }
    let controllers: Vec<String> = (0..session.connections.len())
        .filter(|i| session.connections.value(*i).user_type == UserType::Controller)
        .map(|i| session.connections.name(i).clone())
        .collect();
    assert_eq!(controllers, vec!["ann"]);
}

#[test]
fn denying_control_keeps_the_other_requests() {
    let mut scene = host_scene();
    scene.on_packet(Packet::RequestControl { username: text("ann") });
    scene.on_packet(Packet::RequestControl { username: text("eve") });
    let input = HostInput { control_clicks: vec![NOTHING, DENY], ..quiet() };
    assert_eq!(scene.update(&input).actions, vec![deny("eve")]);
    assert_eq!(scene.requesting_control.len(), 1);
    assert_eq!(scene.requesting_control.name(0), "ann");
}

#[test]
fn requests_to_join_are_answered() {
    let mut scene = host_scene();
    scene.on_packet(Packet::Join { code: 5, username: text("eve") });
    scene.on_packet(Packet::Join { code: 5, username: text("zoe") });
    let input = HostInput { join_clicks: vec![ALLOW, NOTHING], ..quiet() };
    assert_eq!(
        scene.update(&input).actions,
        vec![send(Packet::Join { code: 0, username: text("eve") })]
    );
    let input = HostInput { join_clicks: vec![DENY], ..quiet() };
    assert_eq!(
        scene.update(&input).actions,
        vec![send(Packet::DenyJoin { username: text("zoe") })]
    );
    assert_eq!(scene.requesting_join.len(), 0);
}

#[test]
fn control_is_revoked_by_button_and_by_key() {
    let mut scene = host_scene();
    let input = HostInput { revoke_clicks: vec![true], ..quiet() };
    assert_eq!(scene.update(&input).actions, vec![deny("bob")]);
    let input = HostInput { revoke_hotkey: true, end_session: true, ..quiet() };
    let frame = scene.update(&input);
    assert_eq!(
        frame.actions,
        vec![
            SceneAction::StopVideo,
            send(Packet::SessionExit),
            SceneAction::AwaitEnd,
            deny("bob"),
        ]
    );
    assert_eq!(
        frame.change,
        SceneChange::Menu { username: text("host"), status_message: text("") }
    );
    assert_eq!(
        scene.on_exit(),
        vec![
            SceneAction::StopVideo,
            send(Packet::SessionExit),
            SceneAction::AwaitEnd,
            SceneAction::ReceiveRecordings,
            send(Packet::SignOut),
            send(Packet::Shutdown),
        ]
    );
}

fn watching() -> ViewerInput {
    ViewerInput {
        frame_due: false,
        right_panel_type: RightPanelType::UsersList,
        disconnect: false,
        request_control: false,
        hovered: false,
        modifiers: modifiers(false, false, false),
        events: vec![],
    }
}

#[test]
fn a_participant_asks_for_control_and_uses_it() {
    let mut scene = ParticipantScene::new(text("ann"), vec![0; 4]);
    assert_eq!(scene.viewer.control.message(), "Request Control");
    let asking = ViewerInput { request_control: true, ..watching() };
    let request = send(Packet::RequestControl { username: text("ann") });
    assert_eq!(scene.update(&asking).actions, vec![request]);
    assert_eq!(scene.viewer.control, ControlState::Waiting);
    assert_eq!(scene.viewer.control.message(), "Waiting for response...");
    assert_eq!(scene.update(&asking).actions, vec![]);

    let using = || ViewerInput {
        hovered: true,
        modifiers: modifiers(true, false, false),
        events: vec![
            InputEvent::PointerMoved { mouse_x: 1, mouse_y: 2 },
            InputEvent::Key { physical_key: Some(Key::C), pressed: true },
            InputEvent::Key { physical_key: Some(Key::F30), pressed: true },
            InputEvent::Key { physical_key: None, pressed: true },
            InputEvent::Other,
            InputEvent::PointerButton {
                mouse_x: 3,
                mouse_y: 4,
                button: PointerButton::Primary,
                pressed: true,
            },
            InputEvent::MouseWheel { delta: -1 },
        ],
        ..watching()
    };
    assert_eq!(scene.update(&using()).actions, vec![]);
    scene.on_packet(Packet::RequestControl { username: text("ann") });
    assert_eq!(scene.viewer.control.message(), "You're the controller!");
    let control = |payload| send(Packet::Control { payload });
    assert_eq!(
        scene.update(&using()).actions,
        vec![
            control(ControlPayload::Keyboard { pressed: true, key: 0x11 }),
            control(ControlPayload::MouseMove { mouse_x: 1, mouse_y: 2 }),
            control(ControlPayload::Keyboard { pressed: true, key: 0x43 }),
            control(ControlPayload::MouseClick {
                mouse_x: 3,
                mouse_y: 4,
                pressed: true,
                button: PointerButton::Primary,
            }),
            control(ControlPayload::Scroll { delta: -1 }),
        ]
    );
    scene.on_packet(Packet::DenyControl { username: text("ann") });
    assert_eq!(scene.viewer.control, ControlState::Request);
    assert_eq!(scene.viewer.chat_log.len(), 0);
    scene.on_packet(Packet::DenyControl { username: text("ann") });
    assert_eq!(
        scene.viewer.chat_log,
        vec!["#rYour control request was denied by the host."]
    );
}

#[test]
fn a_participant_hears_of_users() {
    let mut scene = ParticipantScene::new(text("ann"), vec![]);
    scene.on_packet(update("host", UserType::Host, true));
    scene.on_packet(update("ann", UserType::Participant, false));
    scene.on_packet(update("ann", UserType::Controller, true));
    assert_eq!(
        scene.viewer.chat_log,
        vec!["#gann has joined the session.", "#bann is now a Controller."]
    );
    assert_eq!(scene.viewer.usernames.len(), 2);
}

#[test]
fn old_pictures_make_room_for_new_ones() {
    let mut scene = ParticipantScene::new(text("ann"), vec![0]);
    for i in 1..=6u8 {
        scene.viewer.push_frame(vec![i]);
    }
    assert_eq!(scene.viewer.frame_queue, vec![vec![3], vec![4], vec![5], vec![6]]);
    scene.update(&ViewerInput { frame_due: true, ..watching() });
    assert_eq!(scene.viewer.current_frame, vec![3]);
    assert_eq!(scene.viewer.frame_queue.len(), 3);
}

#[test]
fn a_participant_leaves_or_is_left() {
    let mut scene = ParticipantScene::new(text("ann"), vec![]);
    let leaving = ViewerInput { disconnect: true, ..watching() };
    let frame = scene.update(&leaving);
    let left = [SceneAction::AwaitEnd, SceneAction::StopVideo];
    assert_eq!(frame.actions[0], send(Packet::SessionExit));
    assert_eq!(frame.actions[1..], left);
    assert_eq!(
        frame.change,
        SceneChange::Menu { username: text("ann"), status_message: text("") }
    );
    let mut scene = ParticipantScene::new(text("ann"), vec![]);
    assert_eq!(
        scene.on_packet(Packet::Screen { bytes: vec![1] }),
        ViewerEvent::Decode { bytes: vec![1] }
    );
    assert_eq!(scene.on_packet(Packet::SessionEnd), ViewerEvent::ConfirmEnd);
    let frame = scene.update(&leaving);
    assert_eq!(frame.actions, vec![SceneAction::StopVideo, SceneAction::AwaitEnd]);
    assert_eq!(
        frame.change,
        SceneChange::Menu {
            username: text("ann"),
            status_message: text("The host ended the session."),
        }
    );
    assert_eq!(
        scene.on_exit(),
        vec![
            send(Packet::SessionExit),
            SceneAction::AwaitEnd,
            SceneAction::StopVideo,
            SceneAction::ReceiveRecordings,
            send(Packet::SignOut),
            send(Packet::Shutdown),
        ]
    );
}

#[test]
fn the_plain_scene_is_silent_about_denials() {
    let mut scene = MainScene::new(text("ann"), vec![]);
    scene.on_packet(Packet::DenyControl { username: text("ann") });
    assert_eq!(scene.viewer.chat_log.len(), 0);
    assert_eq!(scene.on_packet(Packet::SessionExit), ViewerEvent::Stop);
    assert_eq!(
        scene.update(&watching()).change,
        SceneChange::Menu { username: text("ann"), status_message: text("") }
    );
    assert_eq!(scene.on_exit().len(), 6);
}

fn click(select_login: bool, select_register: bool, submit: bool) -> LoginInput {
    LoginInput { select_login, select_register, submit }
}

#[test]
fn a_client_waits_for_the_connection() {
    let mut scene = LoginScene::new(false);
    assert_eq!(scene.connection_status(), "Connecting to server...");
    assert_eq!(scene.update(ConnectionNews::Pending, click(false, true, true)), None);
    assert!(scene.is_login);
    scene.update(ConnectionNews::Connected, click(false, false, false));
    assert_eq!(scene.connection_status(), "Connected to server!");
    let mut scene = LoginScene::new(false);
    scene.update(ConnectionNews::Failed, click(false, false, false));
    assert_eq!(scene.connection_status(), "Failed to connect to server.");
    assert_eq!(scene.on_exit(), Packet::Shutdown);
}

#[test]
fn passwords_are_sent_as_digests() {
    let mut scene = LoginScene::new(true);
    scene.login_username = text("ann");
    scene.login_password = text("abcdefghijklmnopqrstuvwxyz");
    assert_eq!(
        scene.update(ConnectionNews::Pending, click(false, false, true)),
        Some(Packet::Login {
            username: text("ann"),
            password: text("c3fcd3d76192e4007dfb496cca67e13b"),
        })
    );
    scene.login_password = text("");
    assert_eq!(
        scene.login(),
        Some(Packet::Login {
            username: text("ann"),
            password: text("d41d8cd98f00b204e9800998ecf8427e"),
        })
    );
    assert_eq!(
        scene.reply(ResultPacket::Failure(text("no"))),
        SceneChange::Stay
    );
    assert_eq!(scene.error_message_login, "no");
    assert_eq!(
        scene.reply(ResultPacket::Success(text("Signing in"))),
        SceneChange::Menu { username: text("ann"), status_message: text("") }
    );
}

#[test]
fn a_name_that_is_too_long_is_not_sent() {
    let mut scene = LoginScene::new(true);
    scene.login_username = text("ééééééééééé");
    assert_eq!(scene.login(), None);
    assert_eq!(scene.error_message_login, "Username cannot be longer than 20 characters.");
}

#[test]
fn registrations_are_checked() {
    let mut scene = LoginScene::new(true);
    let mut try_with = |name: &str, password: &str, again: &str| {
        scene.register_username = text(name);
        scene.register_password = text(password);
        scene.register_confirm_password = text(again);
        let packet = scene.update(ConnectionNews::Pending, click(false, true, true));
        (packet, scene.error_message_register.clone())
    };
    let (packet, error) = try_with("ann", "a", "b");
    assert_eq!((packet, error.as_str()), (None, "Passwords do not match."));
    let (packet, error) = try_with("", "a", "a");
    assert_eq!((packet, error.as_str()), (None, "Username cannot be empty."));
    let (packet, error) = try_with("a b", "a", "a");
    assert_eq!(
        (packet, error.as_str()),
        (None, "Username can only contain English letters and numbers.")
    );
    let (packet, error) = try_with("aaaaaaaaaaaaaaaaaaaaa", "a", "a");
    assert_eq!(
        (packet, error.as_str()),
        (None, "Username cannot be longer than 20 characters.")
    );
    let (packet, error) = try_with("ann", "", "");
    assert_eq!((packet, error.as_str()), (None, "Password cannot be empty."));
    let (packet, _) = try_with("ann", "a", "a");
    assert_eq!(
        packet,
        Some(Packet::Register {
            username: text("ann"),
            password: text("0cc175b9c0f1b6a831c399e269772661"),
        })
    );
    assert_eq!(
        scene.reply(ResultPacket::Success(text(""))),
        SceneChange::Menu { username: text("ann"), status_message: text("") }
    );
}

#[test]
fn recordings_are_listed_newest_first() {
    let mut list = RecordingList::new();
    for (id, name) in [(1, "2025-01-02"), (2, "2025-03-01"), (3, "2024-12-31")] {
        assert!(!list.receive(Packet::RecordingName { id, name: text(name) }));
    }
    assert!(!list.receive(Packet::Host));
    assert!(!list.receive(Packet::RecordingName { id: 3, name: text("2025-02-02") }));
    assert!(list.receive(Packet::Empty));
    assert_eq!(
        list.sorted(),
        vec![
            (2, text("2025-03-01")),
            (3, text("2025-02-02")),
            (1, text("2025-01-02")),
        ]
    );
}

/// The frame of a menu with one recording, and what was clicked.
fn clicks(sign_out: bool, watch: bool, join: bool, host: bool) -> MenuInput {
    MenuInput { sign_out, watch: vec![watch], join, host }
}

fn menu() -> MenuScene {
    MenuScene::new(text("ann"), vec![(4, text("t4"))], text("welcome"))
}

#[test]
fn codes_that_can_be_joined() {
    let mut scene = menu();
    for (code, can_join) in [
        ("99999", false),
        ("100000", true),
        ("100001", true),
        ("999999", true),
        ("1000000", false),
        ("+12345", false),
        ("12a456", false),
        ("", false),
    ] {
        scene.session_code = text(code);
        assert_eq!(scene.can_join(), can_join, "{}", code);
    }
}

#[test]
fn joining_from_the_menu() {
    let mut scene = menu();
    assert!(scene.update(None, &clicks(false, false, true, false)).packets.is_empty());
    scene.session_code = text("123456");
    assert_eq!(
        scene.update(None, &clicks(false, false, true, false)).packets,
        vec![Packet::Join { code: 123_456, username: text("ann") }]
    );
    scene.join_reply(ResultPacket::Failure(text("No session found with code 123456")));
    assert!(scene.is_error);
    assert!(!scene.is_disabled);
    scene.join_reply(ResultPacket::Success(text("Joining")));
    assert!(scene.is_disabled);
    assert_eq!(scene.status_message, "Waiting for the host to approve...");
    assert!(scene.update(None, &clicks(true, false, false, false)).packets.is_empty());
    let frame = scene.update(Some((false, text("denied"))), &clicks(false, false, false, false));
    assert_eq!(frame.change, SceneChange::Stay);
    assert_eq!(scene.status_message, "denied");
    assert!(scene.is_error);
    let frame = scene.update(Some((true, text("Joining"))), &clicks(false, false, false, false));
    assert_eq!(frame.change, SceneChange::Participant { username: text("ann") });
}

#[test]
fn a_code_that_is_no_number() {
    let mut scene = menu();
    scene.session_code = text("abc");
    assert_eq!(scene.join_button(), None);
    assert_eq!(
        scene.status_message,
        "Invalid session code. Please enter a 6 digit code."
    );
}

#[test]
fn hosting_watching_and_signing_out_from_the_menu() {
    let mut scene = menu();
    assert_eq!(scene.update(None, &clicks(false, false, false, true)).packets, vec![Packet::Host]);
    assert_eq!(
        scene.host_button(ResultPacket::Success(text("654321"))),
        SceneChange::Host { code: text("654321"), username: text("ann") }
    );
    assert_eq!(
        scene.update(None, &clicks(false, true, false, false)).packets,
        vec![Packet::WatchRecording { id: 4 }]
    );
    assert_eq!(
        scene.watch_reply(ResultPacket::Success(text("900"))),
        SceneChange::Watch { username: text("ann"), duration: 900 }
    );
    assert_eq!(
        scene.watch_reply(ResultPacket::Failure(text("No recording found."))),
        SceneChange::Stay
    );
    assert_eq!(scene.status_message, "No recording found.");
    let frame = scene.update(None, &clicks(true, false, false, false));
    assert_eq!(frame.packets, vec![Packet::SignOut]);
    assert_eq!(frame.change, SceneChange::Login);
    assert_eq!(scene.on_exit(), vec![Packet::SignOut, Packet::Shutdown]);
    scene.username = text("");
    assert_eq!(scene.update(None, &clicks(false, false, false, true)).packets, vec![]);
}

#[test]
fn everything_that_is_clicked_in_a_frame_counts() {
    let mut scene = menu();
    scene.session_code = text("100000");
    let frame = scene.update(None, &clicks(true, true, true, true));
    assert_eq!(
        frame.packets,
        vec![
            Packet::SignOut,
            Packet::WatchRecording { id: 4 },
            Packet::Join { code: 100_000, username: text("ann") },
            Packet::Host,
        ]
    );
    let later = scene.host_button(ResultPacket::Success(text("654321")));
    assert_eq!(
        frame.change.followed_by(SceneChange::Stay).followed_by(later),
        SceneChange::Host { code: text("654321"), username: text("ann") }
    );
    assert_eq!(SceneChange::Login.followed_by(SceneChange::Stay), SceneChange::Login);
}

#[test]
fn recordings_are_labelled_with_their_times() {
    let recordings = vec![
        (1, text("2024-05-01T23:30:05+02:00")),
        (2, text("1970-01-01 00:00:00Z")),
    ];
    let scene = MenuScene::new(text("ann"), recordings, text(""));
    assert_eq!(scene.recording_times(), Some(vec![1_714_599_005, 0]));
    assert_eq!(
        scene.recording_labels(&vec![3 * 3600, -3600]),
        Some(vec![
            text("May 2, 2024 | 00:30:05"),
            text("December 31, 1969 | 23:00:00"),
        ])
    );
    assert_eq!(menu().recording_times(), None);
    assert_eq!(menu().recording_labels(&vec![0]), None);
}

fn idle() -> WatchInput {
    WatchInput {
        frame_due: false,
        toggle_pause: false,
        backward: false,
        forward: false,
        exit: false,
    }
}

fn seek(time_seconds: i32) -> Vec<PlayerAction> {
    vec![
        PlayerAction::Send { packet: Packet::SeekInit },
        PlayerAction::StopPlayer,
        PlayerAction::Send { packet: Packet::SeekTo { time_seconds } },
        PlayerAction::StartPlayer,
    ]
}

#[test]
fn a_recording_is_played_and_paused() {
    let mut scene = WatchScene::new(text("ann"), 3_661, vec![0]);
    assert_eq!(scene.time_string(), "00:00 / 02:02");
    while scene.has_room() {
        scene.push_frame(vec![7]);
    }
    assert_eq!(scene.frame_queue.len(), 30);
    scene.update(WatchInput { frame_due: true, ..idle() });
    assert_eq!(scene.current_frame_number, 1);
    assert_eq!(scene.current_frame, vec![7]);
    scene.update(WatchInput { toggle_pause: true, ..idle() });
    assert!(scene.is_paused);
    scene.update(WatchInput { frame_due: true, ..idle() });
    assert_eq!(scene.current_frame_number, 1);
    assert_eq!(scene.frame_queue.len(), 29);
}

#[test]
fn a_recording_is_moved_within_its_length() {
    let mut scene = WatchScene::new(text("ann"), 301, vec![]);
    scene.push_frame(vec![1]);
    let frame = scene.update(WatchInput { backward: true, ..idle() });
    assert_eq!(frame.actions, seek(0));
    assert_eq!(scene.frame_queue.len(), 0);
    let frame = scene.update(WatchInput { forward: true, ..idle() });
    assert_eq!(frame.actions, seek(5));
    assert_eq!(scene.current_frame_number, 150);
    scene.update(WatchInput { forward: true, ..idle() });
    let frame = scene.update(WatchInput { forward: true, ..idle() });
    assert_eq!(frame.actions, seek(10));
    assert_eq!(scene.current_frame_number, 300);
    let frame = scene.update(WatchInput { backward: true, forward: true, ..idle() });
    assert_eq!(frame.actions[..4], seek(5));
    assert_eq!(frame.actions[4..], seek(10));
}

#[test]
fn a_recording_is_left() {
    let mut scene = WatchScene::new(text("ann"), 301, vec![]);
    let frame = scene.update(WatchInput { exit: true, ..idle() });
    assert_eq!(
        frame.actions,
        vec![
            PlayerAction::Send { packet: Packet::SessionExit },
            PlayerAction::StopPlayer,
        ]
    );
    assert_eq!(
        frame.change,
        SceneChange::Menu { username: text("ann"), status_message: text("") }
    );
    assert_eq!(
        scene.on_exit(),
        vec![
            PlayerAction::Send { packet: Packet::SessionExit },
            PlayerAction::StopPlayer,
            PlayerAction::ReceiveRecordings,
            PlayerAction::Send { packet: Packet::SignOut },
            PlayerAction::Send { packet: Packet::Shutdown },
        ]
    );
}

#[test]
fn times_of_odd_lengths() {
    let scene = WatchScene::new(text("ann"), -60, vec![]);
    assert_eq!(
        scene.time_string(),
        format!("00:00 / {:02}:{:02}", -60 / 1800, (-60 % 1800) / 30)
    );
    let scene = WatchScene::new(text("ann"), i32::MAX, vec![]);
    assert_eq!(
        scene.time_string(),
        format!("00:00 / {:02}:{:02}", i32::MAX / 1800, (i32::MAX % 1800) / 30)
    );
}

#[test]
fn packets_of_a_recording() {
    let screen = Packet::Screen { bytes: vec![1] };
    assert_eq!(
        on_player_packet(screen.clone(), true),
        PlayerEvent::Decode { bytes: vec![1] }
    );
    assert_eq!(on_player_packet(screen, false), PlayerEvent::Nothing);
    assert_eq!(on_player_packet(Packet::Empty, true), PlayerEvent::CloseVideo);
    assert_eq!(on_player_packet(Packet::SeekInit, true), PlayerEvent::Stop);
    assert_eq!(on_player_packet(Packet::SessionExit, true), PlayerEvent::Stop);
    assert_eq!(on_player_packet(Packet::Host, true), PlayerEvent::Nothing);
}

#[test]
fn arguments_of_the_video_programs() {
    assert_eq!(start_ffmpeg_capture().len(), 23);
    assert_eq!(start_ffmpeg_capture()[1], "gdigrab");
    assert_eq!(
        start_ffmpeg(),
        vec![
            "-flags", "low_delay", "-fflags", "discardcorrupt", "-f", "h264", "-i", "-", "-f",
            "rawvideo", "-pix_fmt", "rgba", "-",
        ]
    );
    assert_eq!(start_ffprobe("abc")[8], "recordings/abc.mp4");
}
