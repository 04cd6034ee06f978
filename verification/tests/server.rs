use std::collections::HashMap;
use stream_desk::protocol::{ControlPayload, Packet, ResultPacket};
use stream_desk::server::client::{generate_session_code, Client, MenuRequest, Phase};
use stream_desk::server::host::{handle_host, new_recording};
use stream_desk::server::login::{
    check_name, login_or_register, reply_to_account, AccountOutcome, AccountRequest,
};
use stream_desk::server::participant::handle_participant;
use stream_desk::server::session::{Action, Connection, Recording, Session};
use stream_desk::server::watch::{
    ffmpeg_save_recording, ffmpeg_send_recording, get_video_path, WatchAction, Watching,
};
use stream_desk::user_type::UserType;
use stream_desk::video::{nal_step, packets_for, screen_packet, NalStep, UnitReader};

fn text(s: &str) -> String {
    s.to_owned()
}

fn connection(channel: u64, user_type: UserType) -> Connection {
    Connection { channel, user_type }
}

/// A session with a host, a participant and a controller.
fn session() -> Session {
    let mut session = Session::new(text("host"), connection(1, UserType::Host));
    session.apply(&Action::Admit {
        username: text("ann"),
        connection: connection(2, UserType::Participant),
    });
    session.apply(&Action::Admit {
        username: text("bob"),
        connection: connection(3, UserType::Controller),
    });
    session
}

fn run(session: &mut Session, actions: &[Action]) {
    for action in actions {
        session.apply(action);
    }
}

fn send(channel: u64, packet: Packet) -> Action {
    Action::Send { channel, packet }
}

fn update(username: &str, user_type: UserType, joined_before: bool) -> Packet {
    Packet::UserUpdate { user_type, joined_before, username: text(username) }
}

#[test]
fn a_new_session_has_its_host() {
    let session = Session::new(text("host"), connection(9, UserType::Host));
    assert_eq!(session.connections.len(), 1);
    assert_eq!(session.host(), 9);
    assert_eq!(session.pending_join.len(), 0);
}

#[test]
fn broadcasts_reach_whom_they_should() {
    let session = session();
    assert_eq!(
        session.broadcast_all(&Packet::SessionEnd),
        vec![
            send(1, Packet::SessionEnd),
            send(2, Packet::SessionEnd),
            send(3, Packet::SessionEnd),
        ]
    );
    assert_eq!(
        session.broadcast_participants(&Packet::SessionEnd),
        vec![send(2, Packet::SessionEnd), send(3, Packet::SessionEnd)]
    );
}

#[test]
fn a_waiting_user_is_let_in_and_introduced() {
    let mut session = session();
    session.apply(&Action::AddPending {
        username: text("eve"),
        connection: connection(4, UserType::Participant),
    });
    let packet = Packet::Join { code: 0, username: text("eve") };
    let step = handle_host(&session, &text("host"), &packet);
    assert!(!step.ended);
    let news = update("eve", UserType::Participant, false);
    assert_eq!(
        step.actions,
        vec![
            Action::TakePending { username: text("eve") },
            Action::Reply { channel: 4, result: ResultPacket::Success(text("Joining")) },
            Action::NotifyJoin { username: text("eve"), allowed: true },
            send(4, update("host", UserType::Host, true)),
            send(4, update("ann", UserType::Participant, true)),
            send(4, update("bob", UserType::Controller, true)),
            Action::Admit {
                username: text("eve"),
                connection: connection(4, UserType::Participant),
            },
            send(1, news.clone()),
            send(2, news.clone()),
            send(3, news.clone()),
            send(4, news),
        ]
    );
    run(&mut session, &step.actions);
    assert_eq!(
        session.connections.get(&text("eve")),
        Some(connection(4, UserType::Participant))
    );
    assert!(!session.pending_join.contains(&text("eve")));
    assert_eq!(session.host(), 1);
}

#[test]
fn an_unknown_user_is_not_let_in() {
    let packet = Packet::Join { code: 0, username: text("eve") };
    assert_eq!(handle_host(&session(), &text("host"), &packet).actions, vec![]);
}

#[test]
fn a_waiting_user_is_turned_away() {
    let mut session = session();
    session.apply(&Action::AddPending {
        username: text("eve"),
        connection: connection(4, UserType::Participant),
    });
    let packet = Packet::DenyJoin { username: text("eve") };
    let step = handle_host(&session, &text("host"), &packet);
    assert_eq!(
        step.actions,
        vec![
            Action::Reply {
                channel: 4,
                result: ResultPacket::Failure(text("You were denied by the host.")),
            },
            Action::NotifyJoin { username: text("eve"), allowed: false },
            Action::TakePending { username: text("eve") },
        ]
    );
    run(&mut session, &step.actions);
    assert_eq!(session.pending_join.len(), 0);
    assert_eq!(session.connections.len(), 3);
    let packet = Packet::DenyJoin { username: text("zoe") };
    assert_eq!(
        handle_host(&session, &text("host"), &packet).actions,
        vec![Action::TakePending { username: text("zoe") }]
    );
}

#[test]
fn the_screen_is_recorded_and_sent_to_those_who_watch() {
    let packet = Packet::Screen { bytes: vec![1, 2] };
    assert_eq!(
        handle_host(&session(), &text("host"), &packet).actions,
        vec![
            Action::Record { bytes: vec![1, 2] },
            send(2, packet.clone()),
            send(3, packet.clone()),
        ]
    );
}

#[test]
fn the_host_ends_the_session() {
    for packet in [Packet::SessionExit, Packet::Empty] {
        let step = handle_host(&session(), &text("host"), &packet);
        assert!(step.ended);
        assert_eq!(
            step.actions,
            vec![
                send(1, Packet::SessionEnd),
                send(2, Packet::SessionEnd),
                send(3, Packet::SessionEnd),
                Action::CloseSession,
            ]
        );
    }
}

#[test]
fn control_is_given_and_taken() {
    let mut session = session();
    let packet = Packet::RequestControl { username: text("ann") };
    let step = handle_host(&session, &text("host"), &packet);
    let news = update("ann", UserType::Controller, true);
    assert_eq!(
        step.actions,
        vec![
            Action::SetUserType { username: text("ann"), user_type: UserType::Controller },
            send(2, packet),
            send(1, news.clone()),
            send(2, news.clone()),
            send(3, news),
        ]
    );
    run(&mut session, &step.actions);
    assert_eq!(
        session.connections.get(&text("ann")),
        Some(connection(2, UserType::Controller))
    );
    let packet = Packet::DenyControl { username: text("ann") };
    let step = handle_host(&session, &text("host"), &packet);
    assert_eq!(step.actions.len(), 5);
    assert_eq!(step.actions[1], send(2, packet.clone()));
    run(&mut session, &step.actions);
    assert_eq!(
        session.connections.get(&text("ann")),
        Some(connection(2, UserType::Participant))
    );
    let step = handle_host(&session, &text("host"), &packet);
    assert_eq!(
        step.actions,
        vec![
            Action::SetUserType { username: text("ann"), user_type: UserType::Participant },
            send(2, packet),
        ]
    );
    let packet = Packet::RequestControl { username: text("eve") };
    assert_eq!(handle_host(&session, &text("host"), &packet).actions, vec![]);
}

#[test]
fn chat_messages_are_signed() {
    let packet = Packet::Chat { message: text("hi") };
    let said = Packet::Chat { message: text("host: hi") };
    assert_eq!(
        handle_host(&session(), &text("host"), &packet).actions,
        vec![send(1, said.clone()), send(2, said.clone()), send(3, said)]
    );
    let said = Packet::Chat { message: text("ann: hi") };
    assert_eq!(
        handle_participant(&session(), &text("ann"), 2, &packet).actions,
        vec![send(1, said.clone()), send(2, said.clone()), send(3, said)]
    );
}

#[test]
fn only_the_controller_reaches_the_desktop() {
    let packet = Packet::Control { payload: ControlPayload::Scroll { delta: 1 } };
    assert_eq!(
        handle_participant(&session(), &text("bob"), 3, &packet).actions,
        vec![send(1, packet.clone())]
    );
    assert_eq!(handle_participant(&session(), &text("ann"), 2, &packet).actions, vec![]);
}

#[test]
fn requests_for_control_go_to_the_host_or_are_denied() {
    let packet = Packet::RequestControl { username: text("ann") };
    assert_eq!(
        handle_participant(&session(), &text("ann"), 2, &packet).actions,
        vec![send(1, packet.clone())]
    );
    assert_eq!(
        handle_participant(&session(), &text("bob"), 3, &packet).actions,
        vec![send(3, Packet::DenyControl { username: text("bob") })]
    );
}

#[test]
fn a_participant_leaves() {
    let mut session = session();
    let step = handle_participant(&session, &text("ann"), 2, &Packet::SessionExit);
    assert!(step.ended);
    let news = update("ann", UserType::Leaving, false);
    assert_eq!(
        step.actions,
        vec![
            Action::Leave { username: text("ann") },
            send(1, news.clone()),
            send(3, news),
            send(2, Packet::SessionExit),
        ]
    );
    run(&mut session, &step.actions);
    assert!(!session.connections.contains(&text("ann")));
    assert_eq!(session.connections.len(), 2);
    let step = handle_participant(&session, &text("bob"), 3, &Packet::SessionEnd);
    assert!(step.ended);
    assert_eq!(step.actions, vec![]);
}

#[test]
fn session_codes_are_free_and_have_six_digits() {
    let mut sessions: HashMap<u32, ()> = HashMap::new();
    for _ in 0..200 {
        let code = generate_session_code(&sessions);
        assert!((100_000..1_000_000).contains(&code));
        assert!(sessions.insert(code, ()).is_none());
    }
}

#[test]
fn codes_in_use_are_passed_over() {
    let sessions: HashMap<u32, ()> = (100_000..1_000_000)
        .filter(|code| *code % 1_000 != 456)
        .map(|code| (code, ()))
        .collect();
    assert_eq!(generate_session_code(&sessions) % 1_000, 456);
}

#[test]
fn names_are_checked_before_a_user_is_made() {
    assert_eq!(check_name(&text("")), Some(text("Username cannot be empty.")));
    assert_eq!(
        check_name(&text("ann lee")),
        Some(text("Username can only contain English letters and numbers."))
    );
    assert_eq!(
        check_name(&text("annlee0123456789abcde")),
        Some(text("Username cannot be longer than 20 characters."))
    );
    assert_eq!(check_name(&text("annlee0123456789abcd")), None);
    assert_eq!(check_name(&text("é")), Some(text(
        "Username can only contain English letters and numbers."
    )));
}

#[test]
fn account_requests() {
    assert_eq!(login_or_register(&Packet::Shutdown), AccountRequest::Close);
    assert_eq!(login_or_register(&Packet::Host), AccountRequest::Ignore);
    assert_eq!(
        login_or_register(&Packet::Login { username: text(""), password: text("p") }),
        AccountRequest::Find { username: text(""), password: text("p") }
    );
    assert_eq!(
        login_or_register(&Packet::Register { username: text("ann"), password: text("p") }),
        AccountRequest::Create { username: text("ann"), password: text("p") }
    );
    assert_eq!(
        login_or_register(&Packet::Register { username: text(""), password: text("p") }),
        AccountRequest::Refuse { reason: text("Username cannot be empty.") }
    );
}

#[test]
fn account_answers() {
    let answers = [
        (AccountOutcome::Found { user_id: 1 }, ResultPacket::Success(text("Signing in"))),
        (
            AccountOutcome::NotFound,
            ResultPacket::Failure(text("Username or password are incorrect.")),
        ),
        (AccountOutcome::FindFailed, ResultPacket::Failure(text("Error signing in."))),
        (AccountOutcome::Created { user_id: 1 }, ResultPacket::Success(text("Signing in"))),
        (AccountOutcome::Taken, ResultPacket::Failure(text("Username already taken."))),
        (AccountOutcome::CreateFailed, ResultPacket::Failure(text("Error signing up."))),
    ];
    for (outcome, answer) in answers {
        assert_eq!(reply_to_account(outcome), answer);
    }
}

/// A client in the menu, and the recordings of its user.
fn client_in_menu() -> (Client, HashMap<i32, Recording>) {
    let mut client = Client::new(5);
    let packet = Packet::Login { username: text("ann"), password: text("p") };
    assert_eq!(
        client.login_packet(&packet),
        AccountRequest::Find { username: text("ann"), password: text("p") }
    );
    let answer = client.account_outcome(text("ann"), AccountOutcome::Found { user_id: 7 });
    assert_eq!(answer, ResultPacket::Success(text("Signing in")));
    assert_eq!(client.phase, Phase::Arriving);
    let mut recordings = HashMap::new();
    recordings.insert(4, Recording { filename: text("f4"), time: text("t4") });
    recordings.insert(2, Recording { filename: text("f2"), time: text("t2") });
    let packets = client.list_recordings(&recordings);
    assert_eq!(packets.len(), 3);
    assert!(packets[..2].contains(&Packet::RecordingName { id: 4, name: text("t4") }));
    assert!(packets[..2].contains(&Packet::RecordingName { id: 2, name: text("t2") }));
    assert_eq!(packets[2], Packet::Empty);
    assert_eq!(client.phase, Phase::Menu);
    (client, recordings)
}

#[test]
fn a_failed_login_changes_nothing() {
    let mut client = Client::new(5);
    client.account_outcome(text("ann"), AccountOutcome::NotFound);
    assert_eq!(client.phase, Phase::Login);
    assert_eq!(client.username, "");
    assert_eq!(client.user_id, 0);
}

#[test]
fn signing_out_and_shutting_down_ends_the_visit() {
    let (mut client, recordings) = client_in_menu();
    assert_eq!(client.user_id, 7);
    assert_eq!(client.menu_packet(&Packet::SignOut, &recordings), MenuRequest::SignedOut);
    assert_eq!(client.phase, Phase::Login);
    assert_eq!(client.login_packet(&Packet::Shutdown), AccountRequest::Close);
    assert_eq!(client.phase, Phase::Closed);
}

#[test]
fn hosting_a_session() {
    let (mut client, recordings) = client_in_menu();
    assert_eq!(client.menu_packet(&Packet::Host, &recordings), MenuRequest::MakeSession);
    let (session, answer) = client.host_session(100_000);
    assert_eq!(answer, ResultPacket::Success(text("100000")));
    assert_eq!(session.host(), 5);
    assert_eq!(session.connections.name(0), "ann");
    assert_eq!(client.phase, Phase::Hosting { code: 100_000 });
    client.come_back();
    assert_eq!(client.phase, Phase::Arriving);
}

#[test]
fn joining_a_session() {
    let (mut client, recordings) = client_in_menu();
    let packet = Packet::Join { code: 123_456, username: text("eve") };
    assert_eq!(
        client.menu_packet(&packet, &recordings),
        MenuRequest::FindSession { code: 123_456, username: text("eve") }
    );
    let mut session = session();
    let actions = client.join_session(Some(&session), 123_456, &text("eve"));
    assert_eq!(
        actions,
        vec![
            Action::Reply { channel: 5, result: ResultPacket::Success(text("Joining")) },
            send(1, packet.clone()),
            Action::AddPending {
                username: text("eve"),
                connection: connection(5, UserType::Participant),
            },
        ]
    );
    run(&mut session, &actions);
    assert_eq!(client.phase, Phase::Waiting { code: 123_456, username: text("eve") });
    assert!(session.pending_join.contains(&text("eve")));
    let step = handle_host(&session, &text("host"), &packet);
    run(&mut session, &step.actions);
    client.join_decided(true);
    assert_eq!(client.phase, Phase::Participating { code: 123_456, username: text("eve") });
    assert_eq!(
        session.connections.get(&text("eve")),
        Some(connection(5, UserType::Participant))
    );
}

#[test]
fn requests_to_join_that_are_refused() {
    let (mut client, _) = client_in_menu();
    assert_eq!(
        client.join_session(None, 123_456, &text("eve")),
        vec![Action::Reply {
            channel: 5,
            result: ResultPacket::Failure(text("No session found with code 123456")),
        }]
    );
    assert_eq!(client.phase, Phase::Menu);
    assert_eq!(
        client.join_session(Some(&session()), 123_456, &text("ann")),
        vec![Action::Reply {
            channel: 5,
            result: ResultPacket::Failure(text(
                "You are already connected to this session from elsewhere."
            )),
        }]
    );
    assert_eq!(client.phase, Phase::Menu);
    client.join_session(Some(&session()), 123_456, &text("eve"));
    client.join_decided(false);
    assert_eq!(client.phase, Phase::Menu);
}

#[test]
fn asking_for_a_recording() {
    let (mut client, recordings) = client_in_menu();
    assert_eq!(
        client.menu_packet(&Packet::WatchRecording { id: 3 }, &recordings),
        MenuRequest::Refuse { reason: text("No recording found.") }
    );
    assert_eq!(
        client.menu_packet(&Packet::WatchRecording { id: 2 }, &recordings),
        MenuRequest::FindVideo { filename: text("f2") }
    );
    assert_eq!(
        client.watch_video(&text("f2"), None),
        ResultPacket::Failure(text("Video file does not exist on the server."))
    );
    assert_eq!(client.phase, Phase::Menu);
    assert_eq!(
        client.watch_video(&text("f2"), Some(900)),
        ResultPacket::Success(text("900"))
    );
    assert_eq!(client.phase, Phase::Watching { filename: text("f2") });
}

#[test]
fn packets_that_mean_nothing_in_the_menu() {
    let (mut client, recordings) = client_in_menu();
    assert_eq!(client.menu_packet(&Packet::SeekInit, &recordings), MenuRequest::Ignore);
    assert_eq!(client.phase, Phase::Menu);
}

#[test]
fn watching_and_moving() {
    let (mut watching, first) = Watching::start();
    assert_eq!(first, WatchAction::Start { time_seconds: 0 });
    assert_eq!(
        watching.handle_watching(&Packet::SeekInit),
        vec![WatchAction::Stop, WatchAction::Send { packet: Packet::SeekInit }]
    );
    assert!(!watching.playing);
    assert_eq!(
        watching.handle_watching(&Packet::SeekTo { time_seconds: 12 }),
        vec![WatchAction::Start { time_seconds: 12 }]
    );
    assert!(watching.playing);
    assert_eq!(watching.handle_watching(&Packet::Host), vec![]);
    assert_eq!(
        watching.handle_watching(&Packet::Empty),
        vec![WatchAction::Stop, WatchAction::Send { packet: Packet::SessionExit }]
    );
    assert!(!watching.watching);
}

#[test]
fn video_files_and_arguments() {
    assert_eq!(get_video_path("abc"), "recordings/abc.mp4");
    let arguments = ffmpeg_send_recording("abc", -7);
    assert_eq!(arguments[1], "-7");
    assert_eq!(arguments[3], "recordings/abc.mp4");
    assert_eq!(arguments.len(), 15);
    assert_eq!(
        ffmpeg_save_recording("abc"),
        vec!["-f", "h264", "-i", "-", "-c", "copy", "recordings/abc.mp4"]
    );
}

#[test]
fn a_recording_gets_a_name_of_its_own() {
    let first = new_recording(text("2024-05-01T10:00:00+02:00"));
    let second = new_recording(text("2024-05-01T10:00:00+02:00"));
    assert_eq!(first.time, "2024-05-01T10:00:00+02:00");
    assert_eq!(first.filename.len(), 36);
    assert_eq!(&first.filename[14..15], "4");
    assert!(matches!(&first.filename[19..20], "8" | "9" | "a" | "b"));
    for (i, c) in first.filename.chars().enumerate() {
        if i == 8 || i == 13 || i == 18 || i == 23 {
            assert_eq!(c, '-');
        } else {
            assert!(c.is_ascii_digit() || ('a'..='f').contains(&c));
        }
    }
    assert_ne!(first.filename, second.filename);
}

#[test]
fn units_of_video() {
    assert_eq!(nal_step(false, true), NalStep::Buffer);
    assert_eq!(nal_step(true, false), NalStep::Ignore);
    assert_eq!(nal_step(true, true), NalStep::Send);
    assert_eq!(
        screen_packet(vec![103, 66]),
        Packet::Screen { bytes: vec![0, 0, 1, 103, 66] }
    );
}

fn screen(bytes: &[u8]) -> Packet {
    Packet::Screen { bytes: bytes.to_vec() }
}

#[test]
fn only_complete_units_with_a_header_are_sent() {
    let units = vec![
        (false, true, vec![0x67]),
        (true, true, vec![0x67, 1]),
        (true, false, vec![0x80]),
        (true, true, vec![0x68]),
    ];
    assert_eq!(
        packets_for(units),
        vec![screen(&[0, 0, 1, 0x67, 1]), screen(&[0, 0, 1, 0x68])]
    );
    assert_eq!(packets_for(vec![]), vec![]);
}

#[test]
fn a_stream_of_video_becomes_packets() {
    let mut reader = UnitReader::new();
    assert_eq!(reader.screen_packets(&[0, 0, 0, 1, 0x67, 5]), vec![]);
    assert_eq!(reader.screen_packets(&[6, 0]), vec![]);
    assert_eq!(
        reader.screen_packets(&[0, 1, 0x68, 0, 7, 0, 0, 1]),
        vec![screen(&[0, 0, 1, 0x67, 5, 6]), screen(&[0, 0, 1, 0x68, 0, 7])]
    );
    assert_eq!(reader.screen_packets(&[0x80, 3, 0, 0, 1, 0x65]), vec![]);
    assert_eq!(reader.screen_packets(&[]), vec![]);
    assert_eq!(reader.screen_packets(&[0, 0, 0]), vec![screen(&[0, 0, 1, 0x65])]);
}

#[test]
fn how_a_stream_is_cut_does_not_matter_here() {
    let stream = [0u8, 0, 1, 0x67, 0, 0, 3, 1, 0, 0, 1, 0x68, 9, 0, 0, 0, 1, 0x65, 1, 2, 0, 0, 1];
    let whole = UnitReader::new().screen_packets(&stream);
    assert_eq!(whole.len(), 3);
    let mut reader = UnitReader::new();
    let mut packets = vec![];
    for byte in stream {
        packets.extend(reader.screen_packets(&[byte]));
    }
    assert_eq!(packets, whole);
}
