use std::collections::VecDeque;
use stream_desk::protocol::{
    get_i32_from_packet, get_u16_from_packet, get_u32_from_packet, read_length_and_data,
    write_length_and_string, ControlPayload, Decoded, Packet, PointerButton, ProtocolMessage,
    ResultPacket,
};
use stream_desk::user_type::UserType;

fn round_trip(packet: Packet) {
    let mut bytes = packet.to_bytes();
    assert_eq!(Packet::from_bytes(bytes.clone()), Some(packet.clone()));
    bytes.extend_from_slice(&[1, 2, 3]);
    assert_eq!(Packet::from_bytes(bytes), Some(packet));
}

#[test]
fn numbers_are_read_from_the_front() {
    let mut bytes = VecDeque::from(vec![0x01, 0x02, 0x03, 0x04, 0x05]);
    assert_eq!(get_u32_from_packet(&mut bytes), Some(0x0102_0304));
    assert_eq!(bytes, VecDeque::from(vec![0x05]));
    let mut bytes = VecDeque::from(vec![0xff, 0xff, 0xff, 0xfe]);
    assert_eq!(get_i32_from_packet(&mut bytes), Some(-2));
    assert!(bytes.is_empty());
    let mut bytes = VecDeque::from(vec![0x12, 0x34]);
    assert_eq!(get_u16_from_packet(&mut bytes), Some(0x1234));
}

#[test]
fn too_few_bytes_are_no_number() {
    let mut bytes = VecDeque::from(vec![1, 2, 3]);
    assert_eq!(get_u32_from_packet(&mut bytes), None);
    assert_eq!(get_i32_from_packet(&mut bytes), None);
    assert_eq!(bytes.len(), 3);
    let mut bytes = VecDeque::from(vec![1]);
    assert_eq!(get_u16_from_packet(&mut bytes), None);
}

#[test]
fn data_is_read_by_its_length() {
    let mut bytes = VecDeque::from(vec![0, 0, 0, 2, 10, 11, 12]);
    assert_eq!(read_length_and_data(&mut bytes), Some(vec![10, 11]));
    assert_eq!(bytes, VecDeque::from(vec![12]));
    let mut bytes = VecDeque::from(vec![0, 0, 0, 9, 10]);
    assert_eq!(read_length_and_data(&mut bytes), None);
    assert_eq!(bytes, VecDeque::from(vec![10]));
}

#[test]
fn text_is_written_behind_its_length_in_bytes() {
    let mut bytes = vec![7];
    write_length_and_string(&mut bytes, "hé");
    assert_eq!(bytes, vec![7, 0, 0, 0, 3, b'h', 0xc3, 0xa9]);
}

#[test]
fn every_packet_is_read_back() {
    round_trip(Packet::Empty);
    round_trip(Packet::Login { username: "ann".to_owned(), password: "ü".to_owned() });
    round_trip(Packet::Register { username: "".to_owned(), password: "x".to_owned() });
    round_trip(Packet::Host);
    round_trip(Packet::Join { code: 999_999, username: "bob".to_owned() });
    round_trip(Packet::UserUpdate {
        user_type: UserType::Controller,
        joined_before: true,
        username: "bob".to_owned(),
    });
    round_trip(Packet::UserUpdate {
        user_type: UserType::Leaving,
        joined_before: false,
        username: "bob".to_owned(),
    });
    round_trip(Packet::Screen { bytes: vec![0, 0, 1, 103] });
    round_trip(Packet::SessionExit);
    round_trip(Packet::RequestControl { username: "bob".to_owned() });
    round_trip(Packet::DenyControl { username: "bob".to_owned() });
    round_trip(Packet::SignOut);
    round_trip(Packet::Shutdown);
    round_trip(Packet::SessionEnd);
    round_trip(Packet::Chat { message: "hi: there".to_owned() });
    round_trip(Packet::WatchRecording { id: -3 });
    round_trip(Packet::RecordingName { id: i32::MIN, name: "2025-01-01".to_owned() });
    round_trip(Packet::DenyJoin { username: "bob".to_owned() });
    round_trip(Packet::SeekInit);
    round_trip(Packet::SeekTo { time_seconds: 61 });
}

#[test]
fn every_payload_is_read_back() {
    let payloads = vec![
        ControlPayload::MouseMove { mouse_x: 65_535, mouse_y: 1 },
        ControlPayload::MouseClick {
            mouse_x: 3,
            mouse_y: u32::MAX,
            pressed: true,
            button: PointerButton::Middle,
        },
        ControlPayload::Keyboard { pressed: false, key: 0x41 },
        ControlPayload::Scroll { delta: -1 },
    ];
    for payload in payloads {
        assert_eq!(ControlPayload::from_bytes(payload.to_bytes()), Some(payload));
        round_trip(Packet::Control { payload });
    }
}

#[test]
fn the_extra_buttons_are_lost_on_the_wire() {
    let payload = ControlPayload::MouseClick {
        mouse_x: 0,
        mouse_y: 0,
        pressed: true,
        button: PointerButton::Extra1,
    };
    assert_eq!(payload.to_bytes(), vec![1, 0, 0, 0, 0, 0, 0, 0, 0, 1, 3]);
    assert_eq!(ControlPayload::from_bytes(payload.to_bytes()), None);
}

#[test]
fn encodings_are_as_documented() {
    assert_eq!(Packet::Empty.to_bytes(), vec![0]);
    assert_eq!(Packet::SeekInit.to_bytes(), vec![19]);
    assert_eq!(
        Packet::Join { code: 0x0001_86a1, username: "a".to_owned() }.to_bytes(),
        vec![4, 0, 1, 0x86, 0xa1, 0, 0, 0, 1, b'a']
    );
    assert_eq!(
        Packet::UserUpdate {
            user_type: UserType::Participant,
            joined_before: true,
            username: "a".to_owned(),
        }
        .to_bytes(),
        vec![5, 3, 1, 0, 0, 0, 1, b'a']
    );
    assert_eq!(
        Packet::SeekTo { time_seconds: -1 }.to_bytes(),
        vec![8, 255, 255, 255, 255]
    );
    assert_eq!(
        ResultPacket::Success("ok".to_owned()).to_bytes(),
        vec![1, 0, 0, 0, 2, b'o', b'k']
    );
}

#[test]
fn results_are_read_back() {
    let failure = ResultPacket::Failure("no".to_owned());
    assert_eq!(ResultPacket::from_bytes(failure.to_bytes()), Some(failure));
    assert_eq!(ResultPacket::from_bytes(vec![2, 0, 0, 0, 0]), None);
    assert_eq!(ResultPacket::from_bytes(vec![]), None);
    assert_eq!(ResultPacket::decode(vec![9, 0, 0, 0, 1, 0xff]), Decoded::BadText);
}

#[test]
fn incomplete_and_unknown_packets_are_malformed() {
    assert_eq!(Packet::from_bytes(vec![]), None);
    assert_eq!(Packet::from_bytes(vec![20]), None);
    assert_eq!(Packet::from_bytes(vec![4, 0, 1]), None);
    assert_eq!(Packet::from_bytes(vec![5, 4, 0, 0, 0, 0, 0]), None);
    assert_eq!(Packet::from_bytes(vec![6, 2, 1]), None);
    assert_eq!(Packet::from_bytes(vec![6, 4, 0, 0]), None);
    assert_eq!(Packet::from_bytes(vec![8, 0]), None);
    assert_eq!(Packet::decode(vec![15, 0, 0, 0, 1, 0x80]), Decoded::BadText);
}

#[test]
fn any_nonzero_byte_is_true() {
    assert_eq!(
        Packet::from_bytes(vec![5, 1, 7, 0, 0, 0, 0]),
        Some(Packet::UserUpdate {
            user_type: UserType::Host,
            joined_before: true,
            username: String::new(),
        })
    );
}

#[test]
fn payload_lengths() {
    assert_eq!(ControlPayload::get_length(0), 8);
    assert_eq!(ControlPayload::get_length(1), 10);
    assert_eq!(ControlPayload::get_length(2), 3);
    assert_eq!(ControlPayload::get_length(3), 4);
    assert_eq!(ControlPayload::get_length(4), 0);
}

#[test]
fn the_default_packet_is_empty() {
    assert_eq!(Packet::default(), Packet::Empty);
}

#[test]
fn roles_have_bytes_and_names() {
    assert_eq!(UserType::from_byte(2), Some(UserType::Controller));
    assert_eq!(UserType::from_byte(4), None);
    assert_eq!(UserType::Participant.to_byte(), 3);
    assert_eq!(UserType::Host.to_text(), "Host");
    assert_eq!(UserType::Leaving.to_text(), "Leaving");
}
