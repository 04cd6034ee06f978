//! The messages that clients and the server exchange, and their encoding.

use crate::text::text_from_utf8;
use crate::user_type;
use crate::user_type::UserType;
use crate::wire;
use crate::wire::{take_front, to_queue, write_bytes, write_i32, write_u16, write_u32};
use std::collections::VecDeque;
use vstd::prelude::*;
use vstd::utf8::*;

verus! {

broadcast use {wire::lemma_be_u16_len, wire::lemma_be_u32_len};

/// What reading a message from bytes yields.
#[derive(PartialEq, Eq, Debug)]
pub enum Decoded<T> {
    /// The bytes start with this message.
    Value(T),
    /// The bytes are incomplete, or stand for no message.
    Malformed,
    /// A text field of the message is not valid UTF-8.
    BadText,
}

impl<T: View> View for Decoded<T> {
    type V = Decoded<T::V>;

    open spec fn view(&self) -> Decoded<T::V> {
        match self {
            Decoded::Value(value) => Decoded::Value(value@),
            Decoded::Malformed => Decoded::Malformed,
            Decoded::BadText => Decoded::BadText,
        }
    }
}

/// A message that can be turned into bytes for the network and back.
pub trait ProtocolMessage: View + Sized {
    /// The bytes of a message.
    spec fn encoding(message: Self::V) -> Seq<u8>;

    /// The message that `bytes` start with.
    spec fn decoding(bytes: Seq<u8>) -> Decoded<Self::V>;

    /// Turns this message into bytes that can be sent over a socket.
    fn to_bytes(&self) -> (bytes: Vec<u8>)
        ensures
            bytes@ == Self::encoding(self@),
    ;

    /// Reads the message that `bytes` start with.
    fn decode(bytes: Vec<u8>) -> (message: Decoded<Self>)
        ensures
            message@ == Self::decoding(bytes@),
    ;

    /// Turns bytes into a message.
    ///
    /// Returns `None` if the bytes are no message of this type. Bytes whose
    /// text is not UTF-8 are not accepted; [`ProtocolMessage::decode`] tells
    /// them apart.
    fn from_bytes(bytes: Vec<u8>) -> (message: Option<Self>)
        requires
            !(Self::decoding(bytes@) is BadText),
        ensures
            match Self::decoding(bytes@) {
                Decoded::Value(value) => message is Some && message->Some_0@ == value,
                _ => message is None,
            },
    ;
}

/// Bytes preceded by their number, which is kept modulo 2^32.
pub open spec fn sized_field(data: Seq<u8>) -> Seq<u8> {
    wire::be_u32((data.len() % 0x1_0000_0000) as u32) + data
}

/// A text preceded by the length of its UTF-8 encoding.
pub open spec fn text_field(text: Seq<char>) -> Seq<u8> {
    sized_field(encode_utf8(text))
}

/// The length-prefixed field at the front of `s`, and what follows it.
pub open spec fn front_field(s: Seq<u8>) -> Option<(Seq<u8>, Seq<u8>)> {
    if s.len() < 4 || s.len() - 4 < wire::u32_at_front(s) {
        None
    } else {
        let end = 4 + wire::u32_at_front(s);
        Some((s.subrange(4, end), s.skip(end)))
    }
}

/// The length-prefixed text at the front of `s`, and what follows it.
pub open spec fn front_text(s: Seq<u8>) -> Decoded<(Seq<char>, Seq<u8>)> {
    match front_field(s) {
        None => Decoded::Malformed,
        Some((field, rest)) => if valid_utf8(field) {
            Decoded::Value((decode_utf8(field), rest))
        } else {
            Decoded::BadText
        },
    }
}

/// A field shorter than 2^32 bytes is read back whole.
pub proof fn lemma_front_field(data: Seq<u8>, rest: Seq<u8>)
    requires
        data.len() < 0x1_0000_0000,
    ensures
        front_field(sized_field(data) + rest) == Some((data, rest)),
{
    let s = sized_field(data) + rest;
    let n = data.len() as u32;
    assert(s =~= wire::be_u32(n) + (data + rest));
    wire::lemma_u32_round_trip(n, data + rest);
    assert(s.subrange(4, 4 + n) =~= data);
    assert(s.skip(4 + n) =~= rest);
}

/// A text shorter than 2^32 bytes is read back whole.
pub proof fn lemma_front_text(text: Seq<char>, rest: Seq<u8>)
    requires
        encode_utf8(text).len() < 0x1_0000_0000,
    ensures
        front_text(text_field(text) + rest) == Decoded::Value((text, rest)),
{
    lemma_front_field(encode_utf8(text), rest);
    encode_utf8_valid_utf8(text);
    encode_utf8_decode_utf8(text);
}

/// Extracts a big-endian `u32` from the front of the queue.
///
/// Returns `None`, and leaves the queue as it is, if there are fewer than four
/// bytes.
pub fn get_u32_from_packet(bytes: &mut VecDeque<u8>) -> (value: Option<u32>)
    ensures
        old(bytes)@.len() >= 4 ==> value == Some(wire::u32_at_front(old(bytes)@)) && final(bytes)@
            == old(bytes)@.skip(4),
        old(bytes)@.len() < 4 ==> value is None && final(bytes)@ == old(bytes)@,
{
    if bytes.len() < 4 {
        return None;
    }
    reveal(wire::u32_at_front);
    let data: Vec<u8> = take_front(bytes, 4);
    Some(data[0] as u32 * 0x100_0000 + data[1] as u32 * 0x1_0000 + data[2] as u32 * 0x100 + data[3] as u32)
}

/// Extracts a big-endian `i32` from the front of the queue.
///
/// Returns `None`, and leaves the queue as it is, if there are fewer than four
/// bytes.
pub fn get_i32_from_packet(bytes: &mut VecDeque<u8>) -> (value: Option<i32>)
    ensures
        old(bytes)@.len() >= 4 ==> value == Some(wire::i32_from_bits(wire::u32_at_front(old(bytes)@)))
            && final(bytes)@ == old(bytes)@.skip(4),
        old(bytes)@.len() < 4 ==> value is None && final(bytes)@ == old(bytes)@,
{
    match get_u32_from_packet(bytes) {
        None => None,
        Some(bits) => if bits < 0x8000_0000 {
            Some(bits as i32)
        } else {
            Some((bits as i64 - 0x1_0000_0000) as i32)
        },
    }
}

/// Extracts a big-endian `u16` from the front of the queue.
///
/// Returns `None`, and leaves the queue as it is, if there are fewer than two
/// bytes.
pub fn get_u16_from_packet(bytes: &mut VecDeque<u8>) -> (value: Option<u16>)
    ensures
        old(bytes)@.len() >= 2 ==> value == Some(wire::u16_at_front(old(bytes)@)) && final(bytes)@
            == old(bytes)@.skip(2),
        old(bytes)@.len() < 2 ==> value is None && final(bytes)@ == old(bytes)@,
{
    if bytes.len() < 2 {
        return None;
    }
    reveal(wire::u16_at_front);
    let data: Vec<u8> = take_front(bytes, 2);
    Some(data[0] as u16 * 0x100 + data[1] as u16)
}

/// Reads a big-endian `u32` and then that number of bytes.
///
/// Returns `None` if there are not enough bytes for the length, or for the
/// data; in the second case the length has been consumed.
pub fn read_length_and_data(bytes: &mut VecDeque<u8>) -> (data: Option<Vec<u8>>)
    ensures
        match front_field(old(bytes)@) {
            Some((field, rest)) => data is Some && data->Some_0@ == field && final(bytes)@ == rest,
            None => data is None && final(bytes)@ == (if old(bytes)@.len() < 4 {
                old(bytes)@
            } else {
                old(bytes)@.skip(4)
            }),
        },
{
    let ghost before = bytes@;
    let len: usize = match get_u32_from_packet(bytes) {
        Some(len) => len as usize,
        None => return None,
    };
    if bytes.len() < len {
        return None;
    }
    let data: Vec<u8> = take_front(bytes, len);
    assert(data@ =~= before.subrange(4, 4 + len));
    assert(bytes@ =~= before.skip(4 + len));
    Some(data)
}

/// Writes the length of a string as a big-endian `u32`, then its bytes.
pub fn write_length_and_string(bytes: &mut Vec<u8>, string: &str)
    ensures
        final(bytes)@ == old(bytes)@ + text_field(string@),
{
    write_length_and_data(bytes, string.as_bytes());
}

/// Writes the length of `data` as a big-endian `u32`, then `data`.
pub(crate) fn write_length_and_data(bytes: &mut Vec<u8>, data: &[u8])
    ensures
        final(bytes)@ == old(bytes)@ + sized_field(data@),
{
    let len: u32 = (data.len() as u64 % 0x1_0000_0000) as u32;
    write_u32(bytes, len);
    write_bytes(bytes, data);
    assert(bytes@ =~= old(bytes)@ + sized_field(data@));
}

/// Reads a length-prefixed text from the front of the queue.
fn read_text(bytes: &mut VecDeque<u8>) -> (text: Decoded<String>)
    ensures
        match front_text(old(bytes)@) {
            Decoded::Value((value, rest)) => text is Value && text->Value_0@ == value
                && final(bytes)@ == rest,
            Decoded::Malformed => text is Malformed,
            Decoded::BadText => text is BadText,
        },
{
    match read_length_and_data(bytes) {
        None => Decoded::Malformed,
        Some(data) => match text_from_utf8(data) {
            Some(text) => Decoded::Value(text),
            None => Decoded::BadText,
        },
    }
}

/// The result of an operation, with a message for the user.
#[derive(PartialEq, Eq, Debug)]
pub enum ResultPacket {
    /// The operation failed.
    Failure(String),
    /// The operation succeeded.
    Success(String),
}

/// The content of a [`ResultPacket`].
pub enum ResultView {
    Failure(Seq<char>),
    Success(Seq<char>),
}

impl View for ResultPacket {
    type V = ResultView;

    open spec fn view(&self) -> ResultView {
        match self {
            ResultPacket::Failure(msg) => ResultView::Failure(msg@),
            ResultPacket::Success(msg) => ResultView::Success(msg@),
        }
    }
}

/// The encoding of a result: its kind, then its message.
pub open spec fn result_encoding(result: ResultView) -> Seq<u8> {
    match result {
        ResultView::Failure(msg) => seq![0u8] + text_field(msg),
        ResultView::Success(msg) => seq![1u8] + text_field(msg),
    }
}

/// The result that `bytes` start with. The message is read before its kind is
/// looked at.
pub open spec fn result_decoding(bytes: Seq<u8>) -> Decoded<ResultView> {
    if bytes.len() == 0 {
        Decoded::Malformed
    } else {
        match front_text(bytes.skip(1)) {
            Decoded::Value((msg, _)) => if bytes[0] == 0 {
                Decoded::Value(ResultView::Failure(msg))
            } else if bytes[0] == 1 {
                Decoded::Value(ResultView::Success(msg))
            } else {
                Decoded::Malformed
            },
            Decoded::Malformed => Decoded::Malformed,
            Decoded::BadText => Decoded::BadText,
        }
    }
}

impl ProtocolMessage for ResultPacket {
    open spec fn encoding(message: ResultView) -> Seq<u8> {
        result_encoding(message)
    }

    open spec fn decoding(bytes: Seq<u8>) -> Decoded<ResultView> {
        result_decoding(bytes)
    }

    fn to_bytes(&self) -> (bytes: Vec<u8>) {
        let mut bytes: Vec<u8> = Vec::new();
        match self {
            ResultPacket::Failure(msg) => {
                bytes.push(0);
                write_length_and_string(&mut bytes, msg.as_str());
            },
            ResultPacket::Success(msg) => {
                bytes.push(1);
                write_length_and_string(&mut bytes, msg.as_str());
            },
        }
        assert(bytes@ =~= result_encoding(self@));
        bytes
    }

    fn decode(bytes: Vec<u8>) -> (message: Decoded<Self>) {
        let mut queue: VecDeque<u8> = to_queue(bytes);
        let packet_type: u8 = match queue.pop_front() {
            Some(packet_type) => packet_type,
            None => return Decoded::Malformed,
        };
        assert(queue@ =~= bytes@.skip(1));
        match read_text(&mut queue) {
            Decoded::Value(msg) => match packet_type {
                0 => Decoded::Value(ResultPacket::Failure(msg)),
                1 => Decoded::Value(ResultPacket::Success(msg)),
                _ => Decoded::Malformed,
            },
            Decoded::Malformed => Decoded::Malformed,
            Decoded::BadText => Decoded::BadText,
        }
    }

    fn from_bytes(bytes: Vec<u8>) -> (message: Option<Self>) {
        match Self::decode(bytes) {
            Decoded::Value(result) => Some(result),
            _ => None,
        }
    }
}

/// A mouse button.
#[derive(Clone, Copy, PartialEq, Eq, Structural, Debug)]
pub enum PointerButton {
    /// Usually the left button.
    Primary,
    /// Usually the right button.
    Secondary,
    /// Usually the wheel.
    Middle,
    /// The first extra button.
    Extra1,
    /// The second extra button.
    Extra2,
}

/// The byte that stands for a button on the wire.
pub open spec fn button_byte(button: PointerButton) -> u8 {
    match button {
        PointerButton::Primary => 0,
        PointerButton::Secondary => 1,
        PointerButton::Middle => 2,
        PointerButton::Extra1 => 3,
        PointerButton::Extra2 => 4,
    }
}

/// Input for the host's desktop.
#[derive(Clone, Copy, PartialEq, Eq, Structural, Debug)]
pub enum ControlPayload {
    /// The mouse moved.
    MouseMove { mouse_x: u32, mouse_y: u32 },
    /// A mouse button was pressed or released.
    MouseClick { mouse_x: u32, mouse_y: u32, pressed: bool, button: PointerButton },
    /// A key was pressed or released.
    Keyboard { pressed: bool, key: u16 },
    /// The wheel was turned.
    Scroll { delta: i32 },
}

/// One for true, zero for false.
pub open spec fn bool_byte(value: bool) -> u8 {
    if value {
        1
    } else {
        0
    }
}

/// The encoding of a control payload: its kind, then its fields in order.
pub open spec fn payload_encoding(payload: ControlPayload) -> Seq<u8> {
    match payload {
        ControlPayload::MouseMove { mouse_x, mouse_y } => seq![0u8] + wire::be_u32(mouse_x) + wire::be_u32(
            mouse_y,
        ),
        ControlPayload::MouseClick { mouse_x, mouse_y, pressed, button } => seq![1u8] + wire::be_u32(
            mouse_x,
        ) + wire::be_u32(mouse_y) + seq![bool_byte(pressed), button_byte(button)],
        ControlPayload::Keyboard { pressed, key } => seq![2u8, bool_byte(pressed)] + wire::be_u16(key),
        ControlPayload::Scroll { delta } => seq![3u8] + wire::be_i32(delta),
    }
}

/// The number of bytes that follow the kind of a payload; 0 for unknown kinds.
pub open spec fn payload_length(payload_type: u8) -> nat {
    if payload_type == 0 {
        8
    } else if payload_type == 1 {
        10
    } else if payload_type == 2 {
        3
    } else if payload_type == 3 {
        4
    } else {
        0
    }
}

/// The control payload that `bytes` start with. Only the first three buttons
/// are read; any nonzero byte means "pressed".
pub open spec fn payload_decoding(bytes: Seq<u8>) -> Option<ControlPayload> {
    if bytes.len() == 0 || bytes.len() < 1 + payload_length(bytes[0]) {
        None
    } else if bytes[0] == 0 {
        Some(
            ControlPayload::MouseMove {
                mouse_x: wire::u32_at_front(bytes.skip(1)),
                mouse_y: wire::u32_at_front(bytes.skip(5)),
            },
        )
    } else if bytes[0] == 1 {
        let mouse_x = wire::u32_at_front(bytes.skip(1));
        let mouse_y = wire::u32_at_front(bytes.skip(5));
        let pressed = bytes[9] != 0;
        if bytes[10] == 0 {
            Some(
                ControlPayload::MouseClick {
                    mouse_x,
                    mouse_y,
                    pressed,
                    button: PointerButton::Primary,
                },
            )
        } else if bytes[10] == 1 {
            Some(
                ControlPayload::MouseClick {
                    mouse_x,
                    mouse_y,
                    pressed,
                    button: PointerButton::Secondary,
                },
            )
        } else if bytes[10] == 2 {
            Some(
                ControlPayload::MouseClick {
                    mouse_x,
                    mouse_y,
                    pressed,
                    button: PointerButton::Middle,
                },
            )
        } else {
            None
        }
    } else if bytes[0] == 2 {
        Some(ControlPayload::Keyboard { pressed: bytes[1] != 0, key: wire::u16_at_front(bytes.skip(2)) })
    } else if bytes[0] == 3 {
        Some(ControlPayload::Scroll { delta: wire::i32_from_bits(wire::u32_at_front(bytes.skip(1))) })
    } else {
        None
    }
}

/// Whether a payload survives the wire: the extra mouse buttons do not.
pub open spec fn payload_is_carried(payload: ControlPayload) -> bool {
    match payload {
        ControlPayload::MouseClick { button, .. } => button != PointerButton::Extra1 && button
            != PointerButton::Extra2,
        _ => true,
    }
}

/// One for true, zero for false.
fn byte_of_bool(value: bool) -> (byte: u8)
    ensures
        byte == bool_byte(value),
{
    if value {
        1
    } else {
        0
    }
}

impl ControlPayload {
    /// Turns this payload into bytes that are appended to a control packet.
    pub fn to_bytes(&self) -> (bytes: Vec<u8>)
        ensures
            bytes@ == payload_encoding(*self),
    {
        let mut bytes: Vec<u8> = Vec::new();
        match *self {
            ControlPayload::MouseMove { mouse_x, mouse_y } => {
                bytes.push(0);
                write_u32(&mut bytes, mouse_x);
                write_u32(&mut bytes, mouse_y);
            },
            ControlPayload::MouseClick { mouse_x, mouse_y, pressed, button } => {
                bytes.push(1);
                write_u32(&mut bytes, mouse_x);
                write_u32(&mut bytes, mouse_y);
                bytes.push(byte_of_bool(pressed));
                let button_id: u8 = match button {
                    PointerButton::Primary => 0,
                    PointerButton::Secondary => 1,
                    PointerButton::Middle => 2,
                    PointerButton::Extra1 => 3,
                    PointerButton::Extra2 => 4,
                };
                bytes.push(button_id);
            },
            ControlPayload::Keyboard { pressed, key } => {
                bytes.push(2);
                bytes.push(byte_of_bool(pressed));
                write_u16(&mut bytes, key);
            },
            ControlPayload::Scroll { delta } => {
                bytes.push(3);
                write_i32(&mut bytes, delta);
            },
        }
        assert(bytes@ =~= payload_encoding(*self));
        bytes
    }

    /// Turns bytes into a control payload.
    ///
    /// Returns `None` if there are too few bytes for the kind of payload, or
    /// the kind or the button is unknown.
    pub fn from_bytes(bytes: Vec<u8>) -> (payload: Option<ControlPayload>)
        ensures
            payload == payload_decoding(bytes@),
    {
        let ghost all = bytes@;
        let mut queue: VecDeque<u8> = to_queue(bytes);
        let payload_type: u8 = match queue.pop_front() {
            Some(payload_type) => payload_type,
            None => return None,
        };
        assert(queue@ =~= all.skip(1));
        if queue.len() < ControlPayload::get_length(payload_type) {
            return None;
        }
        match payload_type {
            0 => {
                let mouse_x: u32 = get_u32_from_packet(&mut queue)?;
                assert(queue@ =~= all.skip(5));
                let mouse_y: u32 = get_u32_from_packet(&mut queue)?;
                Some(ControlPayload::MouseMove { mouse_x, mouse_y })
            },
            1 => {
                let mouse_x: u32 = get_u32_from_packet(&mut queue)?;
                assert(queue@ =~= all.skip(5));
                let mouse_y: u32 = get_u32_from_packet(&mut queue)?;
                assert(queue@ =~= all.skip(9));
                let pressed: bool = queue.pop_front()? != 0;
                let button: PointerButton = match queue.pop_front()? {
                    0 => PointerButton::Primary,
                    1 => PointerButton::Secondary,
                    2 => PointerButton::Middle,
                    _ => return None,
                };
                Some(ControlPayload::MouseClick { mouse_x, mouse_y, pressed, button })
            },
            2 => {
                let pressed: bool = queue.pop_front()? != 0;
                assert(queue@ =~= all.skip(2));
                let key: u16 = get_u16_from_packet(&mut queue)?;
                Some(ControlPayload::Keyboard { pressed, key })
            },
            3 => {
                let delta: i32 = get_i32_from_packet(&mut queue)?;
                Some(ControlPayload::Scroll { delta })
            },
            _ => None,
        }
    }

    /// The number of bytes that follow the kind of a payload; 0 for unknown
    /// kinds.
    pub fn get_length(payload_type: u8) -> (length: usize)
        ensures
            length == payload_length(payload_type),
    {
        match payload_type {
            0 => 8,
            1 => 10,
            2 => 3,
            3 => 4,
            _ => 0,
        }
    }
}

/// A payload is read back from the front of any bytes that start with its
/// encoding.
pub proof fn law_payload_round_trip(payload: ControlPayload, rest: Seq<u8>)
    requires
        payload_is_carried(payload),
    ensures
        payload_decoding(payload_encoding(payload) + rest) == Some(payload),
{
    let s = payload_encoding(payload) + rest;
    match payload {
        ControlPayload::MouseMove { mouse_x, mouse_y } => {
            wire::lemma_u32_round_trip(mouse_x, wire::be_u32(mouse_y) + rest);
            wire::lemma_u32_round_trip(mouse_y, rest);
            assert(s.skip(1) =~= wire::be_u32(mouse_x) + (wire::be_u32(mouse_y) + rest));
            assert(s.skip(5) =~= wire::be_u32(mouse_y) + rest);
        },
        ControlPayload::MouseClick { mouse_x, mouse_y, pressed, button } => {
            let tail = seq![bool_byte(pressed), button_byte(button)] + rest;
            wire::lemma_u32_round_trip(mouse_x, wire::be_u32(mouse_y) + tail);
            wire::lemma_u32_round_trip(mouse_y, tail);
            assert(s.skip(1) =~= wire::be_u32(mouse_x) + (wire::be_u32(mouse_y) + tail));
            assert(s.skip(5) =~= wire::be_u32(mouse_y) + tail);
        },
        ControlPayload::Keyboard { pressed, key } => {
            wire::lemma_u16_round_trip(key, rest);
            assert(s.skip(2) =~= wire::be_u16(key) + rest);
        },
        ControlPayload::Scroll { delta } => {
            wire::lemma_u32_round_trip(wire::i32_bits(delta), rest);
            wire::lemma_i32_bits_round_trip(delta);
            assert(s.skip(1) =~= wire::be_u32(wire::i32_bits(delta)) + rest);
        },
    }
}

/// Every message between a client and the server.
#[derive(PartialEq, Eq, Debug)]
pub enum Packet {
    /// No particular message.
    Empty,
    /// A login attempt.
    Login { username: String, password: String },
    /// The registration of a new user.
    Register { username: String, password: String },
    /// The sender wants to host a session.
    Host,
    /// The sender wants to join a session.
    Join { code: u32, username: String },
    /// News of a user in the session.
    UserUpdate { user_type: UserType, joined_before: bool, username: String },
    /// Input for the host's desktop.
    Control { payload: ControlPayload },
    /// A piece of the video of the host's screen.
    Screen { bytes: Vec<u8> },
    /// The sender leaves the session.
    SessionExit,
    /// A participant asks for control, or the host grants it.
    RequestControl { username: String },
    /// The host denies or takes back control.
    DenyControl { username: String },
    /// The sender signs out.
    SignOut,
    /// The sender shuts down.
    Shutdown,
    /// The session has ended.
    SessionEnd,
    /// A chat message.
    Chat { message: String },
    /// The sender wants to watch a recording.
    WatchRecording { id: i32 },
    /// The name of a recording.
    RecordingName { id: i32, name: String },
    /// The host denies a user's request to join.
    DenyJoin { username: String },
    /// The receiver of a recording is ready for the position it asked for.
    SeekInit,
    /// The sender wants to go to a time of the recording.
    SeekTo { time_seconds: i32 },
}

/// The content of a [`Packet`].
#[verifier::ext_equal]
pub enum PacketView {
    Empty,
    Login { username: Seq<char>, password: Seq<char> },
    Register { username: Seq<char>, password: Seq<char> },
    Host,
    Join { code: u32, username: Seq<char> },
    UserUpdate { user_type: UserType, joined_before: bool, username: Seq<char> },
    Control { payload: ControlPayload },
    Screen { bytes: Seq<u8> },
    SessionExit,
    RequestControl { username: Seq<char> },
    DenyControl { username: Seq<char> },
    SignOut,
    Shutdown,
    SessionEnd,
    Chat { message: Seq<char> },
    WatchRecording { id: i32 },
    RecordingName { id: i32, name: Seq<char> },
    DenyJoin { username: Seq<char> },
    SeekInit,
    SeekTo { time_seconds: i32 },
}

impl View for Packet {
    type V = PacketView;

    open spec fn view(&self) -> PacketView {
        match self {
            Packet::Empty => PacketView::Empty,
            Packet::Login { username, password } => PacketView::Login {
                username: username@,
                password: password@,
            },
            Packet::Register { username, password } => PacketView::Register {
                username: username@,
                password: password@,
            },
            Packet::Host => PacketView::Host,
            Packet::Join { code, username } => PacketView::Join {
                code: *code,
                username: username@,
            },
            Packet::UserUpdate { user_type, joined_before, username } => PacketView::UserUpdate {
                user_type: *user_type,
                joined_before: *joined_before,
                username: username@,
            },
            Packet::Control { payload } => PacketView::Control { payload: *payload },
            Packet::Screen { bytes } => PacketView::Screen { bytes: bytes@ },
            Packet::SessionExit => PacketView::SessionExit,
            Packet::RequestControl { username } => PacketView::RequestControl {
                username: username@,
            },
            Packet::DenyControl { username } => PacketView::DenyControl { username: username@ },
            Packet::SignOut => PacketView::SignOut,
            Packet::Shutdown => PacketView::Shutdown,
            Packet::SessionEnd => PacketView::SessionEnd,
            Packet::Chat { message } => PacketView::Chat { message: message@ },
            Packet::WatchRecording { id } => PacketView::WatchRecording { id: *id },
            Packet::RecordingName { id, name } => PacketView::RecordingName {
                id: *id,
                name: name@,
            },
            Packet::DenyJoin { username } => PacketView::DenyJoin { username: username@ },
            Packet::SeekInit => PacketView::SeekInit,
            Packet::SeekTo { time_seconds } => PacketView::SeekTo { time_seconds: *time_seconds },
        }
    }
}

impl Default for Packet {
    fn default() -> (packet: Self)
        ensures
            packet@ == PacketView::Empty,
    {
        Packet::Empty
    }
}

impl Clone for Packet {
    fn clone(&self) -> (packet: Self)
        ensures
            packet@ == self@,
    {
        match self {
            Packet::Empty => Packet::Empty,
            Packet::Login { username, password } => Packet::Login {
                username: username.clone(),
                password: password.clone(),
            },
            Packet::Register { username, password } => Packet::Register {
                username: username.clone(),
                password: password.clone(),
            },
            Packet::Host => Packet::Host,
            Packet::Join { code, username } => Packet::Join {
                code: *code,
                username: username.clone(),
            },
            Packet::UserUpdate { user_type, joined_before, username } => Packet::UserUpdate {
                user_type: *user_type,
                joined_before: *joined_before,
                username: username.clone(),
            },
            Packet::Control { payload } => Packet::Control { payload: *payload },
            Packet::Screen { bytes } => {
                let mut copy: Vec<u8> = Vec::new();
                write_bytes(&mut copy, bytes.as_slice());
                assert(copy@ =~= bytes@);
                Packet::Screen { bytes: copy }
            },
            Packet::SessionExit => Packet::SessionExit,
            Packet::RequestControl { username } => Packet::RequestControl {
                username: username.clone(),
            },
            Packet::DenyControl { username } => Packet::DenyControl { username: username.clone() },
            Packet::SignOut => Packet::SignOut,
            Packet::Shutdown => Packet::Shutdown,
            Packet::SessionEnd => Packet::SessionEnd,
            Packet::Chat { message } => Packet::Chat { message: message.clone() },
            Packet::WatchRecording { id } => Packet::WatchRecording { id: *id },
            Packet::RecordingName { id, name } => Packet::RecordingName {
                id: *id,
                name: name.clone(),
            },
            Packet::DenyJoin { username } => Packet::DenyJoin { username: username.clone() },
            Packet::SeekInit => Packet::SeekInit,
            Packet::SeekTo { time_seconds } => Packet::SeekTo { time_seconds: *time_seconds },
        }
    }
}

/// The encoding of a packet: its kind, then its fields in order.
pub open spec fn packet_encoding(packet: PacketView) -> Seq<u8> {
    match packet {
        PacketView::Empty => seq![0u8],
        PacketView::Login { username, password } => seq![1u8] + text_field(username) + text_field(
            password,
        ),
        PacketView::Register { username, password } => seq![2u8] + text_field(username)
            + text_field(password),
        PacketView::Host => seq![3u8],
        PacketView::Join { code, username } => seq![4u8] + wire::be_u32(code) + text_field(username),
        PacketView::UserUpdate { user_type, joined_before, username } => seq![
            5u8,
            user_type::user_type_byte(user_type),
            bool_byte(joined_before),
        ] + text_field(username),
        PacketView::Control { payload } => seq![6u8] + payload_encoding(payload),
        PacketView::Screen { bytes } => seq![7u8] + sized_field(bytes),
        PacketView::SeekTo { time_seconds } => seq![8u8] + wire::be_i32(time_seconds),
        PacketView::SessionExit => seq![9u8],
        PacketView::RequestControl { username } => seq![10u8] + text_field(username),
        PacketView::DenyControl { username } => seq![11u8] + text_field(username),
        PacketView::SignOut => seq![12u8],
        PacketView::Shutdown => seq![13u8],
        PacketView::SessionEnd => seq![14u8],
        PacketView::Chat { message } => seq![15u8] + text_field(message),
        PacketView::WatchRecording { id } => seq![16u8] + wire::be_i32(id),
        PacketView::RecordingName { id, name } => seq![17u8] + wire::be_i32(id) + text_field(name),
        PacketView::DenyJoin { username } => seq![18u8] + text_field(username),
        PacketView::SeekInit => seq![19u8],
    }
}

/// The packet made of the text at the front of `s`.
pub open spec fn with_front_text(s: Seq<u8>, packet: spec_fn(Seq<char>) -> PacketView) -> Decoded<
    PacketView,
> {
    match front_text(s) {
        Decoded::Value((text, _)) => Decoded::Value(packet(text)),
        Decoded::Malformed => Decoded::Malformed,
        Decoded::BadText => Decoded::BadText,
    }
}

/// The packet that `bytes` start with; what follows it does not matter.
pub open spec fn packet_decoding(bytes: Seq<u8>) -> Decoded<PacketView> {
    let s = bytes.skip(1);
    if bytes.len() == 0 {
        Decoded::Malformed
    } else if bytes[0] == 0 {
        Decoded::Value(PacketView::Empty)
    } else if bytes[0] == 1 || bytes[0] == 2 {
        match front_text(s) {
            Decoded::Value((username, rest)) => with_front_text(
                rest,
                |password: Seq<char>|
                    if bytes[0] == 1 {
                        PacketView::Login { username, password }
                    } else {
                        PacketView::Register { username, password }
                    },
            ),
            Decoded::Malformed => Decoded::Malformed,
            Decoded::BadText => Decoded::BadText,
        }
    } else if bytes[0] == 3 {
        Decoded::Value(PacketView::Host)
    } else if bytes[0] == 4 {
        if s.len() < 4 {
            Decoded::Malformed
        } else {
            with_front_text(
                s.skip(4),
                |username: Seq<char>| PacketView::Join { code: wire::u32_at_front(s), username },
            )
        }
    } else if bytes[0] == 5 {
        if s.len() < 2 || user_type::user_type_of_byte(s[0]) is None {
            Decoded::Malformed
        } else {
            with_front_text(
                s.skip(2),
                |username: Seq<char>|
                    PacketView::UserUpdate {
                        user_type: user_type::user_type_of_byte(s[0])->Some_0,
                        joined_before: s[1] != 0,
                        username,
                    },
            )
        }
    } else if bytes[0] == 6 {
        match payload_decoding(s) {
            Some(payload) => Decoded::Value(PacketView::Control { payload }),
            None => Decoded::Malformed,
        }
    } else if bytes[0] == 7 {
        match front_field(s) {
            Some((data, _)) => Decoded::Value(PacketView::Screen { bytes: data }),
            None => Decoded::Malformed,
        }
    } else if bytes[0] == 8 {
        if s.len() < 4 {
            Decoded::Malformed
        } else {
            Decoded::Value(
                PacketView::SeekTo { time_seconds: wire::i32_from_bits(wire::u32_at_front(s)) },
            )
        }
    } else if bytes[0] == 9 {
        Decoded::Value(PacketView::SessionExit)
    } else if bytes[0] == 10 {
        with_front_text(s, |username: Seq<char>| PacketView::RequestControl { username })
    } else if bytes[0] == 11 {
        with_front_text(s, |username: Seq<char>| PacketView::DenyControl { username })
    } else if bytes[0] == 12 {
        Decoded::Value(PacketView::SignOut)
    } else if bytes[0] == 13 {
        Decoded::Value(PacketView::Shutdown)
    } else if bytes[0] == 14 {
        Decoded::Value(PacketView::SessionEnd)
    } else if bytes[0] == 15 {
        with_front_text(s, |message: Seq<char>| PacketView::Chat { message })
    } else if bytes[0] == 16 {
        if s.len() < 4 {
            Decoded::Malformed
        } else {
            Decoded::Value(
                PacketView::WatchRecording { id: wire::i32_from_bits(wire::u32_at_front(s)) },
            )
        }
    } else if bytes[0] == 17 {
        if s.len() < 4 {
            Decoded::Malformed
        } else {
            with_front_text(
                s.skip(4),
                |name: Seq<char>|
                    PacketView::RecordingName {
                        id: wire::i32_from_bits(wire::u32_at_front(s)),
                        name,
                    },
            )
        }
    } else if bytes[0] == 18 {
        with_front_text(s, |username: Seq<char>| PacketView::DenyJoin { username })
    } else if bytes[0] == 19 {
        Decoded::Value(PacketView::SeekInit)
    } else {
        Decoded::Malformed
    }
}

/// Reads the user's name and password that `queue` starts with.
fn read_credentials(queue: &mut VecDeque<u8>, login: bool) -> (packet: Decoded<Packet>)
    ensures
        packet@ == (match front_text(old(queue)@) {
            Decoded::Value((username, rest)) => with_front_text(
                rest,
                |password: Seq<char>|
                    if login {
                        PacketView::Login { username, password }
                    } else {
                        PacketView::Register { username, password }
                    },
            ),
            Decoded::Malformed => Decoded::Malformed,
            Decoded::BadText => Decoded::BadText,
        }),
{
    let username: String = match read_text(queue) {
        Decoded::Value(username) => username,
        Decoded::Malformed => return Decoded::Malformed,
        Decoded::BadText => return Decoded::BadText,
    };
    match read_text(queue) {
        Decoded::Value(password) => if login {
            Decoded::Value(Packet::Login { username, password })
        } else {
            Decoded::Value(Packet::Register { username, password })
        },
        Decoded::Malformed => Decoded::Malformed,
        Decoded::BadText => Decoded::BadText,
    }
}

/// Reads the kind, the flag and the name of a user update.
fn read_user_update(queue: &mut VecDeque<u8>) -> (packet: Decoded<Packet>)
    ensures
        packet@ == packet_decoding(seq![5u8] + old(queue)@),
{
    let ghost s = queue@;
    assert((seq![5u8] + s).skip(1) =~= s);
    let user_type: UserType = match queue.pop_front() {
        Some(byte) => match UserType::from_byte(byte) {
            Some(user_type) => user_type,
            None => return Decoded::Malformed,
        },
        None => return Decoded::Malformed,
    };
    let joined_before: bool = match queue.pop_front() {
        Some(byte) => byte != 0,
        None => return Decoded::Malformed,
    };
    assert(queue@ =~= s.skip(2));
    match read_text(queue) {
        Decoded::Value(username) => Decoded::Value(
            Packet::UserUpdate { user_type, joined_before, username },
        ),
        Decoded::Malformed => Decoded::Malformed,
        Decoded::BadText => Decoded::BadText,
    }
}

/// Reads a control payload from the front of the queue.
fn read_payload(queue: &mut VecDeque<u8>) -> (payload: Option<ControlPayload>)
    ensures
        payload == payload_decoding(old(queue)@),
{
    let ghost s = queue@;
    let payload_type: u8 = match queue.pop_front() {
        Some(payload_type) => payload_type,
        None => return None,
    };
    let payload_length: usize = ControlPayload::get_length(payload_type);
    if queue.len() < payload_length {
        return None;
    }
    let mut payload_raw: Vec<u8> = take_front(queue, payload_length);
    payload_raw.insert(0, payload_type);
    proof {
        let raw = payload_raw@;
        assert(raw =~= s.take(1 + payload_length));
        if payload_type == 0 {
            lemma_u32_front_of_prefix(s, 9, 1);
            lemma_u32_front_of_prefix(s, 9, 5);
        } else if payload_type == 1 {
            lemma_u32_front_of_prefix(s, 11, 1);
            lemma_u32_front_of_prefix(s, 11, 5);
        } else if payload_type == 2 {
            reveal(wire::u16_at_front);
        } else if payload_type == 3 {
            lemma_u32_front_of_prefix(s, 5, 1);
        }
    }
    ControlPayload::from_bytes(payload_raw)
}

/// A number that lies within a prefix is the same in the whole.
proof fn lemma_u32_front_of_prefix(s: Seq<u8>, n: int, at: int)
    requires
        0 <= at,
        at + 4 <= n <= s.len(),
    ensures
        wire::u32_at_front(s.take(n).skip(at)) == wire::u32_at_front(s.skip(at)),
{
    reveal(wire::u32_at_front);
}

impl ProtocolMessage for Packet {
    open spec fn encoding(message: PacketView) -> Seq<u8> {
        packet_encoding(message)
    }

    open spec fn decoding(bytes: Seq<u8>) -> Decoded<PacketView> {
        packet_decoding(bytes)
    }

    fn to_bytes(&self) -> (bytes: Vec<u8>) {
        let mut bytes: Vec<u8> = Vec::new();
        match self {
            Packet::Empty => {
                bytes.push(0);
            },
            Packet::Login { username, password } => {
                bytes.push(1);
                write_length_and_string(&mut bytes, username.as_str());
                write_length_and_string(&mut bytes, password.as_str());
            },
            Packet::Register { username, password } => {
                bytes.push(2);
                write_length_and_string(&mut bytes, username.as_str());
                write_length_and_string(&mut bytes, password.as_str());
            },
            Packet::Host => {
                bytes.push(3);
            },
            Packet::Join { code, username } => {
                bytes.push(4);
                write_u32(&mut bytes, *code);
                write_length_and_string(&mut bytes, username.as_str());
            },
            Packet::UserUpdate { user_type, joined_before, username } => {
                bytes.push(5);
                bytes.push(user_type.to_byte());
                bytes.push(byte_of_bool(*joined_before));
                write_length_and_string(&mut bytes, username.as_str());
            },
            Packet::Control { payload } => {
                bytes.push(6);
                let payload_bytes: Vec<u8> = payload.to_bytes();
                write_bytes(&mut bytes, payload_bytes.as_slice());
            },
            Packet::Screen { bytes: data } => {
                bytes.push(7);
                write_length_and_data(&mut bytes, data.as_slice());
            },
            Packet::SeekTo { time_seconds } => {
                bytes.push(8);
                write_i32(&mut bytes, *time_seconds);
            },
            Packet::SessionExit => {
                bytes.push(9);
            },
            Packet::RequestControl { username } => {
                bytes.push(10);
                write_length_and_string(&mut bytes, username.as_str());
            },
            Packet::DenyControl { username } => {
                bytes.push(11);
                write_length_and_string(&mut bytes, username.as_str());
            },
            Packet::SignOut => {
                bytes.push(12);
            },
            Packet::Shutdown => {
                bytes.push(13);
            },
            Packet::SessionEnd => {
                bytes.push(14);
            },
            Packet::Chat { message } => {
                bytes.push(15);
                write_length_and_string(&mut bytes, message.as_str());
            },
            Packet::WatchRecording { id } => {
                bytes.push(16);
                write_i32(&mut bytes, *id);
            },
            Packet::RecordingName { id, name } => {
                bytes.push(17);
                write_i32(&mut bytes, *id);
                write_length_and_string(&mut bytes, name.as_str());
            },
            Packet::DenyJoin { username } => {
                bytes.push(18);
                write_length_and_string(&mut bytes, username.as_str());
            },
            Packet::SeekInit => {
                bytes.push(19);
            },
        }
        assert(bytes@ =~= packet_encoding(self@));
        bytes
    }

    fn decode(bytes: Vec<u8>) -> (message: Decoded<Self>) {
        let ghost all = bytes@;
        let mut queue: VecDeque<u8> = to_queue(bytes);
        let packet_type: u8 = match queue.pop_front() {
            Some(packet_type) => packet_type,
            None => return Decoded::Malformed,
        };
        assert(queue@ =~= all.skip(1));
        match packet_type {
            0 => Decoded::Value(Packet::Empty),
            1 => read_credentials(&mut queue, true),
            2 => read_credentials(&mut queue, false),
            3 => Decoded::Value(Packet::Host),
            4 => {
                let code: u32 = match get_u32_from_packet(&mut queue) {
                    Some(code) => code,
                    None => return Decoded::Malformed,
                };
                match read_text(&mut queue) {
                Decoded::Value(username) => Decoded::Value(Packet::Join { code, username }),
                Decoded::Malformed => Decoded::Malformed,
                Decoded::BadText => Decoded::BadText,
            }
            },
            5 => {
                assert(all =~= seq![5u8] + queue@);
                read_user_update(&mut queue)
            },
            6 => match read_payload(&mut queue) {
                Some(payload) => Decoded::Value(Packet::Control { payload }),
                None => Decoded::Malformed,
            },
            7 => match read_length_and_data(&mut queue) {
                Some(data) => Decoded::Value(Packet::Screen { bytes: data }),
                None => Decoded::Malformed,
            },
            8 => match get_i32_from_packet(&mut queue) {
                Some(time_seconds) => Decoded::Value(Packet::SeekTo { time_seconds }),
                None => Decoded::Malformed,
            },
            9 => Decoded::Value(Packet::SessionExit),
            10 => match read_text(&mut queue) {
                Decoded::Value(username) => Decoded::Value(Packet::RequestControl { username }),
                Decoded::Malformed => Decoded::Malformed,
                Decoded::BadText => Decoded::BadText,
            },
            11 => match read_text(&mut queue) {
                Decoded::Value(username) => Decoded::Value(Packet::DenyControl { username }),
                Decoded::Malformed => Decoded::Malformed,
                Decoded::BadText => Decoded::BadText,
            },
            12 => Decoded::Value(Packet::SignOut),
            13 => Decoded::Value(Packet::Shutdown),
            14 => Decoded::Value(Packet::SessionEnd),
            15 => match read_text(&mut queue) {
                Decoded::Value(message) => Decoded::Value(Packet::Chat { message }),
                Decoded::Malformed => Decoded::Malformed,
                Decoded::BadText => Decoded::BadText,
            },
            16 => match get_i32_from_packet(&mut queue) {
                Some(id) => Decoded::Value(Packet::WatchRecording { id }),
                None => Decoded::Malformed,
            },
            17 => {
                let id: i32 = match get_i32_from_packet(&mut queue) {
                    Some(id) => id,
                    None => return Decoded::Malformed,
                };
                match read_text(&mut queue) {
                Decoded::Value(name) => Decoded::Value(Packet::RecordingName { id, name }),
                Decoded::Malformed => Decoded::Malformed,
                Decoded::BadText => Decoded::BadText,
            }
            },
            18 => match read_text(&mut queue) {
                Decoded::Value(username) => Decoded::Value(Packet::DenyJoin { username }),
                Decoded::Malformed => Decoded::Malformed,
                Decoded::BadText => Decoded::BadText,
            },
            19 => Decoded::Value(Packet::SeekInit),
            _ => Decoded::Malformed,
        }
    }

    fn from_bytes(bytes: Vec<u8>) -> (message: Option<Self>) {
        match Self::decode(bytes) {
            Decoded::Value(packet) => Some(packet),
            _ => None,
        }
    }
}

/// Whether the length of every field of a packet fits its 32-bit prefix, and
/// its control payload is one that the wire carries.
pub open spec fn packet_is_carried(packet: PacketView) -> bool {
    match packet {
        PacketView::Login { username, password } => fits_field(username) && fits_field(password),
        PacketView::Register { username, password } => fits_field(username) && fits_field(password),
        PacketView::Join { username, .. } => fits_field(username),
        PacketView::UserUpdate { username, .. } => fits_field(username),
        PacketView::Control { payload } => payload_is_carried(payload),
        PacketView::Screen { bytes } => bytes.len() < 0x1_0000_0000,
        PacketView::RequestControl { username } => fits_field(username),
        PacketView::DenyControl { username } => fits_field(username),
        PacketView::Chat { message } => fits_field(message),
        PacketView::RecordingName { name, .. } => fits_field(name),
        PacketView::DenyJoin { username } => fits_field(username),
        _ => true,
    }
}

/// Whether the length of a text fits its 32-bit prefix.
pub open spec fn fits_field(text: Seq<char>) -> bool {
    encode_utf8(text).len() < 0x1_0000_0000
}

/// A packet is read back from its encoding, whatever follows it.
pub proof fn law_packet_round_trip(packet: PacketView, rest: Seq<u8>)
    requires
        packet_is_carried(packet),
    ensures
        packet_decoding(packet_encoding(packet) + rest) == Decoded::Value(packet),
{
    match packet {
        PacketView::Login { username, password } => {
            lemma_two_texts(1, username, password, rest);
        },
        PacketView::Register { username, password } => {
            lemma_two_texts(2, username, password, rest);
        },
        PacketView::Join { code, username } => {
            lemma_number_and_text(4, code, username, rest);
        },
        PacketView::UserUpdate { user_type, joined_before, username } => {
            lemma_user_update_round_trip(user_type, joined_before, username, rest);
        },
        PacketView::Control { payload } => {
            assert((packet_encoding(packet) + rest).skip(1) =~= payload_encoding(payload) + rest);
            law_payload_round_trip(payload, rest);
        },
        PacketView::Screen { bytes } => {
            assert((packet_encoding(packet) + rest).skip(1) =~= sized_field(bytes) + rest);
            lemma_front_field(bytes, rest);
        },
        PacketView::SeekTo { time_seconds } => {
            lemma_signed_number(8, time_seconds, rest);
        },
        PacketView::WatchRecording { id } => {
            lemma_signed_number(16, id, rest);
        },
        PacketView::RecordingName { id, name } => {
            lemma_number_and_text(17, wire::i32_bits(id), name, rest);
            wire::lemma_i32_bits_round_trip(id);
        },
        PacketView::RequestControl { username } => {
            lemma_one_text(10, username, rest);
        },
        PacketView::DenyControl { username } => {
            lemma_one_text(11, username, rest);
        },
        PacketView::Chat { message } => {
            lemma_one_text(15, message, rest);
        },
        PacketView::DenyJoin { username } => {
            lemma_one_text(18, username, rest);
        },
        _ => {},
    }
}

/// A text behind a kind is read back.
proof fn lemma_one_text(kind: u8, text: Seq<char>, rest: Seq<u8>)
    requires
        fits_field(text),
    ensures
        front_text((seq![kind] + text_field(text) + rest).skip(1)) == Decoded::Value((text, rest)),
{
    assert((seq![kind] + text_field(text) + rest).skip(1) =~= text_field(text) + rest);
    lemma_front_text(text, rest);
}

/// Two texts behind a kind are read back one after the other.
proof fn lemma_two_texts(kind: u8, first: Seq<char>, second: Seq<char>, rest: Seq<u8>)
    requires
        fits_field(first),
        fits_field(second),
    ensures
        front_text((seq![kind] + text_field(first) + text_field(second) + rest).skip(1))
            == Decoded::Value((first, text_field(second) + rest)),
        front_text(text_field(second) + rest) == Decoded::Value((second, rest)),
{
    let tail = text_field(second) + rest;
    assert((seq![kind] + text_field(first) + text_field(second) + rest).skip(1) =~= text_field(
        first,
    ) + tail);
    lemma_front_text(first, tail);
    lemma_front_text(second, rest);
}

/// A number and a text behind a kind are read back one after the other.
proof fn lemma_number_and_text(kind: u8, number: u32, text: Seq<char>, rest: Seq<u8>)
    requires
        fits_field(text),
    ensures
        ({
            let s = (seq![kind] + wire::be_u32(number) + text_field(text) + rest).skip(1);
            &&& s.len() >= 4
            &&& wire::u32_at_front(s) == number
            &&& front_text(s.skip(4)) == Decoded::Value((text, rest))
        }),
{
    let tail = text_field(text) + rest;
    assert((seq![kind] + wire::be_u32(number) + text_field(text) + rest).skip(1) =~= wire::be_u32(
        number,
    ) + tail);
    wire::lemma_u32_round_trip(number, tail);
    lemma_front_text(text, rest);
}

/// A signed number behind a kind is read back.
proof fn lemma_signed_number(kind: u8, number: i32, rest: Seq<u8>)
    ensures
        ({
            let s = (seq![kind] + wire::be_i32(number) + rest).skip(1);
            &&& s.len() >= 4
            &&& wire::i32_from_bits(wire::u32_at_front(s)) == number
        }),
{
    assert((seq![kind] + wire::be_i32(number) + rest).skip(1) =~= wire::be_u32(
        wire::i32_bits(number),
    ) + rest);
    wire::lemma_u32_round_trip(wire::i32_bits(number), rest);
    wire::lemma_i32_bits_round_trip(number);
}

/// A user update is read back from its encoding.
proof fn lemma_user_update_round_trip(
    user_type: UserType,
    joined_before: bool,
    username: Seq<char>,
    rest: Seq<u8>,
)
    requires
        fits_field(username),
    ensures
        ({
            let packet = PacketView::UserUpdate { user_type, joined_before, username };
            packet_decoding(packet_encoding(packet) + rest) == Decoded::Value(packet)
        }),
{
    let packet = PacketView::UserUpdate { user_type, joined_before, username };
    let s = (packet_encoding(packet) + rest).skip(1);
    assert(s.skip(2) =~= text_field(username) + rest);
    lemma_front_text(username, rest);
}

/// A result is read back from its encoding, whatever follows it.
pub proof fn law_result_round_trip(result: ResultView, rest: Seq<u8>)
    requires
        match result {
            ResultView::Failure(msg) => fits_field(msg),
            ResultView::Success(msg) => fits_field(msg),
        },
    ensures
        result_decoding(result_encoding(result) + rest) == Decoded::Value(result),
{
    let s = (result_encoding(result) + rest).skip(1);
    match result {
        ResultView::Failure(msg) => {
            assert(s =~= text_field(msg) + rest);
            lemma_front_text(msg, rest);
        },
        ResultView::Success(msg) => {
            assert(s =~= text_field(msg) + rest);
            lemma_front_text(msg, rest);
        },
    }
}

/// Packets with the same encoding are the same packet.
pub proof fn law_packet_encoding_injective(a: PacketView, b: PacketView)
    requires
        packet_is_carried(a),
        packet_is_carried(b),
        packet_encoding(a) == packet_encoding(b),
    ensures
        a == b,
{
    law_packet_round_trip(a, Seq::empty());
    law_packet_round_trip(b, Seq::empty());
}

/// A field holds its data as they are, behind their number, as far as four
/// bytes can tell it; a text is held in UTF-8.
pub proof fn law_layout_of_a_field(data: Seq<u8>, text: Seq<char>)
    ensures
        sized_field(data).len() == 4 + data.len(),
        wire::u32_at_front(sized_field(data)) == data.len() % 0x1_0000_0000,
        sized_field(data).skip(4) == data,
        text_field(text).len() == 4 + encode_utf8(text).len(),
        wire::u32_at_front(text_field(text)) == encode_utf8(text).len() % 0x1_0000_0000,
        text_field(text).skip(4) == encode_utf8(text),
{
    wire::lemma_u32_round_trip((data.len() % 0x1_0000_0000) as u32, data);
    wire::lemma_u32_round_trip(
        (encode_utf8(text).len() % 0x1_0000_0000) as u32,
        encode_utf8(text),
    );
}

/// A field is read exactly if the bytes start with one, and then with the one
/// that is read; what follows it is left.
pub proof fn law_fields_are_read(s: Seq<u8>, data: Seq<u8>, rest: Seq<u8>)
    ensures
        front_field(s) == Some((data, rest)) <==> s == sized_field(data) + rest && data.len()
            < 0x1_0000_0000,
{
    if front_field(s) == Some((data, rest)) {
        wire::law_numbers_are_read(s);
        let n = wire::u32_at_front(s);
        assert(data.len() == n);
        assert(s =~= s.take(4) + s.subrange(4, 4 + n) + s.skip(4 + n));
        assert(s =~= sized_field(data) + rest);
    }
    if s == sized_field(data) + rest && data.len() < 0x1_0000_0000 {
        lemma_front_field(data, rest);
    }
}

/// A text is read exactly if the bytes start with a field that holds its UTF-8
/// encoding; a field of other bytes is told apart from bytes without a field.
pub proof fn law_texts_are_read(s: Seq<u8>, text: Seq<char>, rest: Seq<u8>)
    ensures
        front_text(s) == Decoded::Value((text, rest)) <==> s == text_field(text) + rest
            && fits_field(text),
        front_text(s) is Malformed <==> front_field(s) is None,
        front_text(s) is BadText <==> front_field(s) is Some && !valid_utf8(
            front_field(s)->Some_0.0,
        ),
{
    if front_text(s) == Decoded::Value((text, rest)) {
        let (field, after) = front_field(s)->Some_0;
        decode_utf8_encode_utf8(field);
        law_fields_are_read(s, field, after);
    }
    if s == text_field(text) + rest && fits_field(text) {
        lemma_front_text(text, rest);
    }
}

/// How input looks on the wire: the kind first, then coordinates, flags, buttons
/// and keys in a fixed order, and just as many bytes as the kind announces.
pub proof fn law_layout_of_a_payload(payload: ControlPayload)
    ensures
        ({
            let s = payload_encoding(payload);
            &&& s.len() == 1 + payload_length(s[0])
            &&& match payload {
                ControlPayload::MouseMove { mouse_x, mouse_y } => {
                    &&& s.len() == 9
                    &&& s[0] == 0
                    &&& wire::u32_at_front(s.skip(1)) == mouse_x
                    &&& wire::u32_at_front(s.skip(5)) == mouse_y
                },
                ControlPayload::MouseClick { mouse_x, mouse_y, pressed, button } => {
                    &&& s.len() == 11
                    &&& s[0] == 1
                    &&& wire::u32_at_front(s.skip(1)) == mouse_x
                    &&& wire::u32_at_front(s.skip(5)) == mouse_y
                    &&& pressed ==> s[9] == 1
                    &&& !pressed ==> s[9] == 0
                    &&& button == PointerButton::Primary <==> s[10] == 0
                    &&& button == PointerButton::Secondary <==> s[10] == 1
                    &&& button == PointerButton::Middle <==> s[10] == 2
                    &&& button == PointerButton::Extra1 <==> s[10] == 3
                    &&& button == PointerButton::Extra2 <==> s[10] == 4
                },
                ControlPayload::Keyboard { pressed, key } => {
                    &&& s.len() == 4
                    &&& s[0] == 2
                    &&& pressed ==> s[1] == 1
                    &&& !pressed ==> s[1] == 0
                    &&& wire::u16_at_front(s.skip(2)) == key
                },
                ControlPayload::Scroll { delta } => {
                    &&& s.len() == 5
                    &&& s[0] == 3
                    &&& wire::u32_at_front(s.skip(1)) == delta as int % 0x1_0000_0000
                },
            }
        }),
{
    let s = payload_encoding(payload);
    match payload {
        ControlPayload::MouseMove { mouse_x, mouse_y } => {
            assert(s.skip(1) =~= wire::be_u32(mouse_x) + wire::be_u32(mouse_y));
            wire::lemma_u32_round_trip(mouse_x, wire::be_u32(mouse_y));
            assert(s.skip(5) =~= wire::be_u32(mouse_y) + Seq::empty());
            wire::lemma_u32_round_trip(mouse_y, Seq::empty());
        },
        ControlPayload::MouseClick { mouse_x, mouse_y, pressed, button } => {
            let tail = seq![bool_byte(pressed), button_byte(button)];
            assert(s.skip(1) =~= wire::be_u32(mouse_x) + (wire::be_u32(mouse_y) + tail));
            wire::lemma_u32_round_trip(mouse_x, wire::be_u32(mouse_y) + tail);
            assert(s.skip(5) =~= wire::be_u32(mouse_y) + tail);
            wire::lemma_u32_round_trip(mouse_y, tail);
        },
        ControlPayload::Keyboard { pressed, key } => {
            assert(s.skip(2) =~= wire::be_u16(key) + Seq::empty());
            wire::lemma_u16_round_trip(key, Seq::empty());
        },
        ControlPayload::Scroll { delta } => {
            wire::law_twos_complement(delta, 0);
            assert(s.skip(1) =~= wire::be_i32(delta));
        },
    }
}

/// Input is read only from bytes that start with it: the byte of a flag may be
/// any other than zero if the flag is set, and everything else is as it is
/// written.
pub proof fn law_read_payload_was_written(s: Seq<u8>, payload: ControlPayload)
    requires
        payload_decoding(s) == Some(payload),
    ensures
        payload_is_carried(payload),
        s.len() >= payload_encoding(payload).len(),
        ({
            let front = s.take(payload_encoding(payload).len() as int);
            match payload {
                ControlPayload::MouseClick { pressed, .. } => {
                    &&& pressed <==> s[9] != 0
                    &&& front == payload_encoding(payload).update(9, s[9])
                },
                ControlPayload::Keyboard { pressed, .. } => {
                    &&& pressed <==> s[1] != 0
                    &&& front == payload_encoding(payload).update(1, s[1])
                },
                _ => front == payload_encoding(payload),
            }
        }),
{
    let n = payload_encoding(payload).len() as int;
    let front = s.take(n);
    wire::law_numbers_are_read(s.skip(1));
    wire::law_numbers_are_read(s.skip(2));
    wire::law_numbers_are_read(s.skip(5));
    match payload {
        ControlPayload::MouseMove { mouse_x, mouse_y } => {
            assert(front =~= seq![0u8] + s.skip(1).take(4) + s.skip(5).take(4));
        },
        ControlPayload::MouseClick { mouse_x, mouse_y, pressed, button } => {
            assert(front =~= seq![1u8] + s.skip(1).take(4) + s.skip(5).take(4) + seq![s[9], s[10]]);
            assert(front =~= payload_encoding(payload).update(9, s[9]));
        },
        ControlPayload::Keyboard { pressed, key } => {
            assert(front =~= seq![2u8, s[1]] + s.skip(2).take(2));
            assert(front =~= payload_encoding(payload).update(1, s[1]));
        },
        ControlPayload::Scroll { delta } => {
            wire::law_twos_complement(delta, wire::u32_at_front(s.skip(1)));
            assert(front =~= seq![3u8] + s.skip(1).take(4));
        },
    }
}

/// Everything but the extra mouse buttons survives the wire, and those are not
/// read.
pub proof fn law_extra_buttons_are_not_read(payload: ControlPayload, rest: Seq<u8>)
    ensures
        payload_is_carried(payload) <==> !(payload matches ControlPayload::MouseClick { button, .. }
            && (button == PointerButton::Extra1 || button == PointerButton::Extra2)),
        !payload_is_carried(payload) ==> payload_decoding(payload_encoding(payload) + rest) is None,
{
    law_layout_of_a_payload(payload);
    let s = payload_encoding(payload) + rest;
    if !payload_is_carried(payload) {
        assert(s[10] == payload_encoding(payload)[10]);
    }
}

/// The kind of a packet is its first byte.
pub proof fn law_kinds_of_packets(packet: PacketView)
    ensures
        packet_encoding(packet).len() >= 1,
        packet_encoding(packet)[0] < 20,
        packet_encoding(packet)[0] == 0 <==> packet is Empty,
        packet_encoding(packet)[0] == 1 <==> packet is Login,
        packet_encoding(packet)[0] == 2 <==> packet is Register,
        packet_encoding(packet)[0] == 3 <==> packet is Host,
        packet_encoding(packet)[0] == 4 <==> packet is Join,
        packet_encoding(packet)[0] == 5 <==> packet is UserUpdate,
        packet_encoding(packet)[0] == 6 <==> packet is Control,
        packet_encoding(packet)[0] == 7 <==> packet is Screen,
        packet_encoding(packet)[0] == 8 <==> packet is SeekTo,
        packet_encoding(packet)[0] == 9 <==> packet is SessionExit,
        packet_encoding(packet)[0] == 10 <==> packet is RequestControl,
        packet_encoding(packet)[0] == 11 <==> packet is DenyControl,
        packet_encoding(packet)[0] == 12 <==> packet is SignOut,
        packet_encoding(packet)[0] == 13 <==> packet is Shutdown,
        packet_encoding(packet)[0] == 14 <==> packet is SessionEnd,
        packet_encoding(packet)[0] == 15 <==> packet is Chat,
        packet_encoding(packet)[0] == 16 <==> packet is WatchRecording,
        packet_encoding(packet)[0] == 17 <==> packet is RecordingName,
        packet_encoding(packet)[0] == 18 <==> packet is DenyJoin,
        packet_encoding(packet)[0] == 19 <==> packet is SeekInit,
{
}

/// What follows the kind of a packet: nothing in packets without fields, and
/// else the fields, numbers before texts and names before passwords.
pub proof fn law_fields_of_packets(packet: PacketView)
    ensures
        ({
            let s = packet_encoding(packet).skip(1);
            match packet {
                PacketView::Login { username, password } => s == text_field(username) + text_field(
                    password,
                ),
                PacketView::Register { username, password } => s == text_field(username)
                    + text_field(password),
                PacketView::Join { code, username } => wire::u32_at_front(s) == code && s.skip(4)
                    == text_field(username),
                PacketView::UserUpdate { user_type, joined_before, username } => {
                    &&& user_type::user_type_of_byte(s[0]) == Some(user_type)
                    &&& joined_before ==> s[1] == 1
                    &&& !joined_before ==> s[1] == 0
                    &&& s.skip(2) == text_field(username)
                },
                PacketView::Control { payload } => s == payload_encoding(payload),
                PacketView::Screen { bytes } => s == sized_field(bytes),
                PacketView::SeekTo { time_seconds } => s.len() == 4 && wire::u32_at_front(s)
                    == time_seconds as int % 0x1_0000_0000,
                PacketView::RequestControl { username } => s == text_field(username),
                PacketView::DenyControl { username } => s == text_field(username),
                PacketView::Chat { message } => s == text_field(message),
                PacketView::WatchRecording { id } => s.len() == 4 && wire::u32_at_front(s)
                    == id as int % 0x1_0000_0000,
                PacketView::RecordingName { id, name } => wire::u32_at_front(s) == id as int
                    % 0x1_0000_0000 && s.skip(4) == text_field(name),
                PacketView::DenyJoin { username } => s == text_field(username),
                _ => s.len() == 0,
            }
        }),
{
    let s = packet_encoding(packet).skip(1);
    match packet {
        PacketView::Login { username, password } => {
            assert(s =~= text_field(username) + text_field(password));
        },
        PacketView::Register { username, password } => {
            assert(s =~= text_field(username) + text_field(password));
        },
        PacketView::Join { code, username } => {
            assert(s =~= wire::be_u32(code) + text_field(username));
            wire::lemma_u32_round_trip(code, text_field(username));
        },
        PacketView::UserUpdate { user_type, joined_before, username } => {
            user_type::law_bytes_of_roles(s[0], user_type);
            assert(s.skip(2) =~= text_field(username));
        },
        PacketView::Control { payload } => {
            assert(s =~= payload_encoding(payload));
        },
        PacketView::Screen { bytes } => {
            assert(s =~= sized_field(bytes));
        },
        PacketView::SeekTo { time_seconds } => {
            wire::law_twos_complement(time_seconds, 0);
            assert(s =~= wire::be_i32(time_seconds));
        },
        PacketView::WatchRecording { id } => {
            wire::law_twos_complement(id, 0);
            assert(s =~= wire::be_i32(id));
        },
        PacketView::RecordingName { id, name } => {
            wire::law_twos_complement(id, 0);
            assert(s =~= wire::be_u32(wire::i32_bits(id)) + text_field(name));
            wire::lemma_u32_round_trip(wire::i32_bits(id), text_field(name));
        },
        PacketView::RequestControl { username } => {
            assert(s =~= text_field(username));
        },
        PacketView::DenyControl { username } => {
            assert(s =~= text_field(username));
        },
        PacketView::Chat { message } => {
            assert(s =~= text_field(message));
        },
        PacketView::DenyJoin { username } => {
            assert(s =~= text_field(username));
        },
        _ => {},
    }
}

/// A packet is read only from bytes that start with it: what was read is what
/// was written, but for the bytes of flags, which may be any other than zero if
/// the flag is set.
pub proof fn law_read_packet_was_written(bytes: Seq<u8>, packet: PacketView)
    requires
        packet_decoding(bytes) == Decoded::Value(packet),
    ensures
        packet_is_carried(packet),
        bytes.len() >= packet_encoding(packet).len(),
        ({
            let front = bytes.take(packet_encoding(packet).len() as int);
            match packet {
                PacketView::UserUpdate { joined_before, .. } => {
                    &&& joined_before <==> bytes[2] != 0
                    &&& front == packet_encoding(packet).update(2, bytes[2])
                },
                PacketView::Control { payload } => bytes[0] == 6 && payload_decoding(bytes.skip(1))
                    == Some(payload),
                _ => front == packet_encoding(packet),
            }
        }),
{
    let s = bytes.skip(1);
    assert(bytes =~= seq![bytes[0]] + s);
    match packet {
        PacketView::Login { username, password } => {
            lemma_read_two_texts(bytes, username, password);
        },
        PacketView::Register { username, password } => {
            lemma_read_two_texts(bytes, username, password);
        },
        PacketView::Join { code, username } => {
            lemma_read_number_and_text(bytes, username);
        },
        PacketView::RecordingName { id, name } => {
            lemma_read_number_and_text(bytes, name);
            wire::law_twos_complement(id, wire::u32_at_front(s));
        },
        PacketView::UserUpdate { user_type, joined_before, username } => {
            user_type::law_bytes_of_roles(s[0], user_type);
            let rest = front_text(s.skip(2))->Value_0.1;
            law_texts_are_read(s.skip(2), username, rest);
            assert(bytes =~= seq![5u8, s[0], s[1]] + (text_field(username) + rest));
            assert(bytes.take(packet_encoding(packet).len() as int) =~= packet_encoding(
                packet,
            ).update(2, bytes[2]));
        },
        PacketView::Control { payload } => {
            law_read_payload_was_written(s, payload);
        },
        PacketView::Screen { bytes: data } => {
            let rest = front_field(s)->Some_0.1;
            law_fields_are_read(s, data, rest);
            assert(bytes =~= packet_encoding(packet) + rest);
            assert(bytes.take(packet_encoding(packet).len() as int) =~= packet_encoding(packet));
        },
        PacketView::SeekTo { time_seconds } => {
            lemma_read_signed_number(bytes, time_seconds);
        },
        PacketView::WatchRecording { id } => {
            lemma_read_signed_number(bytes, id);
        },
        PacketView::RequestControl { username } => {
            lemma_read_one_text(bytes, username);
        },
        PacketView::DenyControl { username } => {
            lemma_read_one_text(bytes, username);
        },
        PacketView::Chat { message } => {
            lemma_read_one_text(bytes, message);
        },
        PacketView::DenyJoin { username } => {
            lemma_read_one_text(bytes, username);
        },
        _ => {
            assert(bytes.take(1) =~= packet_encoding(packet));
        },
    }
}

/// Bytes from which a text is read, behind a kind, start with the two.
proof fn lemma_read_one_text(bytes: Seq<u8>, text: Seq<char>)
    requires
        bytes.len() > 0,
        front_text(bytes.skip(1)) matches Decoded::Value((read, _)) && read == text,
    ensures
        fits_field(text),
        bytes.len() >= 1 + text_field(text).len(),
        bytes.take(1 + text_field(text).len() as int) == seq![bytes[0]] + text_field(text),
{
    let s = bytes.skip(1);
    let rest = front_text(s)->Value_0.1;
    law_texts_are_read(s, text, rest);
    assert(bytes =~= seq![bytes[0]] + (text_field(text) + rest));
    assert(bytes.take(1 + text_field(text).len() as int) =~= seq![bytes[0]] + text_field(text));
}

/// Bytes from which two texts are read, behind a kind, start with the three.
proof fn lemma_read_two_texts(bytes: Seq<u8>, first: Seq<char>, second: Seq<char>)
    requires
        bytes.len() > 0,
        front_text(bytes.skip(1)) is Value,
        front_text(bytes.skip(1))->Value_0.0 == first,
        front_text(front_text(bytes.skip(1))->Value_0.1) is Value,
        front_text(front_text(bytes.skip(1))->Value_0.1)->Value_0.0 == second,
    ensures
        fits_field(first),
        fits_field(second),
        ({
            let whole = seq![bytes[0]] + text_field(first) + text_field(second);
            bytes.len() >= whole.len() && bytes.take(whole.len() as int) == whole
        }),
{
    let s = bytes.skip(1);
    let tail = front_text(s)->Value_0.1;
    let rest = front_text(tail)->Value_0.1;
    law_texts_are_read(s, first, tail);
    law_texts_are_read(tail, second, rest);
    let whole = seq![bytes[0]] + text_field(first) + text_field(second);
    assert(bytes =~= seq![bytes[0]] + (text_field(first) + (text_field(second) + rest)));
    assert(bytes.take(whole.len() as int) =~= whole);
}

/// Bytes from which a number and a text are read, behind a kind, start with the
/// three.
proof fn lemma_read_number_and_text(bytes: Seq<u8>, text: Seq<char>)
    requires
        bytes.len() >= 5,
        front_text(bytes.skip(1).skip(4)) is Value,
        front_text(bytes.skip(1).skip(4))->Value_0.0 == text,
    ensures
        fits_field(text),
        ({
            let whole = seq![bytes[0]] + wire::be_u32(wire::u32_at_front(bytes.skip(1)))
                + text_field(text);
            bytes.len() >= whole.len() && bytes.take(whole.len() as int) == whole
        }),
{
    let s = bytes.skip(1);
    let rest = front_text(s.skip(4))->Value_0.1;
    law_texts_are_read(s.skip(4), text, rest);
    wire::law_numbers_are_read(s);
    let whole = seq![bytes[0]] + wire::be_u32(wire::u32_at_front(s)) + text_field(text);
    assert(s =~= s.take(4) + s.skip(4));
    assert(bytes =~= seq![bytes[0]] + (s.take(4) + (text_field(text) + rest)));
    assert(bytes.take(whole.len() as int) =~= whole);
}

/// Bytes from which a signed number is read, behind a kind, start with the two.
proof fn lemma_read_signed_number(bytes: Seq<u8>, number: i32)
    requires
        bytes.len() >= 5,
        wire::i32_from_bits(wire::u32_at_front(bytes.skip(1))) == number,
    ensures
        (seq![bytes[0]] + wire::be_i32(number)).len() == 5,
        bytes.take(5) == seq![bytes[0]] + wire::be_i32(number),
{
    let s = bytes.skip(1);
    wire::law_numbers_are_read(s);
    wire::law_twos_complement(number, wire::u32_at_front(s));
    assert(bytes.take(5) =~= seq![bytes[0]] + s.take(4));
}

/// Whether the field behind the first `n` bytes is there and is no text.
pub open spec fn has_bad_text(bytes: Seq<u8>, n: int) -> bool {
    n <= bytes.len() && front_field(bytes.skip(n)) is Some && !valid_utf8(
        front_field(bytes.skip(n))->Some_0.0,
    )
}

/// No packet is read from nothing, nor from bytes of an unknown kind. Bytes
/// with a field that should be text and is none are told apart from those that
/// are malformed in other ways.
pub proof fn law_what_is_no_packet(bytes: Seq<u8>)
    ensures
        bytes.len() == 0 || bytes[0] >= 20 ==> packet_decoding(bytes) is Malformed,
        bytes.len() > 0 && (bytes[0] == 10 || bytes[0] == 11 || bytes[0] == 15 || bytes[0] == 18) ==> (
        packet_decoding(bytes) is BadText <==> has_bad_text(bytes, 1)),
        bytes.len() > 0 && (bytes[0] == 1 || bytes[0] == 2) ==> (packet_decoding(bytes) is BadText <==> {
            ||| has_bad_text(bytes, 1)
            ||| front_text(bytes.skip(1)) matches Decoded::Value((_, rest)) && has_bad_text(rest, 0)
        }),
        bytes.len() > 0 && (bytes[0] == 4 || bytes[0] == 17) ==> (packet_decoding(bytes) is BadText
            <==> has_bad_text(bytes, 5)),
        bytes.len() > 0 && bytes[0] == 5 ==> (packet_decoding(bytes) is BadText <==> has_bad_text(
            bytes,
            3,
        ) && bytes[1] <= 3),
        packet_decoding(bytes) is BadText ==> bytes.len() > 0 && (bytes[0] == 1 || bytes[0] == 2
            || bytes[0] == 4 || bytes[0] == 5 || bytes[0] == 10 || bytes[0] == 11 || bytes[0] == 15
            || bytes[0] == 17 || bytes[0] == 18),
{
    if bytes.len() > 0 {
        let s = bytes.skip(1);
        if bytes[0] == 1 || bytes[0] == 2 {
            if let Decoded::Value((_, rest)) = front_text(s) {
                assert(rest.skip(0) =~= rest);
            }
        }
        if bytes.len() >= 5 {
            assert(s.skip(4) =~= bytes.skip(5));
        }
        if bytes.len() >= 3 {
            assert(s.skip(2) =~= bytes.skip(3));
            user_type::law_bytes_of_roles(bytes[1], UserType::Host);
        }
    }
}

/// A packet survives the wire unless it is a click with an extra mouse button or
/// has a field of 4 GiB or more.
pub proof fn law_what_survives(packet: PacketView)
    ensures
        packet is Empty || packet is Host || packet is SessionExit || packet is SignOut
            || packet is Shutdown || packet is SessionEnd || packet is WatchRecording
            || packet is SeekInit || packet is SeekTo ==> packet_is_carried(packet),
        packet_encoding(packet).len() < 0x1_0000_0000 && !(packet is Control) ==> packet_is_carried(
            packet,
        ),
        packet matches PacketView::Control { payload } ==> (packet_is_carried(packet) <==> !(
        payload matches ControlPayload::MouseClick { button, .. } && (button
            == PointerButton::Extra1 || button == PointerButton::Extra2))),
{
}

/// A result is a byte that tells a failure, 0, from a success, 1, and its
/// message.
pub proof fn law_layout_of_a_result(msg: Seq<char>)
    ensures
        result_encoding(ResultView::Failure(msg))[0] == 0,
        result_encoding(ResultView::Success(msg))[0] == 1,
        result_encoding(ResultView::Failure(msg)).skip(1) == text_field(msg),
        result_encoding(ResultView::Success(msg)).skip(1) == text_field(msg),
{
    assert(result_encoding(ResultView::Failure(msg)).skip(1) =~= text_field(msg));
    assert(result_encoding(ResultView::Success(msg)).skip(1) =~= text_field(msg));
}

/// A result is read only from bytes that start with it; bytes whose message is
/// no text are told apart from other bytes that are no result.
pub proof fn law_read_result_was_written(bytes: Seq<u8>, result: ResultView)
    ensures
        result_decoding(bytes) == Decoded::Value(result) ==> {
            &&& bytes.len() >= result_encoding(result).len()
            &&& bytes.take(result_encoding(result).len() as int) == result_encoding(result)
        },
        result_decoding(bytes) is BadText <==> bytes.len() > 0 && has_bad_text(bytes, 1),
        bytes.len() == 0 ==> result_decoding(bytes) is Malformed,
        bytes.len() > 0 && bytes[0] > 1 ==> !(result_decoding(bytes) is Value),
{
    if result_decoding(bytes) == Decoded::Value(result) {
        match result {
            ResultView::Failure(msg) => {
                lemma_read_one_text(bytes, msg);
            },
            ResultView::Success(msg) => {
                lemma_read_one_text(bytes, msg);
            },
        }
    }
}

} // verus!
