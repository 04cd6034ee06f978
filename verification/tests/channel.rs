use rsa::pkcs1::{DecodeRsaPublicKey, EncodeRsaPublicKey};
use rsa::traits::PublicKeyParts;
use rsa::Pkcs1v15Encrypt;
use stream_desk::protocol::{ControlPayload, Packet, ResultPacket};
use stream_desk::secure_channel::{
    frame_length, ChannelError, RsaKeyPair, RsaPublicKey, SecureChannel, RSA_KEY_BITS,
};

/// The server's end before the key exchange, and a key that is made quickly.
fn new_server() -> (SecureChannel, RsaKeyPair) {
    let server = SecureChannel {
        connected: true,
        nonce_counter: 1,
        cipher: None,
        is_server: true,
    };
    (server, RsaKeyPair::generate(512).unwrap())
}

/// A server and a client that have exchanged keys.
fn connected_ends() -> (SecureChannel, SecureChannel) {
    let (mut server, pair) = new_server();
    let mut client = SecureChannel::new_client(true);
    let key = server.send_rsa_key(&pair);
    let len = frame_length([key[0], key[1], key[2], key[3]]);
    assert_eq!(len as usize, key.len() - 4);
    let public = client.receive_rsa_key(key[4..].to_vec()).unwrap();
    let sealed = client.send_aes_key(&public).unwrap();
    assert_eq!(sealed.len(), 4 + 64);
    server.receive_aes_key(&pair, sealed[4..].to_vec()).unwrap();
    (server, client)
}

/// Two ends that share a fixed key.
fn ends_with_key(key: [u8; 32]) -> (SecureChannel, SecureChannel) {
    let server = SecureChannel {
        connected: true,
        nonce_counter: 1,
        cipher: Some(key),
        is_server: true,
    };
    let client = SecureChannel {
        connected: true,
        nonce_counter: 1,
        cipher: Some(key),
        is_server: false,
    };
    (server, client)
}

/// The nonce and the ciphertext of a frame.
fn split(frame: &[u8]) -> ([u8; 12], Vec<u8>) {
    let len = frame_length([frame[0], frame[1], frame[2], frame[3]]) as usize;
    let mut nonce = [0u8; 12];
    nonce.copy_from_slice(&frame[4..16]);
    assert_eq!(frame.len(), 16 + len);
    (nonce, frame[16..].to_vec())
}

#[test]
fn both_ends_have_the_key_of_the_client() {
    let (server, client) = connected_ends();
    assert!(client.cipher.is_some());
    assert_eq!(server.cipher, client.cipher);
    assert!(server.is_connected());
    assert!(client.is_connected());
}

#[test]
fn packets_cross_an_exchanged_channel_in_both_directions() {
    let (mut server, mut client) = connected_ends();
    let (nonce, sealed) = split(&client.send(Packet::Host).unwrap());
    assert_eq!(server.receive::<Packet>(nonce, sealed), Ok(Packet::Host));
    let answer = ResultPacket::Success("123456".to_owned());
    let (nonce, sealed) = split(&server.send(answer).unwrap());
    assert_eq!(
        client.receive::<ResultPacket>(nonce, sealed),
        Ok(ResultPacket::Success("123456".to_owned()))
    );
}

#[test]
fn messages_follow_one_another_in_a_stream() {
    let (mut server, client) = connected_ends();
    let mut stream = server.send(Packet::Host).unwrap();
    stream.extend(server.send(Packet::SeekTo { time_seconds: 3 }).unwrap());
    let mut received = vec![];
    while !stream.is_empty() {
        let len = frame_length([stream[0], stream[1], stream[2], stream[3]]) as usize;
        let rest = stream.split_off(16 + len);
        let (nonce, sealed) = split(&stream);
        received.push(client.receive::<Packet>(nonce, sealed).unwrap());
        stream = rest;
    }
    assert_eq!(received, vec![Packet::Host, Packet::SeekTo { time_seconds: 3 }]);
}

#[test]
fn a_packet_is_received_as_it_was_sent() {
    let (mut server, client) = ends_with_key([7; 32]);
    let packet = Packet::Control {
        payload: ControlPayload::Scroll { delta: -1 },
    };
    let frame = server.send(packet.clone()).unwrap();
    let (nonce, sealed) = split(&frame);
    assert_eq!(sealed.len(), 1 + 5 + 16);
    assert_ne!(&sealed[..6], &[6, 3, 255, 255, 255, 255]);
    assert_eq!(client.receive::<Packet>(nonce, sealed), Ok(packet));
}

#[test]
fn sealing_is_a_function_of_key_nonce_and_message() {
    let (mut a, _) = ends_with_key([1; 32]);
    let (mut b, _) = ends_with_key([1; 32]);
    let (mut c, _) = ends_with_key([2; 32]);
    let first = a.send(Packet::Host).unwrap();
    assert_eq!(first, b.send(Packet::Host).unwrap());
    assert_ne!(first, c.send(Packet::Host).unwrap());
    assert_ne!(first, a.send(Packet::Host).unwrap());
}

#[test]
fn nonces_count_up_and_tell_the_ends_apart() {
    let (mut server, mut client) = ends_with_key([0; 32]);
    assert_eq!(server.next_nonce(), [0, 0, 0, 0, 0, 0, 0, 0, 0, 0, 0, 1]);
    assert_eq!(server.next_nonce(), [0, 0, 0, 0, 0, 0, 0, 0, 0, 0, 0, 2]);
    assert_eq!(client.next_nonce(), [1, 1, 1, 1, 0, 0, 0, 0, 0, 0, 0, 1]);
    server.nonce_counter = u64::MAX;
    assert_eq!(server.next_nonce(), [0, 0, 0, 0, 255, 255, 255, 255, 255, 255, 255, 255]);
    assert_eq!(server.nonce_counter, 0);
}

#[test]
fn a_changed_ciphertext_is_refused() {
    let (mut server, client) = ends_with_key([9; 32]);
    let (nonce, mut sealed) = split(&server.send(Packet::Host).unwrap());
    sealed[0] ^= 1;
    assert_eq!(client.receive::<Packet>(nonce, sealed), Err(ChannelError::Decrypt));
}

#[test]
fn a_message_of_another_type_is_not_understood() {
    let (mut server, client) = ends_with_key([9; 32]);
    let (nonce, sealed) = split(&server.send(Packet::SeekInit).unwrap());
    assert_eq!(client.receive::<ResultPacket>(nonce, sealed), Err(ChannelError::Parse));
}

#[test]
fn text_that_is_not_utf8_is_told_apart() {
    let (mut server, client) = ends_with_key([9; 32]);
    // Read as a result, the length of the video is the length of a message.
    let frame = server.send(Packet::Screen { bytes: vec![0xff, 0xfe] }).unwrap();
    let (nonce, sealed) = split(&frame);
    assert_eq!(client.receive::<ResultPacket>(nonce, sealed), Err(ChannelError::BadText));
}

#[test]
fn bytes_that_are_no_key_are_refused() {
    let client = SecureChannel::new_client(true);
    assert!(matches!(
        client.receive_rsa_key(vec![1, 2, 3]),
        Err(ChannelError::PublicKey)
    ));
}

#[test]
fn an_aes_key_that_cannot_be_decrypted_is_refused() {
    let (mut server, pair) = new_server();
    assert_eq!(
        server.receive_aes_key(&pair, vec![5; 64]),
        Err(ChannelError::KeyDecryption)
    );
    assert!(server.cipher.is_none());
}

#[test]
fn keys_have_the_length_they_were_made_for() {
    let (server, pair) = new_server();
    let sent = server.send_rsa_key(&pair);
    let public = rsa::RsaPublicKey::from_pkcs1_der(&sent[4..]).unwrap();
    assert_eq!(public.size(), 64);
    assert_eq!(RSA_KEY_BITS, 2048);
}

#[test]
fn an_unconnected_end_knows_it() {
    let client = SecureChannel::new_client(false);
    assert!(!client.is_connected());
    assert!(client.cipher.is_none());
    assert!(!client.is_server);
    assert_eq!(client.nonce_counter, 1);
}

#[test]
fn errors_explain_themselves() {
    assert_eq!(ChannelError::Encrypt.to_text(), "Could not encrypt message");
    assert_eq!(ChannelError::Decrypt.to_text(), "Could not decrypt message");
    assert_eq!(ChannelError::Parse.to_text(), "Could not parse packet");
    assert_eq!(ChannelError::KeyGeneration.to_text(), "Could not generate RSA key");
    assert_eq!(ChannelError::KeyLength.to_text(), "AES key has the wrong length");
}

#[test]
fn an_aes_key_of_another_length_is_refused() {
    let (mut server, pair) = new_server();
    let sent = server.send_rsa_key(&pair);
    let public = rsa::RsaPublicKey::from_pkcs1_der(&sent[4..]).unwrap();
    let sealed = public
        .encrypt(&mut rsa::rand_core::OsRng, Pkcs1v15Encrypt, &[1, 2, 3])
        .unwrap();
    assert_eq!(server.receive_aes_key(&pair, sealed), Err(ChannelError::KeyLength));
    assert!(server.cipher.is_none());
    let sealed = public
        .encrypt(&mut rsa::rand_core::OsRng, Pkcs1v15Encrypt, &[8; 32])
        .unwrap();
    assert_eq!(server.receive_aes_key(&pair, sealed), Ok(()));
    assert_eq!(server.cipher, Some([8; 32]));
}

#[test]
fn a_public_key_that_is_too_short_cannot_carry_the_aes_key() {
    let small = rsa::RsaPrivateKey::new(&mut rsa::rand_core::OsRng, 256).unwrap();
    let der = small.to_public_key().to_pkcs1_der().unwrap().as_bytes().to_vec();
    let mut client = SecureChannel::new_client(true);
    let key: RsaPublicKey = client.receive_rsa_key(der).unwrap();
    assert_eq!(client.send_aes_key(&key), Err(ChannelError::KeyEncryption));
    assert!(client.cipher.is_some());
}

#[test]
fn fresh_aes_keys_differ() {
    let (_, a) = connected_ends();
    let (_, b) = connected_ends();
    assert_ne!(a.cipher, b.cipher);
}
