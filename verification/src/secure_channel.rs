//! The encrypted channel between a client and the server.
//!
//! The server sends an RSA public key, the client answers with a fresh AES key
//! encrypted with it, and from then on every message is a frame: the length of
//! the ciphertext, the nonce and the ciphertext. Sockets are not touched here:
//! the functions return the bytes to write and take the bytes that were read.

use crate::crypto;
use crate::crypto::{
    aes_decrypt, aes_encrypt, aes_generate_key, rsa_decrypt, rsa_encrypt, rsa_generate,
    rsa_public_of, rsa_size_of_public,
};
use crate::protocol;
use crate::protocol::{write_length_and_data, Decoded, ProtocolMessage};
use crate::wire;
use crate::wire::{write_bytes, write_u32, write_u64};
use vstd::prelude::*;

verus! {

broadcast use wire::lemma_be_u32_len;

/// Why the channel could not do what it was asked.
#[derive(Clone, Copy, PartialEq, Eq, Structural, Debug)]
pub enum ChannelError {
    /// The server could not make its RSA key.
    KeyGeneration,
    /// The client received bytes that are no RSA public key.
    PublicKey,
    /// The client could not encrypt the AES key.
    KeyEncryption,
    /// The server could not decrypt the AES key.
    KeyDecryption,
    /// The server decrypted an AES key that is not 32 bytes long.
    KeyLength,
    /// A message could not be encrypted.
    Encrypt,
    /// A message could not be decrypted.
    Decrypt,
    /// What was decrypted is no message of the expected type.
    Parse,
    /// What was decrypted holds text that is not valid UTF-8.
    BadText,
}

/// The explanation of an error.
pub open spec fn error_text(error: ChannelError) -> Seq<char> {
    match error {
        ChannelError::KeyGeneration => "Could not generate RSA key"@,
        ChannelError::PublicKey => "Could not read RSA key"@,
        ChannelError::KeyEncryption => "Could not encrypt AES key"@,
        ChannelError::KeyDecryption => "Could not decrypt AES key"@,
        ChannelError::KeyLength => "AES key has the wrong length"@,
        ChannelError::Encrypt => "Could not encrypt message"@,
        ChannelError::Decrypt => "Could not decrypt message"@,
        ChannelError::Parse => "Could not parse packet"@,
        ChannelError::BadText => "bytes should be valid utf8."@,
    }
}

impl ChannelError {
    /// The explanation of this error.
    pub fn to_text(&self) -> (text: String)
        ensures
            text@ == error_text(*self),
    {
        match self {
            ChannelError::KeyGeneration => "Could not generate RSA key".to_owned(),
            ChannelError::PublicKey => "Could not read RSA key".to_owned(),
            ChannelError::KeyEncryption => "Could not encrypt AES key".to_owned(),
            ChannelError::KeyDecryption => "Could not decrypt AES key".to_owned(),
            ChannelError::KeyLength => "AES key has the wrong length".to_owned(),
            ChannelError::Encrypt => "Could not encrypt message".to_owned(),
            ChannelError::Decrypt => "Could not decrypt message".to_owned(),
            ChannelError::Parse => "Could not parse packet".to_owned(),
            ChannelError::BadText => "bytes should be valid utf8.".to_owned(),
        }
    }
}

/// The server's RSA key pair.
pub struct RsaKeyPair {
    private: Vec<u8>,
    bits: usize,
}

impl RsaKeyPair {
    #[verifier::type_invariant]
    spec fn is_generated(self) -> bool {
        &&& crypto::rsa_is_key_length(self.bits as nat)
        &&& crypto::rsa_generated(self.private@, self.bits as nat)
    }

    /// The number of bits of the key.
    pub closed spec fn key_length(self) -> nat {
        self.bits as nat
    }

    /// The private key in PKCS#1 form.
    pub closed spec fn private_key(self) -> Seq<u8> {
        self.private@
    }

    /// The public key in PKCS#1 form.
    pub open spec fn public_key(self) -> Seq<u8> {
        crypto::rsa_public(self.private_key())->Some_0
    }

    /// Makes a new key pair of a given length.
    pub fn generate(bits: usize) -> (pair: Result<RsaKeyPair, ChannelError>)
        requires
            crypto::rsa_is_key_length(bits as nat),
        ensures
            pair is Ok,
            pair matches Ok(pair) ==> {
                &&& pair.key_length() == bits
                &&& crypto::rsa_generated(pair.private_key(), bits as nat)
            },
    {
        match rsa_generate(bits) {
            Ok(private) => Ok(RsaKeyPair { private, bits }),
            Err(_) => Err(ChannelError::KeyGeneration),
        }
    }
}

/// An RSA public key that was received and found valid.
pub struct RsaPublicKey {
    /// The key in PKCS#1 form.
    pub der: Vec<u8>,
}

/// The length of the server's RSA key in bits.
pub const RSA_KEY_BITS: usize = 2048;

/// One end of an encrypted channel.
pub struct SecureChannel {
    /// Whether there is a peer at all.
    pub connected: bool,
    /// The number in the next nonce.
    pub nonce_counter: u64,
    /// The AES key, once it has been exchanged.
    pub cipher: Option<[u8; 32]>,
    /// Which end this is.
    pub is_server: bool,
}

/// The nonce with a given number. The first four bytes tell the ends apart.
pub open spec fn nonce_bytes(is_server: bool, number: u64) -> Seq<u8> {
    seq![origin_byte(is_server); 4] + wire::be_u64(number)
}

/// The byte that the nonces of an end start with.
pub open spec fn origin_byte(is_server: bool) -> u8 {
    if is_server {
        0
    } else {
        1
    }
}

/// The counter after `number`; it wraps around.
pub open spec fn next_number(number: u64) -> u64 {
    if number == u64::MAX {
        0
    } else {
        (number + 1) as u64
    }
}

/// A frame on the wire. The length is kept modulo 2^32.
pub open spec fn frame(nonce: Seq<u8>, sealed: Seq<u8>) -> Seq<u8> {
    wire::be_u32((sealed.len() % 0x1_0000_0000) as u32) + nonce + sealed
}

/// What a receiver makes of a nonce and a ciphertext.
pub open spec fn received<T: ProtocolMessage>(
    key: Seq<u8>,
    nonce: Seq<u8>,
    sealed: Seq<u8>,
) -> Result<T::V, ChannelError> {
    match crypto::aes_opened(key, nonce, sealed) {
        None => Err(ChannelError::Decrypt),
        Some(message) => match T::decoding(message) {
            Decoded::Value(value) => Ok(value),
            Decoded::Malformed => Err(ChannelError::Parse),
            Decoded::BadText => Err(ChannelError::BadText),
        },
    }
}

/// Whether an end makes an AES key its own and `bytes` carry the key, encrypted
/// with a public key.
pub open spec fn sends_aes_key(
    before: SecureChannel,
    after: SecureChannel,
    public: Seq<u8>,
    bytes: Seq<u8>,
) -> bool {
    &&& after.cipher is Some
    &&& after == (SecureChannel { cipher: after.cipher, ..before })
    &&& bytes == protocol::sized_field(bytes.skip(4))
    &&& crypto::rsa_seals(public, after.cipher->Some_0@, bytes.skip(4))
}

/// What an end makes of an encrypted AES key. What was encrypted with the
/// pair's public key is given back; it becomes the key of this end if it has
/// the right length.
pub open spec fn takes_aes_key(
    before: SecureChannel,
    after: SecureChannel,
    pair: RsaKeyPair,
    encrypted: Seq<u8>,
    result: Result<(), ChannelError>,
) -> bool {
    &&& match crypto::rsa_opened(pair.private_key(), encrypted) {
        None => result == Err::<(), _>(ChannelError::KeyDecryption) && after == before,
        Some(key) => if key.len() == 32 {
            &&& result == Ok::<_, ChannelError>(())
            &&& after.cipher is Some
            &&& after.cipher->Some_0@ == key
            &&& after == (SecureChannel { cipher: after.cipher, ..before })
        } else {
            result == Err::<(), _>(ChannelError::KeyLength) && after == before
        },
    }
    &&& forall|key: Seq<u8>|
        (crypto::rsa_public(pair.private_key()) is Some && #[trigger] crypto::rsa_seals(
            pair.public_key(),
            key,
            encrypted,
        )) ==> crypto::rsa_opened(pair.private_key(), encrypted) == Some(key)
}

/// Whether `bytes` are the frame in which an end sends a message: under its key
/// and its next nonce, with a ciphertext that decrypts to the message.
pub open spec fn sends_frame(channel: SecureChannel, message: Seq<u8>, bytes: Seq<u8>) -> bool {
    let key = channel.cipher->Some_0@;
    let nonce = nonce_bytes(channel.is_server, channel.nonce_counter);
    let sealed = crypto::aes_sealed(key, nonce, message);
    &&& bytes == frame(nonce, sealed)
    &&& sealed.len() == message.len() + 16
    &&& crypto::aes_opened(key, nonce, sealed) == Some(message)
}

/// The length that the first four bytes of a frame or a key announce.
pub fn frame_length(len_buf: [u8; 4]) -> (len: u32)
    ensures
        len == wire::u32_at_front(len_buf@),
{
    reveal(wire::u32_at_front);
    len_buf[0] as u32 * 0x100_0000 + len_buf[1] as u32 * 0x1_0000 + len_buf[2] as u32 * 0x100
        + len_buf[3] as u32
}

impl SecureChannel {
    /// The server's end, and the RSA key pair with which it starts the key
    /// exchange.
    pub fn new_server(connected: bool) -> (server: Result<(SecureChannel, RsaKeyPair), ChannelError>)
        ensures
            match server {
                Ok((channel, pair)) => {
                    &&& channel == (SecureChannel {
                        connected,
                        nonce_counter: 1,
                        cipher: None,
                        is_server: true,
                    })
                    &&& pair.key_length() == RSA_KEY_BITS
                    &&& crypto::rsa_generated(pair.private_key(), RSA_KEY_BITS as nat)
                },
                Err(_) => false,
            },
    {
        let pair: RsaKeyPair = RsaKeyPair::generate(RSA_KEY_BITS)?;
        Ok((SecureChannel { connected, nonce_counter: 1, cipher: None, is_server: true }, pair))
    }

    /// The client's end.
    pub fn new_client(connected: bool) -> (channel: SecureChannel)
        ensures
            channel == (SecureChannel {
                connected,
                nonce_counter: 1,
                cipher: None,
                is_server: false,
            }),
    {
        SecureChannel { connected, nonce_counter: 1, cipher: None, is_server: false }
    }

    /// Whether there is a peer.
    pub fn is_connected(&self) -> (connected: bool)
        ensures
            connected == self.connected,
    {
        self.connected
    }

    /// The bytes with which the server sends its public key.
    pub fn send_rsa_key(&self, pair: &RsaKeyPair) -> (bytes: Vec<u8>)
        ensures
            crypto::rsa_public(pair.private_key()) is Some,
            crypto::rsa_public_size(pair.public_key()) == Some(pair.key_length() / 8),
            bytes@ == protocol::sized_field(pair.public_key()),
    {
        proof {
            use_type_invariant(pair);
        }
        let mut bytes: Vec<u8> = Vec::new();
        match rsa_public_of(pair.private.as_slice()) {
            Ok(key) => {
                write_length_and_data(&mut bytes, key.as_slice());
                assert(bytes@ =~= protocol::sized_field(key@));
            },
            Err(_) => {},
        }
        bytes
    }

    /// Reads the public key that the server sent.
    pub fn receive_rsa_key(&self, public_key: Vec<u8>) -> (key: Result<RsaPublicKey, ChannelError>)
        ensures
            match key {
                Ok(key) => key.der == public_key && crypto::rsa_public_size(public_key@) is Some,
                Err(error) => {
                    &&& error == ChannelError::PublicKey
                    &&& crypto::rsa_public_size(public_key@) is None
                },
            },
    {
        match rsa_size_of_public(public_key.as_slice()) {
            Ok(_) => Ok(RsaPublicKey { der: public_key }),
            Err(_) => Err(ChannelError::PublicKey),
        }
    }

    /// Makes an AES key for this end, and returns the bytes with which the
    /// client sends it.
    ///
    /// The key is in use from then on, even if it cannot be encrypted, which
    /// happens if the public key is too short.
    pub fn send_aes_key(&mut self, key: &RsaPublicKey) -> (bytes: Result<Vec<u8>, ChannelError>)
        ensures
            final(self).cipher is Some,
            *final(self) == (SecureChannel { cipher: final(self).cipher, ..*old(self) }),
            bytes is Ok <==> crypto::rsa_public_size(key.der@) is Some && 43
                <= crypto::rsa_public_size(key.der@)->Some_0,
            bytes matches Ok(bytes) ==> sends_aes_key(*old(self), *final(self), key.der@, bytes@),
            bytes matches Err(error) ==> error == ChannelError::KeyEncryption,
    {
        let aes_key: [u8; 32] = aes_generate_key();
        self.cipher = Some(aes_key);
        match rsa_encrypt(key.der.as_slice(), aes_key.as_slice()) {
            Ok(sealed) => {
                let mut bytes: Vec<u8> = Vec::new();
                write_length_and_data(&mut bytes, sealed.as_slice());
                assert(bytes@ =~= protocol::sized_field(sealed@));
                assert(bytes@.skip(4) =~= sealed@);
                Ok(bytes)
            },
            Err(_) => Err(ChannelError::KeyEncryption),
        }
    }

    /// Takes over the AES key that the client sent.
    ///
    /// What the client's end encrypted with this pair's public key becomes the
    /// key of this end.
    pub fn receive_aes_key(&mut self, pair: &RsaKeyPair, encrypted_key: Vec<u8>) -> (result: Result<
        (),
        ChannelError,
    >)
        ensures
            takes_aes_key(*old(self), *final(self), *pair, encrypted_key@, result),
    {
        proof {
            use_type_invariant(pair);
        }
        match rsa_decrypt(pair.private.as_slice(), encrypted_key.as_slice()) {
            Ok(key) => {
                if key.len() != 32 {
                    return Err(ChannelError::KeyLength);
                }
                self.cipher = Some(key_array(&key));
                Ok(())
            },
            Err(_) => Err(ChannelError::KeyDecryption),
        }
    }

    /// The next nonce of this end. Each number is used once before the counter
    /// wraps around.
    pub fn next_nonce(&mut self) -> (nonce: [u8; 12])
        ensures
            nonce@ == nonce_bytes(old(self).is_server, old(self).nonce_counter),
            *final(self) == (SecureChannel {
                nonce_counter: next_number(old(self).nonce_counter),
                ..*old(self)
            }),
    {
        let number: u64 = self.nonce_counter;
        self.nonce_counter = number.wrapping_add(1);
        let origin: u8 = if self.is_server {
            0
        } else {
            1
        };
        let mut n: Vec<u8> = Vec::new();
        write_u64(&mut n, number);
        let nonce: [u8; 12] = [
            origin,
            origin,
            origin,
            origin,
            n[0],
            n[1],
            n[2],
            n[3],
            n[4],
            n[5],
            n[6],
            n[7],
        ];
        assert(nonce@ =~= nonce_bytes(old(self).is_server, number));
        nonce
    }

    /// Encrypts a message and returns the frame to write.
    ///
    /// The nonce is used up even if the message is too long to be encrypted.
    pub fn send<T: ProtocolMessage>(&mut self, packet: T) -> (bytes: Result<Vec<u8>, ChannelError>)
        requires
            old(self).cipher is Some,
        ensures
            *final(self) == (SecureChannel {
                nonce_counter: next_number(old(self).nonce_counter),
                ..*old(self)
            }),
            match bytes {
                Ok(bytes) => {
                    &&& T::encoding(packet@).len() <= crypto::aes_message_limit()
                    &&& sends_frame(*old(self), T::encoding(packet@), bytes@)
                },
                Err(error) => {
                    &&& T::encoding(packet@).len() > crypto::aes_message_limit()
                    &&& error == ChannelError::Encrypt
                },
            },
    {
        let nonce: [u8; 12] = self.next_nonce();
        let key: [u8; 32] = match self.cipher {
            Some(key) => key,
            None => return Err(ChannelError::Encrypt),
        };
        let message: Vec<u8> = packet.to_bytes();
        match aes_encrypt(&key, &nonce, message.as_slice()) {
            Ok(sealed) => {
                let mut bytes: Vec<u8> = Vec::new();
                let len: u32 = (sealed.len() as u64 % 0x1_0000_0000) as u32;
                write_u32(&mut bytes, len);
                write_bytes(&mut bytes, nonce.as_slice());
                write_bytes(&mut bytes, sealed.as_slice());
                assert(bytes@ =~= frame(nonce@, sealed@));
                Ok(bytes)
            },
            Err(_) => Err(ChannelError::Encrypt),
        }
    }

    /// Decrypts and reads a message from the nonce and the ciphertext of a
    /// frame.
    pub fn receive<T: ProtocolMessage>(&self, nonce: [u8; 12], encrypted: Vec<u8>) -> (message:
        Result<T, ChannelError>)
        requires
            self.cipher is Some,
        ensures
            match received::<T>(self.cipher->Some_0@, nonce@, encrypted@) {
                Ok(value) => message is Ok && message->Ok_0@ == value,
                Err(error) => message is Err && message->Err_0 == error,
            },
    {
        let key: [u8; 32] = match self.cipher {
            Some(key) => key,
            None => return Err(ChannelError::Decrypt),
        };
        match aes_decrypt(&key, &nonce, encrypted.as_slice()) {
            Ok(decrypted) => match T::decode(decrypted) {
                Decoded::Value(message) => Ok(message),
                Decoded::Malformed => Err(ChannelError::Parse),
                Decoded::BadText => Err(ChannelError::BadText),
            },
            Err(_) => Err(ChannelError::Decrypt),
        }
    }
}

/// The bytes of a key as an array.
fn key_array(key: &Vec<u8>) -> (array: [u8; 32])
    requires
        key@.len() == 32,
    ensures
        array@ == key@,
{
    let array: [u8; 32] = [
        key[0], key[1], key[2], key[3], key[4], key[5], key[6], key[7],
        key[8], key[9], key[10], key[11], key[12], key[13], key[14], key[15],
        key[16], key[17], key[18], key[19], key[20], key[21], key[22], key[23],
        key[24], key[25], key[26], key[27], key[28], key[29], key[30], key[31],
    ];
    assert(array@ =~= key@);
    array
}

/// The two ends of a channel never use the same nonce.
pub proof fn law_ends_use_different_nonces(server_number: u64, client_number: u64)
    ensures
        nonce_bytes(true, server_number) != nonce_bytes(false, client_number),
{
    assert(nonce_bytes(true, server_number)[0] == 0);
    assert(nonce_bytes(false, client_number)[0] == 1);
}

/// One end uses a different nonce for each number.
pub proof fn law_numbers_give_different_nonces(is_server: bool, a: u64, b: u64)
    requires
        a != b,
    ensures
        nonce_bytes(is_server, a) != nonce_bytes(is_server, b),
{
    if nonce_bytes(is_server, a) == nonce_bytes(is_server, b) {
        assert(nonce_bytes(is_server, a).skip(4) =~= wire::be_u64(a));
        assert(nonce_bytes(is_server, b).skip(4) =~= wire::be_u64(b));
        wire::lemma_be_u64_injective(a, b);
    }
}

/// The number of the nonce that an end uses after `sent` messages.
pub open spec fn number_after(first: u64, sent: nat) -> u64
    decreases sent,
{
    if sent == 0 {
        first
    } else {
        next_number(number_after(first, (sent - 1) as nat))
    }
}

/// An end uses a different nonce for each of its first 2^64 messages.
pub proof fn law_messages_have_different_nonces(is_server: bool, first: u64, i: nat, j: nat)
    requires
        i < j < 0x1_0000_0000_0000_0000,
    ensures
        nonce_bytes(is_server, number_after(first, i)) != nonce_bytes(
            is_server,
            number_after(first, j),
        ),
{
    lemma_number_after(first, i);
    lemma_number_after(first, j);
    assert(number_after(first, i) != number_after(first, j)) by {
        let m = 0x1_0000_0000_0000_0000int;
        if (first + i) % m == (first + j) % m {
            assert(first + i < 2 * m && first + j < 2 * m);
        }
    }
    law_numbers_give_different_nonces(is_server, number_after(first, i), number_after(first, j));
}

/// The counter counts modulo 2^64.
proof fn lemma_number_after(first: u64, sent: nat)
    ensures
        number_after(first, sent) == (first + sent) % 0x1_0000_0000_0000_0000,
    decreases sent,
{
    if sent > 0 {
        lemma_number_after(first, (sent - 1) as nat);
    }
}

/// A receiver that reads the length, the nonce and then as many bytes as the
/// length says reads exactly one frame, whatever follows it.
pub proof fn law_frame_is_read_back(nonce: Seq<u8>, sealed: Seq<u8>, rest: Seq<u8>)
    requires
        nonce.len() == 12,
        sealed.len() < 0x1_0000_0000,
    ensures
        ({
            let stream = frame(nonce, sealed) + rest;
            let len = wire::u32_at_front(stream);
            &&& stream.subrange(4, 16) == nonce
            &&& stream.subrange(16, 16 + len) == sealed
            &&& stream.skip(16 + len) == rest
        }),
{
    let stream = frame(nonce, sealed) + rest;
    let len = sealed.len() as u32;
    assert(stream =~= wire::be_u32(len) + (nonce + sealed + rest));
    wire::lemma_u32_round_trip(len, nonce + sealed + rest);
    assert(stream.subrange(4, 16) =~= nonce);
    assert(stream.subrange(16, 16 + len) =~= sealed);
    assert(stream.skip(16 + len) =~= rest);
}

/// After the exchange of keys both ends have the key that the client made: what
/// the client encrypted with the server's public key is what the server takes
/// over.
pub proof fn law_ends_share_the_key(
    server_before: SecureChannel,
    server: SecureChannel,
    client_before: SecureChannel,
    client: SecureChannel,
    pair: RsaKeyPair,
    sent_key: Seq<u8>,
    result: Result<(), ChannelError>,
)
    requires
        crypto::rsa_public(pair.private_key()) is Some,
        sends_aes_key(client_before, client, pair.public_key(), sent_key),
        takes_aes_key(server_before, server, pair, sent_key.skip(4), result),
    ensures
        result is Ok,
        server.cipher is Some,
        client.cipher is Some,
        server.cipher->Some_0@ == client.cipher->Some_0@,
{
    assert(client.cipher->Some_0@.len() == 32);
}

/// A message that an end sends is received by an end with the same key, if the
/// frame arrives unaltered, whatever follows it in the stream; what follows is
/// left for the next message. The message has to be one that is read back from
/// its own encoding, and short enough for the length of the frame.
pub proof fn law_message_crosses<T: ProtocolMessage>(
    sender: SecureChannel,
    receiver: SecureChannel,
    value: T::V,
    bytes: Seq<u8>,
    rest: Seq<u8>,
)
    requires
        sender.cipher is Some,
        receiver.cipher is Some,
        sender.cipher->Some_0@ == receiver.cipher->Some_0@,
        T::decoding(T::encoding(value)) == Decoded::Value(value),
        T::encoding(value).len() + 16 < 0x1_0000_0000,
        sends_frame(sender, T::encoding(value), bytes),
    ensures
        ({
            let stream = bytes + rest;
            let len = wire::u32_at_front(stream);
            &&& received::<T>(
                receiver.cipher->Some_0@,
                stream.subrange(4, 16),
                stream.subrange(16, 16 + len),
            ) == Ok::<_, ChannelError>(value)
            &&& stream.skip(16 + len) == rest
        }),
{
    let nonce = nonce_bytes(sender.is_server, sender.nonce_counter);
    let sealed = crypto::aes_sealed(sender.cipher->Some_0@, nonce, T::encoding(value));
    assert(nonce.len() == 12);
    law_frame_is_read_back(nonce, sealed, rest);
}

/// On a connection whose ends have exchanged keys every message crosses, in
/// either direction and however many went before it: the receiver gets what the
/// sender sent.
pub proof fn law_connection_carries_messages<T: ProtocolMessage>(
    server_before: SecureChannel,
    server: SecureChannel,
    client_before: SecureChannel,
    client: SecureChannel,
    pair: RsaKeyPair,
    sent_key: Seq<u8>,
    result: Result<(), ChannelError>,
    sender: SecureChannel,
    receiver: SecureChannel,
    value: T::V,
    bytes: Seq<u8>,
    rest: Seq<u8>,
)
    requires
        crypto::rsa_public(pair.private_key()) is Some,
        sends_aes_key(client_before, client, pair.public_key(), sent_key),
        takes_aes_key(server_before, server, pair, sent_key.skip(4), result),
        (sender.cipher == server.cipher && receiver.cipher == client.cipher) || (sender.cipher
            == client.cipher && receiver.cipher == server.cipher),
        T::decoding(T::encoding(value)) == Decoded::Value(value),
        T::encoding(value).len() + 16 < 0x1_0000_0000,
        sends_frame(sender, T::encoding(value), bytes),
    ensures
        ({
            let stream = bytes + rest;
            let len = wire::u32_at_front(stream);
            &&& received::<T>(
                receiver.cipher->Some_0@,
                stream.subrange(4, 16),
                stream.subrange(16, 16 + len),
            ) == Ok::<_, ChannelError>(value)
            &&& stream.skip(16 + len) == rest
        }),
{
    law_ends_share_the_key(
        server_before,
        server,
        client_before,
        client,
        pair,
        sent_key,
        result,
    );
    law_message_crosses::<T>(sender, receiver, value, bytes, rest);
}

/// The peer receives the packet that was sent: what decrypts to the encoding
/// of a packet is received as that packet.
pub proof fn law_packet_is_received(
    key: Seq<u8>,
    nonce: Seq<u8>,
    sealed: Seq<u8>,
    packet: protocol::PacketView,
)
    requires
        protocol::packet_is_carried(packet),
        crypto::aes_opened(key, nonce, sealed) == Some(protocol::packet_encoding(packet)),
    ensures
        received::<protocol::Packet>(key, nonce, sealed) == Ok::<_, ChannelError>(packet),
{
    protocol::law_packet_round_trip(packet, Seq::empty());
    assert(protocol::packet_encoding(packet) + Seq::<u8>::empty() =~= protocol::packet_encoding(
        packet,
    ));
}

/// The peer receives the result that was sent.
pub proof fn law_result_is_received(
    key: Seq<u8>,
    nonce: Seq<u8>,
    sealed: Seq<u8>,
    result: protocol::ResultView,
)
    requires
        match result {
            protocol::ResultView::Failure(msg) => protocol::fits_field(msg),
            protocol::ResultView::Success(msg) => protocol::fits_field(msg),
        },
        crypto::aes_opened(key, nonce, sealed) == Some(protocol::result_encoding(result)),
    ensures
        received::<protocol::ResultPacket>(key, nonce, sealed) == Ok::<_, ChannelError>(result),
{
    protocol::law_result_round_trip(result, Seq::empty());
    assert(protocol::result_encoding(result) + Seq::<u8>::empty() =~= protocol::result_encoding(
        result,
    ));
}

/// A nonce has twelve bytes: four that tell the ends apart, zeros for the server
/// and ones for the client, and the number in the other eight, most significant
/// byte first.
pub proof fn law_layout_of_a_nonce(is_server: bool, number: u64)
    ensures
        ({
            let nonce = nonce_bytes(is_server, number);
            &&& nonce.len() == 12
            &&& forall|i: int|
                0 <= i < 4 ==> #[trigger] nonce[i] == if is_server {
                    0u8
                } else {
                    1u8
                }
            &&& wire::u32_at_front(nonce.skip(4)) * 0x1_0000_0000 + wire::u32_at_front(nonce.skip(8))
                == number
        }),
{
    let nonce = nonce_bytes(is_server, number);
    wire::law_halves_add_up(number);
    assert(nonce.skip(4) =~= wire::be_u64(number));
    assert(nonce.skip(8) =~= wire::be_u64(number).skip(4));
}

/// The numbers follow one another by one, and start again at zero after the
/// last.
pub proof fn law_numbers_follow(number: u64)
    ensures
        next_number(number) == (number + 1) % 0x1_0000_0000_0000_0000,
{
}

/// A frame starts with the length of the ciphertext, as far as four bytes can
/// tell it, and holds the nonce and the ciphertext as they are.
pub proof fn law_layout_of_a_frame(nonce: Seq<u8>, sealed: Seq<u8>)
    requires
        nonce.len() == 12,
    ensures
        frame(nonce, sealed).len() == 16 + sealed.len(),
        wire::u32_at_front(frame(nonce, sealed)) == sealed.len() % 0x1_0000_0000,
        frame(nonce, sealed).subrange(4, 16) == nonce,
        frame(nonce, sealed).skip(16) == sealed,
{
    let len = (sealed.len() % 0x1_0000_0000) as u32;
    assert(frame(nonce, sealed) =~= wire::be_u32(len) + (nonce + sealed));
    wire::lemma_u32_round_trip(len, nonce + sealed);
    assert(frame(nonce, sealed).subrange(4, 16) =~= nonce);
    assert(frame(nonce, sealed).skip(16) =~= sealed);
}

/// What an end sends can be told by whoever has its key: the nonce in the frame
/// is that of the end and the number, and the ciphertext decrypts to the message
/// under the two.
pub proof fn law_what_is_sent(channel: SecureChannel, message: Seq<u8>, bytes: Seq<u8>)
    requires
        channel.cipher is Some,
        sends_frame(channel, message, bytes),
    ensures
        bytes.len() == 32 + message.len(),
        wire::u32_at_front(bytes) == (message.len() + 16) % 0x1_0000_0000,
        bytes.subrange(4, 16) == nonce_bytes(channel.is_server, channel.nonce_counter),
        crypto::aes_opened(channel.cipher->Some_0@, bytes.subrange(4, 16), bytes.skip(16)) == Some(
            message,
        ),
{
    let nonce = nonce_bytes(channel.is_server, channel.nonce_counter);
    let sealed = crypto::aes_sealed(channel.cipher->Some_0@, nonce, message);
    law_layout_of_a_frame(nonce, sealed);
}

/// What was received is what the ciphertext decrypts to, read as a message; who
/// cannot decrypt it gets one error, who cannot read it another, and text that
/// is no text a third.
pub proof fn law_what_is_received<T: ProtocolMessage>(
    key: Seq<u8>,
    nonce: Seq<u8>,
    sealed: Seq<u8>,
    message: Seq<u8>,
    value: T::V,
)
    ensures
        crypto::aes_opened(key, nonce, sealed) is None <==> received::<T>(key, nonce, sealed)
            == Err::<T::V, _>(ChannelError::Decrypt),
        crypto::aes_opened(key, nonce, sealed) == Some(message) ==> {
            &&& received::<T>(key, nonce, sealed) == Ok::<_, ChannelError>(value) <==> T::decoding(
                message,
            ) == Decoded::Value(value)
            &&& received::<T>(key, nonce, sealed) == Err::<T::V, _>(ChannelError::Parse)
                <==> T::decoding(message) is Malformed
            &&& received::<T>(key, nonce, sealed) == Err::<T::V, _>(ChannelError::BadText)
                <==> T::decoding(message) is BadText
        },
{
}

/// The client that sends a key keeps everything but its key, and announces how
/// many bytes follow.
pub proof fn law_client_keeps_the_rest(
    before: SecureChannel,
    after: SecureChannel,
    public: Seq<u8>,
    bytes: Seq<u8>,
)
    requires
        sends_aes_key(before, after, public, bytes),
    ensures
        after.connected == before.connected,
        after.nonce_counter == before.nonce_counter,
        after.is_server == before.is_server,
        after.cipher is Some,
        bytes.len() >= 4,
        wire::u32_at_front(bytes) == (bytes.len() - 4) % 0x1_0000_0000,
        crypto::rsa_seals(public, after.cipher->Some_0@, bytes.skip(4)),
{
    let data = bytes.skip(4);
    let len = (data.len() % 0x1_0000_0000) as u32;
    assert(bytes == protocol::sized_field(data));
    wire::lemma_u32_round_trip(len, data);
    assert(bytes.len() == 4 + data.len());
}

/// The server takes a key over exactly if it can decrypt one of 32 bytes; a
/// failure leaves the server's end as it was, and a success changes nothing but
/// the key.
pub proof fn law_server_takes_the_key(
    before: SecureChannel,
    after: SecureChannel,
    pair: RsaKeyPair,
    encrypted: Seq<u8>,
    result: Result<(), ChannelError>,
)
    requires
        takes_aes_key(before, after, pair, encrypted, result),
    ensures
        ({
            let opened = crypto::rsa_opened(pair.private_key(), encrypted);
            &&& result is Ok <==> opened is Some && opened->Some_0.len() == 32
            &&& result == Err::<(), _>(ChannelError::KeyDecryption) <==> opened is None
            &&& result == Err::<(), _>(ChannelError::KeyLength) <==> opened is Some
                && opened->Some_0.len() != 32
            &&& result is Err ==> after == before
            &&& result is Ok ==> after.cipher is Some && after.cipher->Some_0@ == opened->Some_0
            &&& after.connected == before.connected
            &&& after.nonce_counter == before.nonce_counter
            &&& after.is_server == before.is_server
        }),
{
}

/// Each error has an explanation of its own.
pub proof fn law_errors_are_explained()
    ensures
        error_text(ChannelError::KeyGeneration) == "Could not generate RSA key"@,
        error_text(ChannelError::PublicKey) == "Could not read RSA key"@,
        error_text(ChannelError::KeyEncryption) == "Could not encrypt AES key"@,
        error_text(ChannelError::KeyDecryption) == "Could not decrypt AES key"@,
        error_text(ChannelError::KeyLength) == "AES key has the wrong length"@,
        error_text(ChannelError::Encrypt) == "Could not encrypt message"@,
        error_text(ChannelError::Decrypt) == "Could not decrypt message"@,
        error_text(ChannelError::Parse) == "Could not parse packet"@,
        error_text(ChannelError::BadText) == "bytes should be valid utf8."@,
{
}

} // verus!
