//! Accounts: logging in and registering.

use crate::protocol;
use crate::protocol::{Packet, ResultPacket};
use vstd::prelude::*;
use vstd::utf8::*;

verus! {

/// What the server does first with a packet of a client that is not signed in.
#[derive(PartialEq, Eq, Debug)]
pub enum AccountRequest {
    /// The client shuts down: close its channel.
    Close,
    /// Look for the user with this name and password.
    Find { username: String, password: String },
    /// Make a user with this name and password.
    Create { username: String, password: String },
    /// Answer that the name cannot be taken, and why.
    Refuse { reason: String },
    /// Do nothing.
    Ignore,
}

/// The content of an [`AccountRequest`].
#[verifier::ext_equal]
pub enum AccountRequestView {
    Close,
    Find { username: Seq<char>, password: Seq<char> },
    Create { username: Seq<char>, password: Seq<char> },
    Refuse { reason: Seq<char> },
    Ignore,
}

impl View for AccountRequest {
    type V = AccountRequestView;

    open spec fn view(&self) -> AccountRequestView {
        match self {
            AccountRequest::Close => AccountRequestView::Close,
            AccountRequest::Find { username, password } => AccountRequestView::Find {
                username: username@,
                password: password@,
            },
            AccountRequest::Create { username, password } => AccountRequestView::Create {
                username: username@,
                password: password@,
            },
            AccountRequest::Refuse { reason } => AccountRequestView::Refuse { reason: reason@ },
            AccountRequest::Ignore => AccountRequestView::Ignore,
        }
    }
}

/// What came of looking for a user, or of making one.
#[derive(Clone, Copy, PartialEq, Eq, Structural, Debug)]
pub enum AccountOutcome {
    /// The user was found.
    Found { user_id: i32 },
    /// There is no user with this name and password.
    NotFound,
    /// The user could not be looked for.
    FindFailed,
    /// The user was made.
    Created { user_id: i32 },
    /// Another user has this name.
    Taken,
    /// The user could not be made.
    CreateFailed,
}

/// Whether a character may stand in a user's name.
pub open spec fn is_name_char(c: char) -> bool {
    '0' <= c <= '9' || 'A' <= c <= 'Z' || 'a' <= c <= 'z'
}

/// Why a name cannot be taken; nothing if it can.
pub open spec fn name_error(username: Seq<char>) -> Option<Seq<char>> {
    if username.len() == 0 {
        Some("Username cannot be empty."@)
    } else if exists|i: int| 0 <= i < username.len() && !is_name_char(#[trigger] username[i]) {
        Some("Username can only contain English letters and numbers."@)
    } else if encode_utf8(username).len() > 20 {
        Some("Username cannot be longer than 20 characters."@)
    } else {
        None
    }
}

/// What the server does first with a packet of a client that is not signed in.
pub open spec fn account_request(packet: protocol::PacketView) -> AccountRequestView {
    match packet {
        protocol::PacketView::Shutdown => AccountRequestView::Close,
        protocol::PacketView::Login { username, password } => AccountRequestView::Find {
            username,
            password,
        },
        protocol::PacketView::Register { username, password } => match name_error(username) {
            Some(reason) => AccountRequestView::Refuse { reason },
            None => AccountRequestView::Create { username, password },
        },
        _ => AccountRequestView::Ignore,
    }
}

/// The user who is signed in after an outcome.
pub open spec fn signed_in(outcome: AccountOutcome) -> Option<i32> {
    match outcome {
        AccountOutcome::Found { user_id } => Some(user_id),
        AccountOutcome::Created { user_id } => Some(user_id),
        _ => None,
    }
}

/// The answer to a login or a registration.
pub open spec fn account_reply(outcome: AccountOutcome) -> protocol::ResultView {
    match outcome {
        AccountOutcome::Found { .. } => protocol::ResultView::Success("Signing in"@),
        AccountOutcome::NotFound => protocol::ResultView::Failure(
            "Username or password are incorrect."@,
        ),
        AccountOutcome::FindFailed => protocol::ResultView::Failure("Error signing in."@),
        AccountOutcome::Created { .. } => protocol::ResultView::Success("Signing in"@),
        AccountOutcome::Taken => protocol::ResultView::Failure("Username already taken."@),
        AccountOutcome::CreateFailed => protocol::ResultView::Failure("Error signing up."@),
    }
}

/// Whether a character may stand in a user's name.
pub fn is_name_character(c: char) -> (allowed: bool)
    ensures
        allowed == is_name_char(c),
{
    ('0' <= c && c <= '9') || ('A' <= c && c <= 'Z') || ('a' <= c && c <= 'z')
}

/// Why a name cannot be taken; nothing if it can.
pub fn check_name(username: &String) -> (reason: Option<String>)
    ensures
        match reason {
            Some(reason) => name_error(username@) == Some(reason@),
            None => name_error(username@) is None,
        },
{
    let text: &str = username.as_str();
    let n: usize = text.unicode_len();
    if n == 0 {
        return Some("Username cannot be empty.".to_owned());
    }
    let mut i: usize = 0;
    while i < n
        invariant
            i <= n,
            n == text@.len(),
            text@ == username@,
            n > 0,
            forall|j: int| 0 <= j < i ==> is_name_char(#[trigger] text@[j]),
        decreases n - i,
    {
        if !is_name_character(text.get_char(i)) {
            assert(!is_name_char(username@[i as int]));
            return Some("Username can only contain English letters and numbers.".to_owned());
        }
        i += 1;
    }
    if text.as_bytes().len() > 20 {
        return Some("Username cannot be longer than 20 characters.".to_owned());
    }
    None
}

/// Works out what to do first with a packet of a client that is not signed in.
pub fn login_or_register(packet: &Packet) -> (request: AccountRequest)
    ensures
        request@ == account_request(packet@),
{
    match packet {
        Packet::Shutdown => AccountRequest::Close,
        Packet::Login { username, password } => AccountRequest::Find {
            username: username.clone(),
            password: password.clone(),
        },
        Packet::Register { username, password } => match check_name(username) {
            Some(reason) => AccountRequest::Refuse { reason },
            None => AccountRequest::Create {
                username: username.clone(),
                password: password.clone(),
            },
        },
        _ => AccountRequest::Ignore,
    }
}

/// The answer to a login or a registration.
pub fn reply_to_account(outcome: AccountOutcome) -> (result: ResultPacket)
    ensures
        result@ == account_reply(outcome),
{
    match outcome {
        AccountOutcome::Found { .. } => ResultPacket::Success("Signing in".to_owned()),
        AccountOutcome::NotFound => ResultPacket::Failure(
            "Username or password are incorrect.".to_owned(),
        ),
        AccountOutcome::FindFailed => ResultPacket::Failure("Error signing in.".to_owned()),
        AccountOutcome::Created { .. } => ResultPacket::Success("Signing in".to_owned()),
        AccountOutcome::Taken => ResultPacket::Failure("Username already taken.".to_owned()),
        AccountOutcome::CreateFailed => ResultPacket::Failure("Error signing up.".to_owned()),
    }
}

/// The names that can be taken are those of 1 to 20 English letters and
/// numbers.
pub proof fn law_names(username: Seq<char>)
    ensures
        name_error(username) is None <==> (1 <= username.len() <= 20 && forall|i: int|
            0 <= i < username.len() ==> is_name_char(#[trigger] username[i])),
{
    if forall|i: int| 0 <= i < username.len() ==> is_name_char(#[trigger] username[i]) {
        assert(is_ascii_chars(username));
        is_ascii_chars_encode_utf8(username);
    }
}

/// Why a name cannot be taken: it is empty, it has a character that is neither
/// an English letter nor a digit, or, of such characters alone, it has more than
/// 20.
pub proof fn law_why_a_name_cannot_be_taken(username: Seq<char>)
    ensures
        username.len() == 0 ==> name_error(username) == Some("Username cannot be empty."@),
        forall|i: int|
            0 <= i < username.len() && !is_name_char(#[trigger] username[i]) ==> name_error(username)
                == Some("Username can only contain English letters and numbers."@),
        username.len() > 20 && (forall|i: int|
            0 <= i < username.len() ==> is_name_char(#[trigger] username[i])) ==> name_error(username)
            == Some("Username cannot be longer than 20 characters."@),
{
    if forall|i: int| 0 <= i < username.len() ==> is_name_char(#[trigger] username[i]) {
        assert(is_ascii_chars(username));
        is_ascii_chars_encode_utf8(username);
    }
}

/// The characters of names are the ten digits and the English letters, in
/// either case.
pub proof fn law_name_characters(c: char)
    ensures
        is_name_char(c) <==> 48 <= c as int <= 57 || 65 <= c as int <= 90 || 97 <= c as int <= 122,
{
}

/// A login is looked for as it was sent, whatever the name; a registration is
/// made as it was sent, if the name can be taken, and refused otherwise, with
/// the reason. Shutting down closes the channel, and nothing else does.
pub proof fn law_requests_of_a_client(
    packet: protocol::PacketView,
    username: Seq<char>,
    password: Seq<char>,
)
    ensures
        account_request(protocol::PacketView::Login { username, password }) == (
        AccountRequestView::Find { username, password }),
        name_error(username) is None ==> account_request(
            protocol::PacketView::Register { username, password },
        ) == (AccountRequestView::Create { username, password }),
        name_error(username) matches Some(why) ==> account_request(
            protocol::PacketView::Register { username, password },
        ) == (AccountRequestView::Refuse { reason: why }),
        account_request(packet) == AccountRequestView::Close <==> packet is Shutdown,
        account_request(packet) is Find <==> packet is Login,
        account_request(packet) is Create ==> packet is Register,
        account_request(packet) is Refuse ==> packet is Register,
        account_request(packet) is Ignore <==> !(packet is Shutdown || packet is Login
            || packet is Register),
{
}

/// A client is signed in, under the number of the user, exactly if the user was
/// found or made, and exactly then the answer is a success.
pub proof fn law_who_is_signed_in(outcome: AccountOutcome, user_id: i32)
    ensures
        signed_in(outcome) == Some(user_id) <==> outcome == (AccountOutcome::Found { user_id })
            || outcome == (AccountOutcome::Created { user_id }),
        signed_in(outcome) is Some <==> account_reply(outcome) is Success,
        account_reply(outcome) is Success ==> account_reply(outcome)
            == protocol::ResultView::Success("Signing in"@),
{
}

/// Each of the ways to fail is answered with words of its own.
pub proof fn law_failures_are_explained()
    ensures
        account_reply(AccountOutcome::NotFound) == protocol::ResultView::Failure(
            "Username or password are incorrect."@,
        ),
        account_reply(AccountOutcome::FindFailed) == protocol::ResultView::Failure(
            "Error signing in."@,
        ),
        account_reply(AccountOutcome::Taken) == protocol::ResultView::Failure(
            "Username already taken."@,
        ),
        account_reply(AccountOutcome::CreateFailed) == protocol::ResultView::Failure(
            "Error signing up."@,
        ),
{
}

} // verus!
