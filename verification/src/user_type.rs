//! The role of a user in a session.

use vstd::prelude::*;

verus! {

/// The role or type of a user within a session.
#[derive(Clone, Copy, PartialEq, Eq, Structural, Debug)]
pub enum UserType {
    /// The user is leaving the session.
    Leaving,
    /// The user hosts the session.
    Host,
    /// The user controls the host's desktop.
    Controller,
    /// The user watches the session without control.
    Participant,
}

/// The byte that stands for a role on the wire.
pub open spec fn user_type_byte(user_type: UserType) -> u8 {
    match user_type {
        UserType::Leaving => 0,
        UserType::Host => 1,
        UserType::Controller => 2,
        UserType::Participant => 3,
    }
}

/// The role that a byte stands for, if it stands for one.
pub open spec fn user_type_of_byte(byte: u8) -> Option<UserType> {
    if byte == 0 {
        Some(UserType::Leaving)
    } else if byte == 1 {
        Some(UserType::Host)
    } else if byte == 2 {
        Some(UserType::Controller)
    } else if byte == 3 {
        Some(UserType::Participant)
    } else {
        None
    }
}

/// The English name of a role.
pub open spec fn user_type_name(user_type: UserType) -> Seq<char> {
    match user_type {
        UserType::Host => "Host"@,
        UserType::Controller => "Controller"@,
        UserType::Participant => "Participant"@,
        UserType::Leaving => "Leaving"@,
    }
}

impl UserType {
    /// The byte that stands for this role on the wire.
    pub fn to_byte(self) -> (byte: u8)
        ensures
            byte == user_type_byte(self),
    {
        match self {
            UserType::Leaving => 0,
            UserType::Host => 1,
            UserType::Controller => 2,
            UserType::Participant => 3,
        }
    }

    /// The role that a byte stands for, if it stands for one.
    pub fn from_byte(byte: u8) -> (user_type: Option<UserType>)
        ensures
            user_type == user_type_of_byte(byte),
    {
        match byte {
            0 => Some(UserType::Leaving),
            1 => Some(UserType::Host),
            2 => Some(UserType::Controller),
            3 => Some(UserType::Participant),
            _ => None,
        }
    }

    /// The name under which this role is shown to users.
    pub fn to_text(&self) -> (name: String)
        ensures
            name@ == user_type_name(*self),
    {
        match self {
            UserType::Host => "Host".to_owned(),
            UserType::Controller => "Controller".to_owned(),
            UserType::Participant => "Participant".to_owned(),
            UserType::Leaving => "Leaving".to_owned(),
        }
    }
}

/// A role is read back from its own byte.
pub broadcast proof fn law_user_type_byte_round_trip(user_type: UserType)
    ensures
        user_type_of_byte(#[trigger] user_type_byte(user_type)) == Some(user_type),
{
}

/// The bytes of the roles are the numbers from 0 to 3, from the role of those
/// who leave to the role of those who watch; a byte stands for the role whose
/// byte it is, and other bytes stand for none.
pub proof fn law_bytes_of_roles(byte: u8, user_type: UserType)
    ensures
        user_type_byte(UserType::Leaving) == 0,
        user_type_byte(UserType::Host) == 1,
        user_type_byte(UserType::Controller) == 2,
        user_type_byte(UserType::Participant) == 3,
        user_type_of_byte(byte) == Some(user_type) <==> byte == user_type_byte(user_type),
        user_type_of_byte(byte) is None <==> byte > 3,
{
}

/// Each role is shown under its own name.
pub proof fn law_names_of_roles()
    ensures
        user_type_name(UserType::Host) == "Host"@,
        user_type_name(UserType::Controller) == "Controller"@,
        user_type_name(UserType::Participant) == "Participant"@,
        user_type_name(UserType::Leaving) == "Leaving"@,
{
}

} // verus!
