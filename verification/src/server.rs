//! The server: sessions, the packets of hosts and participants, accounts and
//! recordings.

pub mod client;
pub mod host;
pub mod login;
pub mod participant;
pub mod session;
pub mod watch;
