//! The logic of a remote desktop: the wire protocol, the encrypted channel,
//! the rules of a shared session and the state of every client scene.
//!
//! Sockets, child processes, the database and the screen stay outside; this
//! library takes plain values in and hands plain values back.

pub mod chat;
pub mod crypto;
pub mod ffmpeg;
pub mod input;
pub mod keys;
pub mod modifiers_state;
pub mod names;
pub mod protocol;
pub mod scenes;
pub mod secure_channel;
pub mod server;
pub mod text;
pub mod user_type;
pub mod users_list;
pub mod video;
pub mod wire;
