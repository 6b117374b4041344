//! A message is a topic and a set of key/value parameters, both text, with a
//! line-oriented byte encoding.
//!
//! The crate holds the message value and the rules around it: which strings
//! are topics, how parameters are added and read back, and which bytes a
//! message is encoded to. It does not send or receive anything.
//!
//! Keys and values are taken as they are and nothing in the encoding is
//! escaped; `framing` says which messages can be told from their bytes all
//! the same.
//!
//! Everything here is verified but for two things, which are taken on trust
//! and kept apart: what Unicode says of a character (`validators`), and what
//! the buffer of the `bytes` crate does when it is written to (`buffer`).

pub mod buffer;
pub mod convert;
pub mod decimal;
pub mod err;
pub mod framing;
pub mod message;
pub mod model;
pub mod text;
pub mod validators;
pub mod wire;

pub use convert::{ParamInt, ParamText};
pub use err::Error;
pub use message::Msg;
pub use validators::validate_topic;
