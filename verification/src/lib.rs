//! Quiz engine: the records a quiz is stored as, the nesting of flat
//! query rows into a quiz, parsing of numeric route parameters, the
//! messages of the websocket protocol, and the two state machines that
//! drive a played quiz and a shared session.

pub mod records;
pub mod ident;
pub mod nest;
pub mod messages;
pub mod actions;
pub mod game;
pub mod flow;
