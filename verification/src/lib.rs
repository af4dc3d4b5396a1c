//! Client side of a QR-code web login: the parsers for the server's replies
//! and the state machine that interprets them.

pub mod error;
pub mod fields;
pub mod laws;
pub mod outside;
pub mod request;
pub mod session;
pub mod text;
pub mod util;

pub use crate::error::LoginError;
pub use crate::fields::FieldMap;
pub use crate::session::Client;
