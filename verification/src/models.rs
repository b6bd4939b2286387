//! Plain data types of the platform's public surface.
//!
//! Request, response and enumeration types that the surrounding
//! application exchanges with its callers. They carry no behaviour of
//! their own here — the process edge decodes into them and encodes out
//! of them — but the library owns their shape so that contracts and
//! tests can speak of concrete values. Identifiers are 128-bit integers,
//! the form the core's registers use throughout.

pub mod comment;
pub mod community;
pub mod media;
pub mod notification;
pub mod post;
pub mod search;
pub mod user;
pub mod vote;
