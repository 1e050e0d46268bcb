//! A relay for messages that destroy themselves: each message is sealed under
//! a secret key, stored under a fresh identifier, and handed out at most as
//! many times as its view quota allows.
//!
//! - `hex`: the text form of bytes.
//! - `cipher`: sealing and unsealing of payloads.
//! - `storage`: the table of messages and the rule by which a take consumes
//!   a view.
//! - `relay`: the two put together, from plaintext in to plaintext out.
//! - `address`: the URL under which a stored message is fetched.

pub mod address;
pub mod cipher;
pub mod hex;
pub mod relay;
pub mod storage;
