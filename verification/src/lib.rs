//! A small turn-based secure channel: Diffie-Hellman key agreement over a
//! byte stream, a keystream cipher seeded by the agreed secret, and
//! length-prefixed frames of ciphertext.
//!
//! The library performs no I/O: the session is a state machine that names the
//! next transport or terminal operation and is told its outcome.

pub mod cipher;
pub mod frame;
pub mod keys;
pub mod keystream;
pub mod modular;
pub mod pairing;
pub mod session;
pub mod text;
pub mod wire;
