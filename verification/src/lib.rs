//! Mimicrypt: the secure core of a serverless end-to-end encrypted messenger
//! that uses e-mail as its transport.
//!
//! Identifiers (message, session, device and invite ids) are the 16 bytes of
//! a UUID. Instants are whole seconds since the Unix epoch, in UTC; the
//! protocol header carries its timestamp as calendar parts.
pub mod spec_types;
pub mod text;
pub mod primitives;
pub mod crypto;
pub mod bootstrap;
pub mod ratchet;
pub mod wire;
pub mod envelope;
pub mod reliability;
pub mod mail_transport;
pub mod storage;
pub mod app_services;
