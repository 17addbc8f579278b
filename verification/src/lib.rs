//! Sinrana: a chat protocol over length-prefixed frames, and the logic of a server and a client
//! that speak it.
//!
//! The protocol:
//!
//! - [`frame`]: length-prefixed framing over a byte stream;
//! - [`message`], [`envelope`], [`error`]: messages, the envelope that carries them, and errors.
//!
//! The server:
//!
//! - [`model`] and [`protocol`]: the state as a mathematical value, and what each request does to
//!   it;
//! - [`server`] and [`handle`]: the state as a data structure, and one connection that acts on it;
//! - [`step`] and [`db`]: what a request needs from outside before it can go on;
//! - [`auth`], [`clock`], [`cert`], [`config`]: passwords and tokens, the time, certificates and
//!   the configuration;
//! - [`web`] and [`terminal`]: the administrators' interface;
//! - [`laws`]: what holds of the server whatever it is asked.
//!
//! The client:
//!
//! - [`client`]: matching answers to requests;
//! - [`repl`]: the command line.
//!
//! [`text`] and [`names`] hold what the others have in common. The library does no input and no
//! output: sockets, files and the database are driven from outside, with plain values.

pub mod auth;
pub mod cert;
pub mod client;
pub mod clock;
pub mod commands;
pub mod config;
pub mod db;
pub mod envelope;
pub mod error;
pub mod frame;
pub mod handle;
pub mod laws;
pub mod message;
pub mod model;
pub mod names;
pub mod outcomes;
pub mod protocol;
pub mod repl;
pub mod server;
pub mod step;
pub mod terminal;
pub mod text;
pub mod web;

pub use client::Client;
pub use config::Config;
pub use envelope::{Frame, PROTOCOL_VERSION};
pub use error::{ErrorCode, ProtocolError, TransportError};
pub use frame::{FrameCodec, MAX_FRAME};
pub use handle::Handle;
pub use message::{HistoryItem, Message, Role};
pub use server::State;
