//! Core logic of a game-queue chat bot.
//!
//! The library covers the queue session workflow: a short sequence of
//! ephemeral prompts (wait duration, roles to mention), a public countdown
//! announcement that is edited in place as the session advances, and a
//! toggle-based roster of users waiting for the next game.  The session is
//! modelled as an explicit state machine (`session`); the text of every
//! public message is pinned down character by character (`render`).
//!
//! Transport (the chat platform client, timers, configuration files) stays
//! outside: a driver feeds events into the state machine and performs the
//! actions it returns.

pub mod directory;
pub mod numfmt;
pub mod prompts;
pub mod reaction;
pub mod render;
pub mod roster;
pub mod session;
pub mod settings;
pub mod voice;
