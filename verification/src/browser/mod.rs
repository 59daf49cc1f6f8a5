//! The browser: what it holds, and what becomes of it with every event.
//!
//! Nothing here draws, loads or writes: what is to be done is put in the outbox, in order, and what
//! the pointer is on is told by whoever draws.

pub mod state;
pub mod commands;
pub mod prompts;
pub mod login;
pub mod keys;
pub mod pointer;
pub mod update;
pub mod launch;
pub mod laws;
pub mod scene;
