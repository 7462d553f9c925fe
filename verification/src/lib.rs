//! Core logic of the OpenCode desktop shell: configuration, session state,
//! command decisions and terminal bookkeeping, with their contracts.

pub mod assoc;
pub mod commands;
pub mod config;
pub mod desktop;
pub mod state;
pub mod terminal;
pub mod text;
