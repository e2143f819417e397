//! Session and world-state engine for a browser game client: endpoint
//! discovery from server text, the cached world snapshot, location and
//! activity selection, travel decisions and the login protocol.

pub mod actions;
pub mod cache;
pub mod character;
pub mod config;
pub mod duration;
pub mod error;
pub mod locations;
pub mod login;
pub mod models;
pub mod numbers;
pub mod obfuscation;
pub mod parser;
pub mod selection;
pub mod session;
pub mod skill;
pub mod text;
pub mod travel;
