//! A launcher library for classic first-person-shooter games: it keeps a
//! catalog of game and source-port records, knows the command-line
//! conventions of a fixed set of game engines, and assembles the full
//! argument vector for launching a game with its enabled data files.

pub mod api;
pub mod codec;
pub mod files;
pub mod launch;
pub mod paths;
pub mod ports;
pub mod records;
pub mod sessions;
pub mod text;
