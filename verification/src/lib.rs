//! Verified core of a Nexus Mods manager.
//!
//! - `game_profile`: the built-in game presets.
//! - `paths`: where the manager keeps its files, and file-name parsing.
//! - `profiles`: per-game snapshots of which mods are enabled.
//! - `saves`: save slots and their backups.
//! - `game`: launching the game, following its process, reading its logs.
//! - `crash`: what a game log says about a crash.
//! - `download`, `events`, `child_output`, `headless`: the download flow,
//!   its progress events, and the child process that runs it headless.
//! - `translate`: the translation engines and their answers.
//! - `setup`, `migration`, `shell`: start-up guards, carrying data over
//!   from older versions, and what the "open" buttons open.
//! - `cli_text`: the human-readable output of the command-line tool.
//! - `calendar`, `text`: dates, timestamps and text with exact meanings.
//! - `json`: what a JSON text holds at a JSON pointer.

pub mod text;
pub mod json;
pub mod headless;
pub mod game_profile;
pub mod calendar;
pub mod events;
pub mod crash;
pub mod paths;
pub mod game;
pub mod saves;
pub mod translate;
pub mod profiles;
pub mod setup;
pub mod download;
pub mod migration;
pub mod cli_text;
pub mod child_output;
pub mod shell;
