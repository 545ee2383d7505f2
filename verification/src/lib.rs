//! Moderation engine for timed group games of Werewolf, with the language
//! helpers and message parsers that it uses.

pub mod commands;
pub mod discord;
pub mod emoji;
pub mod ipc;
pub mod lang;
pub mod lists;
pub mod parse;
pub mod text;
pub mod twitch;
pub mod user_list;
pub mod voice;
pub mod werewolf;
