//! Moderation of games of Werewolf: phases, timers, ballots and the routing
//! of what the players submit.

pub mod commands;
pub mod game;
pub mod laws;
pub mod messages;
pub mod names;
pub mod registry;
pub mod rules;
pub mod vote;
