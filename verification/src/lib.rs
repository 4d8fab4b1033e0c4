//! The logic of a Twitch chat bot: chat commands, answers to mentions, the broadcaster's
//! console and its features, and what the bot makes of the web services' answers.

pub mod unicode;
pub mod text;
pub mod emotes;
pub mod config;
pub mod features;
pub mod editor;
pub mod commands;
pub mod json;
pub mod twitch;
pub mod bot;
pub mod console;
