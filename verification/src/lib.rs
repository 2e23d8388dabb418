//! Verified core of the Plantita Ayudante Discord bot: the decisions the bot
//! takes on messages, reactions, buttons and configuration, over plain values.
//! The Discord gateway, the database and the other services stay outside.

pub mod text;
pub mod links;
pub mod moderation;
pub mod ranking;
pub mod config;
pub mod buttons;
pub mod messages;
pub mod reactions;
pub mod sanctions;
pub mod twitter;
pub mod screenshot;
pub mod translate;
