//! Verified core of TraitBot, a Discord helper bot: message moderation
//! decisions, command recognition, per-channel question history, rate
//! limiting and the texts the bot answers with.

pub mod text;
pub mod memory;
pub mod moderation;
pub mod ai;
pub mod commands;
pub mod call;
pub mod channels;
pub mod ticket;
