//! Vote validation and reputation keeping for a community chat bot that
//! rewards popular posts.
//!
//! Users submit memes through the bot, other members vote on them with two
//! emoji, and every vote moves the score that the author has in the
//! community by one. The parts, leaves first:
//!
//! - [`codec`] writes the author of a submission into the text of the bot's
//!   message and reads it back out of any text;
//! - [`vote`] decides whether a reaction is a vote and what it is worth;
//! - [`datastore`] keeps the scores;
//! - [`handler`] takes each event through the three of them, and answers the
//!   commands of the bot.

pub mod codec;
pub mod configuration;
pub mod datastore;
pub mod decimal;
pub mod handler;
pub mod util;
pub mod vote;
