//! What the bot's commands decide and answer, apart from the Discord calls.

pub mod codeblock;
pub mod whois;
pub mod clear;
pub mod search;
pub mod lua;
pub mod warn;
pub mod settings;
pub mod notes;
