//! Decision logic of the TinyGuardian Discord bot: guild settings stored in
//! BSON documents, staff checks, member lookup by query, ScriptingHelpers rank
//! synchronisation and the text that the commands answer with.

pub mod text;
pub mod document;
pub mod util;
pub mod shmanager;
pub mod embed;
pub mod commands;
pub mod events;
