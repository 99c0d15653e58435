//! Decisions taken on gateway events: ordinary messages, start-up, and the
//! guild-bound commands.

use vstd::prelude::*;
use crate::text::{push_signed_decimal, signed_decimal, starts_with};

verus! {

/// The showcase channel, where only messages with attachments may stay.
pub const SHOWCASE_CHANNEL: u64 = 689686353021370376;

/// The guild whose members `verify` synchronises with ScriptingHelpers.
pub const SCRIPTING_HELPERS_GUILD: u64 = 165202235226062848;

/// The bot's own support guild, where `support` is not offered.
pub const SUPPORT_GUILD: u64 = 546033322401464320;

pub const MAJOR: i64 = 1;
pub const MINOR: i64 = 1;
pub const PATCH: i64 = 21;

/// What to do with an ordinary message.
#[derive(Debug)]
pub struct MessageActions {
    /// Delete it: a message without attachments in the showcase channel,
    /// from someone who is not staff.
    pub delete: bool,
    /// Run the ScriptingHelpers verification for its author.
    pub verify: bool,
}

/// Decides what to do with an ordinary message; messages of bots are left
/// alone.
pub fn normal_message(
    author_is_bot: bool,
    author_is_staff: bool,
    channel_id: u64,
    attachment_count: usize,
    content: &str,
) -> (res: MessageActions)
    ensures
        res.delete == (!author_is_bot && !author_is_staff && channel_id == SHOWCASE_CHANNEL && attachment_count
            == 0),
        res.verify == (!author_is_bot && "!verify"@.is_prefix_of(content@)),
{
    if author_is_bot {
        return MessageActions { delete: false, verify: false };
    }
    let delete = !author_is_staff && channel_id == SHOWCASE_CHANNEL && attachment_count < 1;
    let verify = starts_with(content, "!verify");
    MessageActions { delete, verify }
}

/// Whether `verify` applies in the guild.
pub fn verify_applies(guild_id: u64) -> (res: bool)
    ensures
        res == (guild_id == SCRIPTING_HELPERS_GUILD),
{
    guild_id == SCRIPTING_HELPERS_GUILD
}

/// Whether `support` may be used in the guild: anywhere but the support
/// guild itself.
pub fn not_guild_check(guild_id: u64) -> (res: bool)
    ensures
        res == (guild_id != SUPPORT_GUILD),
{
    guild_id != SUPPORT_GUILD
}

/// The version shown as the bot's activity: `major.minor.patch`.
pub fn version_string() -> (res: String)
    ensures
        res@ == signed_decimal(MAJOR as int) + "."@ + signed_decimal(MINOR as int) + "."@ + signed_decimal(
            PATCH as int,
        ),
{
    let mut v = String::new();
    push_signed_decimal(&mut v, MAJOR);
    v.append(".");
    push_signed_decimal(&mut v, MINOR);
    v.append(".");
    push_signed_decimal(&mut v, PATCH);
    v
}

} // verus!
