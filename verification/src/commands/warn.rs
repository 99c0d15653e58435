//! `warn <member> <reason>`: numbering infractions and logging them.

use vstd::prelude::*;
use bson::Document;
use crate::document::{get_value_for_key, value_for_key};
use crate::text::{decimal, parse_u64, parse_u64_spec, push_decimal, push_signed_decimal, signed_decimal};

verus! {

/// The number of a new infraction: one more than the members' recorded
/// infractions (none when they could not be counted).
pub fn next_infraction_number(recorded: Option<i64>) -> (res: i64)
    requires
        recorded != Some(i64::MAX),
    ensures
        res == match recorded {
            Some(n) => n + 1,
            None => 1,
        },
{
    match recorded {
        Some(n) => n + 1,
        None => 1,
    }
}

/// The reason given, or "No reason provided.".
pub fn warn_reason(given: Option<String>) -> (res: String)
    ensures
        res@ == match given {
            Some(r) => r@,
            None => "No reason provided."@,
        },
{
    match given {
        Some(r) => r,
        None => String::from_str("No reason provided."),
    }
}

/// The name of the database of a guild's infractions.
pub fn infractions_db_name(guild_id: u64) -> (res: String)
    ensures
        res@ == decimal(guild_id as nat) + "_infractions"@,
{
    let mut n = String::new();
    push_decimal(&mut n, guild_id);
    n.append("_infractions");
    n
}

/// The line logged for a warning.
pub open spec fn warn_log_text(user_name: Seq<char>, reason: Seq<char>, number: i64) -> Seq<char> {
    "Warned "@ + user_name + " for "@ + reason + ". [Infractions: "@ + signed_decimal(number as int) + "]"@
}

/// Writes the line logged for a warning.
pub fn warn_log_line(user_name: &str, reason: &str, number: i64) -> (res: String)
    ensures
        res@ == warn_log_text(user_name@, reason@, number),
{
    let mut t = String::from_str("Warned ");
    t.append(user_name);
    t.append(" for ");
    t.append(reason);
    t.append(". [Infractions: ");
    push_signed_decimal(&mut t, number);
    t.append("]");
    t
}

/// The id stored in a guild setting: the setting read as a decimal id, 0
/// when it is missing or not a number.
pub open spec fn setting_id_spec(guild_settings: Option<Document>, key: Seq<char>) -> u64 {
    match parse_u64_spec(value_for_key(guild_settings, key, "0"@)) {
        Some(id) => id,
        None => 0,
    }
}

/// Reads an id-valued guild setting (such as the infraction log channel or
/// the staff role).
pub fn setting_id(guild_settings: &Option<Document>, key: String) -> (res: u64)
    ensures
        res == setting_id_spec(*guild_settings, key@),
{
    let v = get_value_for_key(guild_settings, key, String::from_str("0"));
    match parse_u64(v.as_str()) {
        Some(id) => id,
        None => 0,
    }
}

/// Whether an infraction log channel must be created: none is configured,
/// or the configured one could not be fetched.
pub fn needs_log_channel(log_channel: u64, channel_found: bool) -> (res: bool)
    ensures
        res == (log_channel == 0 || !channel_found),
{
    log_channel == 0 || !channel_found
}

/// A permission that a channel overwrite can grant or deny.
#[derive(Debug, Clone, Copy, PartialEq, Eq, Structural)]
pub enum ChannelPermission {
    ReadMessages,
    SendMessages,
}

/// A permission overwrite of a new channel for one role.
#[derive(Debug)]
pub struct RoleOverwrite {
    pub role_id: u64,
    pub allow: Vec<ChannelPermission>,
    pub deny: Vec<ChannelPermission>,
}

/// The overwrites of a new infraction log: when a staff role is set, staff
/// may read but not write, and everyone else (the guild's default role,
/// whose id is the guild's) may not read.
pub fn log_channel_overwrites(staff_id: u64, guild_id: u64) -> (res: Vec<RoleOverwrite>)
    ensures
        staff_id == 0 ==> res.len() == 0,
        staff_id != 0 ==> {
            &&& res.len() == 2
            &&& res[0].role_id == staff_id
            &&& res[0].allow@ == seq![ChannelPermission::ReadMessages]
            &&& res[0].deny@ == seq![ChannelPermission::SendMessages]
            &&& res[1].role_id == guild_id
            &&& res[1].allow@ == Seq::<ChannelPermission>::empty()
            &&& res[1].deny@ == seq![ChannelPermission::ReadMessages]
        },
{
    let mut res: Vec<RoleOverwrite> = Vec::new();
    if staff_id != 0 {
        res.push(
            RoleOverwrite {
                role_id: staff_id,
                allow: vec![ChannelPermission::ReadMessages],
                deny: vec![ChannelPermission::SendMessages],
            },
        );
        res.push(
            RoleOverwrite { role_id: guild_id, allow: Vec::new(), deny: vec![ChannelPermission::ReadMessages] },
        );
        assert(res[0].allow@ =~= seq![ChannelPermission::ReadMessages]);
        assert(res[0].deny@ =~= seq![ChannelPermission::SendMessages]);
        assert(res[1].deny@ =~= seq![ChannelPermission::ReadMessages]);
    }
    res
}

} // verus!
