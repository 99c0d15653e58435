//! `set` and `holdlast`: changing guild settings.

use vstd::prelude::*;
use crate::text::{decimal, push_decimal};

verus! {

/// Whether `set` creates a setting that does not exist yet: only the staff
/// role and the prefix may be created; other settings must already exist.
pub fn set_upserts(setting: &String) -> (res: bool)
    ensures
        res == (setting@ == "staff_id"@ || setting@ == "prefix"@),
{
    String::eq(setting, &String::from_str("staff_id")) || String::eq(setting, &String::from_str("prefix"))
}

/// The reaction acknowledging a settings change: a check mark when a
/// document was modified, a warning sign otherwise.
pub fn outcome_reaction(modified_count: i64) -> (res: String)
    ensures
        res@ == if modified_count > 0 { "\u{2705}"@ } else { "\u{26A0}"@ },
{
    if modified_count > 0 {
        String::from_str("\u{2705}")
    } else {
        String::from_str("\u{26A0}")
    }
}

/// The settings key under which `holdlast` keeps a channel's message.
pub fn holdlast_key(channel_id: u64) -> (res: String)
    ensures
        res@ == "holdlast_"@ + decimal(channel_id as nat),
{
    let mut k = String::from_str("holdlast_");
    push_decimal(&mut k, channel_id);
    k
}

/// Whether `holdlast` is asked to stop holding the channel's message.
pub fn holdlast_disables(message: &String) -> (res: bool)
    ensures
        res == (message@ == "disable"@),
{
    String::eq(message, &String::from_str("disable"))
}

} // verus!
