//! Who counts as staff, and which guild member a free-form query names.

use vstd::prelude::*;
use bson::Document;
use crate::document::{get_value_for_key, value_for_key};
use crate::text::{decimal, lemma_parse_decimal, parse_u64, parse_u64_spec, push_decimal, remove_char, u64_to_decimal, without_char};

verus! {

/// Whether a message author is staff: the message comes from a guild, its
/// author is a member there, and one of the member's role ids, written in
/// decimal, equals the guild's `staff_id` setting (empty when unset).
pub open spec fn is_staff_spec(guild_id: Option<u64>, guild_settings: Option<Document>, member_roles: Option<Seq<u64>>) -> bool {
    &&& guild_id.is_some()
    &&& member_roles.is_some()
    &&& exists|i: int|
        0 <= i < member_roles.unwrap().len() && decimal(#[trigger] member_roles.unwrap()[i] as nat)
            == value_for_key(guild_settings, "staff_id"@, ""@)
}

/// The role ids of an optional member.
pub open spec fn roles_view(roles: Option<Vec<u64>>) -> Option<Seq<u64>> {
    match roles {
        Some(r) => Some(r@),
        None => None,
    }
}

/// Decides whether the author of a message is staff, from the guild the
/// message came from, that guild's settings document and the author's
/// member roles.
pub fn is_staff(guild_id: Option<u64>, guild_settings: &Option<Document>, member_roles: &Option<Vec<u64>>) -> (res: bool)
    ensures
        res == is_staff_spec(guild_id, *guild_settings, roles_view(*member_roles)),
{
    if guild_id.is_none() {
        return false;
    }
    let staff_id = get_value_for_key(guild_settings, String::from_str("staff_id"), String::from_str(""));
    match member_roles {
        None => false,
        Some(roles) => {
            let mut pass = false;
            let mut i: usize = 0;
            while i < roles.len()
                invariant
                    i <= roles.len(),
                    staff_id@ == value_for_key(*guild_settings, "staff_id"@, ""@),
                    pass == exists|j: int| 0 <= j < i && decimal(#[trigger] roles@[j] as nat) == staff_id@,
                decreases roles.len() - i,
            {
                if !pass {
                    let r = u64_to_decimal(roles[i]);
                    pass = String::eq(&r, &staff_id);
                }
                i = i + 1;
            }
            proof {
                let rs = roles_view(*member_roles).unwrap();
                assert(rs == roles@);
                if pass {
                    let j = choose|j: int| 0 <= j < i && decimal(#[trigger] roles@[j] as nat) == staff_id@;
                    assert(decimal(rs[j] as nat) == staff_id@);
                }
            }
            pass
        },
    }
}

/// A guild member as the query lookup sees it.
#[derive(Debug)]
pub struct MemberInfo {
    pub id: u64,
    pub username: String,
    pub discriminator: u16,
    pub nick: Option<String>,
}

/// The member's nickname in the guild, or the username when there is none.
pub open spec fn display_name(m: MemberInfo) -> Seq<char> {
    match m.nick {
        Some(n) => n@,
        None => m.username@,
    }
}

/// `name#discriminator`.
pub open spec fn distinct_name(m: MemberInfo) -> Seq<char> {
    m.username@ + "#"@ + decimal(m.discriminator as nat)
}

/// The mention of a user: `<@id>`.
pub open spec fn mention(id: u64) -> Seq<char> {
    "<@"@ + decimal(id as nat) + ">"@
}

/// Whether `query` names the member: by display name, username,
/// `name#discriminator`, or a mention (with any `!` removed from the query).
pub open spec fn member_matches(m: MemberInfo, query: Seq<char>) -> bool {
    ||| display_name(m) == query
    ||| m.username@ == query
    ||| distinct_name(m) == query
    ||| mention(m.id) == without_char(query, '!')
}

/// The id of the first member that `query` names, or 0 when none does.
pub open spec fn first_match(members: Seq<MemberInfo>, query: Seq<char>) -> u64
    decreases members.len(),
{
    if members.len() == 0 {
        0
    } else if member_matches(members[0], query) {
        members[0].id
    } else {
        first_match(members.drop_first(), query)
    }
}

/// The user id that a query names: the query itself when it is a decimal
/// id, else the first matching member's id, else 0.
pub open spec fn user_id_from_query(query: Seq<char>, members: Seq<MemberInfo>) -> u64 {
    match parse_u64_spec(query) {
        Some(id) => id,
        None => first_match(members, query),
    }
}

/// Whether `query` names the member; `possible_mention` is the query with
/// every `!` removed. Members are tried one at a time, in the guild's order.
pub fn query_names_member(m: &MemberInfo, query: &String, possible_mention: &String) -> (res: bool)
    requires
        possible_mention@ == without_char(query@, '!'),
    ensures
        res == member_matches(*m, query@),
{
    let display: &String = match &m.nick {
        Some(n) => n,
        None => &m.username,
    };
    if String::eq(display, query) {
        return true;
    }
    if String::eq(&m.username, query) {
        return true;
    }
    let mut distinct = m.username.clone();
    distinct.append("#");
    push_decimal(&mut distinct, m.discriminator as u64);
    if String::eq(&distinct, query) {
        return true;
    }
    let mut tag = String::from_str("<@");
    push_decimal(&mut tag, m.id);
    tag.append(">");
    String::eq(&tag, possible_mention)
}

/// Resolves a query to a user id: a decimal id is taken as it is; otherwise
/// the guild's members are searched in order for one the query names.
/// Returns 0 when nothing matches.
pub fn get_user_id_from_query(query: &String, members: &Vec<MemberInfo>) -> (res: u64)
    ensures
        res == user_id_from_query(query@, members@),
{
    match parse_u64(query.as_str()) {
        Some(id) => id,
        None => {
            let possible_mention = remove_char(query.as_str(), '!');
            let mut i: usize = 0;
            assert(members@.skip(0) =~= members@);
            while i < members.len()
                invariant
                    i <= members.len(),
                    possible_mention@ == without_char(query@, '!'),
                    parse_u64_spec(query@).is_none(),
                    first_match(members@, query@) == first_match(members@.skip(i as int), query@),
                decreases members.len() - i,
            {
                assert(members@.skip(i as int).drop_first() =~= members@.skip(i + 1));
                assert(members@.skip(i as int)[0] == members@[i as int]);
                if query_names_member(&members[i], query, &possible_mention) {
                    assert(member_matches(members@.skip(i as int)[0], query@));
                    assert(first_match(members@.skip(i as int), query@) == members@[i as int].id);
                    return members[i].id;
                }
                i = i + 1;
            }
            0
        },
    }
}


/// A query that is a user id written in decimal names that user, whoever
/// the guild's members are.
pub proof fn lemma_id_query_resolves(id: u64, members: Seq<MemberInfo>)
    ensures
        user_id_from_query(decimal(id as nat), members) == id,
{
    lemma_parse_decimal(id);
}


/// A member is staff as soon as any one of their roles, wherever it stands
/// among them (first, last or in between), is the guild's staff role; and
/// only then, and only in a guild.
pub proof fn lemma_staff_role_anywhere(
    guild_id: Option<u64>,
    guild_settings: Option<Document>,
    roles: Seq<u64>,
)
    ensures
        forall|i: int|
            0 <= i < roles.len() && guild_id.is_some() && decimal(#[trigger] roles[i] as nat) == value_for_key(
                guild_settings,
                "staff_id"@,
                ""@,
            ) ==> is_staff_spec(guild_id, guild_settings, Some(roles)),
        is_staff_spec(guild_id, guild_settings, Some(roles)) ==> guild_id.is_some() && exists|i: int|
            0 <= i < roles.len() && decimal(#[trigger] roles[i] as nat) == value_for_key(
                guild_settings,
                "staff_id"@,
                ""@,
            ),
        !is_staff_spec(guild_id, guild_settings, None),
{
    assert forall|i: int|
        0 <= i < roles.len() && guild_id.is_some() && decimal(#[trigger] roles[i] as nat) == value_for_key(
            guild_settings,
            "staff_id"@,
            ""@,
        ) implies is_staff_spec(guild_id, guild_settings, Some(roles)) by {
        assert(Some(roles).unwrap()[i] == roles[i]);
    }
}

} // verus!
