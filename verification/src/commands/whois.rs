//! `whois`: what the bot knows of a guild member.

use vstd::prelude::*;
use crate::commands::codeblock::args_text;
use crate::embed::{block_field, fields_view, Embed, EmbedField};
use crate::text::{decimal, push_decimal};
use crate::util::{display_name, MemberInfo};

verus! {

/// The options of `whois`: `-c` shows the current names, `-a` the name
/// history; any other argument is the query (the last one counts).
#[derive(Debug)]
pub struct WhoisArgs {
    pub display_current: bool,
    pub display_history: bool,
    pub user_query: String,
}

/// The `(display_current, display_history, user_query)` after reading
/// `args`.
pub open spec fn whois_state(args: Seq<Seq<char>>) -> (bool, bool, Seq<char>)
    decreases args.len(),
{
    if args.len() == 0 {
        (false, false, Seq::<char>::empty())
    } else {
        let (current, history, query) = whois_state(args.drop_last());
        let a = args.last();
        if a.len() == 0 {
            (current, history, query)
        } else if a == "-a"@ {
            (current, true, query)
        } else if a == "-c"@ {
            (true, history, query)
        } else {
            (current, history, a)
        }
    }
}

/// Reads the options and the query of `whois`.
pub fn whois_args(args: &Vec<Option<String>>) -> (res: WhoisArgs)
    ensures
        whois_state(args_text(args@)) == (res.display_current, res.display_history, res.user_query@),
{
    let mut current = false;
    let mut history = false;
    let mut query = String::new();
    let mut i: usize = 0;
    while i < args.len()
        invariant
            i <= args.len(),
            whois_state(args_text(args@).take(i as int)) == (current, history, query@),
        decreases args.len() - i,
    {
        let ghost t = args_text(args@);
        assert(t.take(i + 1).drop_last() =~= t.take(i as int));
        let arg: String = match &args[i] {
            Some(a) => a.clone(),
            None => String::new(),
        };
        assert(t.take(i + 1).last() == arg@);
        if !arg.as_str().is_empty() {
            if String::eq(&arg, &String::from_str("-a")) {
                history = true;
            } else if String::eq(&arg, &String::from_str("-c")) {
                current = true;
            } else {
                query = arg;
            }
        }
        i = i + 1;
    }
    assert(args_text(args@).take(args.len() as int) =~= args_text(args@));
    WhoisArgs { display_current: current, display_history: history, user_query: query }
}

/// The fields of the `whois` embed.
pub open spec fn whois_fields(
    args: WhoisArgs,
    member: MemberInfo,
    roblox_name: Seq<char>,
    past_usernames: Seq<char>,
    past_nicknames: Seq<char>,
) -> Seq<(Seq<char>, Seq<char>, bool)> {
    let current = if args.display_current {
        seq![
            ("Current Username"@, member.username@ + "#"@ + decimal(member.discriminator as nat), false),
            ("Current Nickname"@, display_name(member), false),
        ]
    } else {
        seq![]
    };
    let history = if args.display_history {
        seq![("Past Usernames"@, past_usernames, false), ("Past Nicknames"@, past_nicknames, false)]
    } else {
        seq![]
    };
    current + seq![("Roblox Account"@, roblox_name, false)] + history
}

/// The `whois` embed for a member that was found.
pub fn whois_embed(
    args: &WhoisArgs,
    member: &MemberInfo,
    roblox_name: String,
    past_usernames: String,
    past_nicknames: String,
) -> (e: Embed)
    ensures
        e.title@ == "Information for "@ + args.user_query@,
        e.description is None,
        fields_view(e.fields@) == whois_fields(*args, *member, roblox_name@, past_usernames@, past_nicknames@),
{
    let ghost rn = roblox_name@;
    let ghost pu = past_usernames@;
    let ghost pn = past_nicknames@;
    let mut fields: Vec<EmbedField> = Vec::new();
    if args.display_current {
        let mut name = member.username.clone();
        name.append("#");
        push_decimal(&mut name, member.discriminator as u64);
        fields.push(block_field(String::from_str("Current Username"), name));
        let nick = match &member.nick {
            Some(n) => n.clone(),
            None => member.username.clone(),
        };
        fields.push(block_field(String::from_str("Current Nickname"), nick));
    }
    fields.push(block_field(String::from_str("Roblox Account"), roblox_name));
    if args.display_history {
        fields.push(block_field(String::from_str("Past Usernames"), past_usernames));
        fields.push(block_field(String::from_str("Past Nicknames"), past_nicknames));
    }
    let mut title = String::from_str("Information for ");
    title.append(args.user_query.as_str());
    let e = Embed { title, description: None, fields };
    assert(fields_view(e.fields@) =~= whois_fields(*args, *member, rn, pu, pn));
    e
}


/// The plain reply of `whois` when there is no member to describe: no member
/// matches the query, or the matching member could not be fetched; `None`
/// when the member was found.
pub fn whois_reply(target_id: u64, member_found: bool) -> (res: Option<String>)
    ensures
        target_id == 0 ==> (res matches Some(t) && t@ == "No members were found with the provided query."@),
        target_id != 0 && !member_found ==> (res matches Some(t) && t@ == "Failed member lookup."@),
        target_id != 0 && member_found ==> res is None,
{
    if target_id == 0 {
        Some(String::from_str("No members were found with the provided query."))
    } else if !member_found {
        Some(String::from_str("Failed member lookup."))
    } else {
        None
    }
}


/// Reading one more argument of `whois`: `-a` asks for the name history,
/// `-c` for the current names, any other non-empty word becomes the query
/// (the last one wins), and an empty argument changes nothing.
pub proof fn lemma_whois_argument(args: Seq<Seq<char>>, a: Seq<char>)
    ensures
        ({
            let (c, h, q) = whois_state(args);
            let (c2, h2, q2) = whois_state(args.push(a));
            &&& a.len() == 0 ==> (c2, h2, q2) == (c, h, q)
            &&& a == "-a"@ ==> (c2, h2, q2) == (c, true, q)
            &&& a == "-c"@ ==> (c2, h2, q2) == (true, h, q)
            &&& a.len() > 0 && a != "-a"@ && a != "-c"@ ==> (c2, h2, q2) == (c, h, a)
        }),
{
    reveal_strlit("-a");
    reveal_strlit("-c");
    assert(args.push(a).drop_last() =~= args);
    if a == "-a"@ {
        assert(a.len() > 0);
    }
    if a == "-c"@ {
        assert(a.len() > 0);
        assert(a != "-a"@) by {
            assert(a[1] != "-a"@[1]);
        }
    }
}

/// With `-c` the embed starts with the member's current names: the username
/// with its discriminator, then the nickname when one is set (else the
/// username); the Roblox account always follows them, or leads without
/// `-c`.
pub proof fn lemma_whois_current_names(
    args: WhoisArgs,
    member: MemberInfo,
    roblox_name: Seq<char>,
    past_usernames: Seq<char>,
    past_nicknames: Seq<char>,
)
    ensures
        ({
            let f = whois_fields(args, member, roblox_name, past_usernames, past_nicknames);
            &&& args.display_current ==> {
                &&& f[0] == ("Current Username"@, member.username@ + "#"@ + decimal(member.discriminator as nat), false)
                &&& f[1] == (
                    "Current Nickname"@,
                    match member.nick {
                        Some(n) => n@,
                        None => member.username@,
                    },
                    false,
                )
                &&& f[2] == ("Roblox Account"@, roblox_name, false)
            }
            &&& !args.display_current ==> f[0] == ("Roblox Account"@, roblox_name, false)
            &&& f.len() == (if args.display_current { 2int } else { 0 }) + 1 + (if args.display_history { 2int } else { 0 })
        }),
{
}

} // verus!
