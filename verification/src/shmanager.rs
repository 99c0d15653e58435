//! ScriptingHelpers rank synchronisation: the rank ladder, which guild roles
//! a member gains or loses to match the rank, and the report sent back.

use vstd::prelude::*;
use crate::text::{join, push_signed_decimal, signed_decimal};

verus! {

/// The account that links a Discord user to a Roblox user.
#[derive(Debug)]
pub struct RobloxAccount {
    pub status: String,
    pub roblox_username: String,
    pub roblox_id: i32,
}

/// Site permissions of a ScriptingHelpers account.
#[derive(Debug)]
pub struct Permissions {
    pub admin: bool,
    pub super_admin: bool,
    pub blog_editor: bool,
    pub blog_author: bool,
    pub moderate: bool,
    pub edit_glossary: bool,
    pub community_moderator: bool,
    pub chat_admin: bool,
}

/// Activity counters of a ScriptingHelpers account.
#[derive(Debug)]
pub struct Stats {
    pub questions: i64,
    pub answers: i64,
    pub accepted_answers: i64,
    pub upvotes_received: i64,
}

/// A ScriptingHelpers profile.
#[derive(Debug)]
pub struct ShAccount {
    pub id: i32,
    pub roblox_username: String,
    pub roblox_userid: i64,
    pub roblox_age: i64,
    pub join_date: i64,
    pub reputation: i32,
    pub bio: String,
    pub is_suspended: bool,
    pub last_seen_date: i64,
    pub rank: String,
    pub is_donator: bool,
    pub permissions: Permissions,
    pub stats: Stats,
}

/// What a rank asks of an account.
#[derive(Clone, Copy, Debug)]
pub struct Rank {
    pub reputation: i64,
    pub questions_asked: i64,
    pub questions_answered: i64,
    pub accepted_answers: i64,
    pub upvotes_received: i64,
}

/// A role of the guild: its id and name.
#[derive(Debug)]
pub struct GuildRole {
    pub id: u64,
    pub name: String,
}

/// One change to a member's roles.
#[derive(Debug, Clone, Copy, PartialEq, Eq, Structural)]
pub enum RoleOp {
    Add(u64),
    Remove(u64),
}

/// The report sent to the channel once the roles are synchronised.
#[derive(Debug)]
pub enum RankReport {
    /// The member already had the role of their rank: an embed with the
    /// current rank, the next one, and the progress towards it.
    Progress { current_rank: String, next_rank: String, progress: String },
    /// The roles were changed: a plain message naming the new role.
    Updated(String),
}

/// Everything `update_member_roles` does to a member, in order.
#[derive(Debug)]
pub struct RolePlan {
    /// Role changes, in the order of the rank ladder.
    pub ops: Vec<RoleOp>,
    /// The report to send after the role changes.
    pub report: RankReport,
    /// The "Moderation Voter" role to add last, if any.
    pub moderation_voter: Option<u64>,
}

/// The rank names of ScriptingHelpers, lowest first.
pub open spec fn rank_names() -> Seq<Seq<char>> {
    seq![
        "Beginner"@,
        "Asker"@,
        "Inquisitor"@,
        "Contributor"@,
        "Researcher"@,
        "Academic"@,
        "Educator"@,
        "Professor"@,
        "Intellectual"@,
        "Scholar"@,
        "Expert"@,
        "Master"@,
    ]
}

pub open spec fn rank(rep: i64, asked: i64, answered: i64, accepted: i64, upvotes: i64) -> Rank {
    Rank {
        reputation: rep,
        questions_asked: asked,
        questions_answered: answered,
        accepted_answers: accepted,
        upvotes_received: upvotes,
    }
}

/// What each rank of `rank_names` asks, in the same order.
pub open spec fn rank_requirements() -> Seq<Rank> {
    seq![
        rank(0, 0, 0, 0, 0),
        rank(5, 1, 0, 0, 0),
        rank(15, 5, 0, 0, 0),
        rank(25, 0, 5, 0, 0),
        rank(45, 0, 10, 0, 0),
        rank(50, 0, 15, 1, 0),
        rank(75, 0, 25, 2, 10),
        rank(125, 0, 35, 3, 20),
        rank(500, 0, 50, 7, 35),
        rank(1000, 0, 100, 15, 50),
        rank(2000, 0, 150, 35, 100),
        rank(5000, 0, 300, 50, 200),
    ]
}

/// The index of the first occurrence of `x` in `s`.
pub open spec fn index_of_first(s: Seq<Seq<char>>, x: Seq<char>) -> Option<int>
    decreases s.len(),
{
    if s.len() == 0 {
        None
    } else {
        match index_of_first(s.drop_last(), x) {
            Some(i) => Some(i),
            None => if s.last() == x {
                Some(s.len() - 1)
            } else {
                None
            },
        }
    }
}

/// The index of the rank after `rank` (the one after "Beginner" when the
/// rank is unknown).
pub open spec fn next_rank_index_spec(rank: Seq<char>) -> int {
    match index_of_first(rank_names(), rank) {
        Some(i) => i + 1,
        None => 1,
    }
}

/// The id of the first guild role named `name`.
pub open spec fn find_role(roles: Seq<GuildRole>, name: Seq<char>) -> Option<u64>
    decreases roles.len(),
{
    if roles.len() == 0 {
        None
    } else if roles[0].name@ == name {
        Some(roles[0].id)
    } else {
        find_role(roles.drop_first(), name)
    }
}

/// The role changes for the ladder `names`: a role of another rank that the
/// member holds is removed; the role of the member's own rank is added when
/// the member lacks it.
pub open spec fn role_ops(names: Seq<Seq<char>>, rank: Seq<char>, roles: Seq<GuildRole>, member: Seq<u64>) -> Seq<RoleOp>
    decreases names.len(),
{
    if names.len() == 0 {
        seq![]
    } else {
        let rest = role_ops(names.drop_last(), rank, roles, member);
        let n = names.last();
        match find_role(roles, n) {
            Some(id) => if n != rank && member.contains(id) {
                rest.push(RoleOp::Remove(id))
            } else if n == rank && !member.contains(id) {
                rest.push(RoleOp::Add(id))
            } else {
                rest
            },
            None => rest,
        }
    }
}

/// Whether the member already holds the guild role of their rank.
pub open spec fn holds_rank_role(rank: Seq<char>, roles: Seq<GuildRole>, member: Seq<u64>) -> bool {
    &&& rank_names().contains(rank)
    &&& find_role(roles, rank) is Some
    &&& member.contains(find_role(roles, rank)->0)
}

/// The progress lines towards the next rank.
pub open spec fn progress_text(sh: ShAccount, next: Rank) -> Seq<char> {
    "Reputation: "@ + signed_decimal(sh.reputation as int) + "/"@ + signed_decimal(next.reputation as int)
        + "\nQuestions Asked: "@ + signed_decimal(sh.stats.questions as int) + "/"@ + signed_decimal(
        next.questions_asked as int,
    ) + "\nQuestions Answerd: "@ + signed_decimal(sh.stats.answers as int) + "/"@ + signed_decimal(
        next.questions_answered as int,
    ) + "\nAccepted Answers: "@ + signed_decimal(sh.stats.accepted_answers as int) + "/"@
        + signed_decimal(next.accepted_answers as int) + "\nUpvotes Received: "@ + signed_decimal(
        sh.stats.upvotes_received as int,
    ) + "/"@ + signed_decimal(next.upvotes_received as int)
}

/// The message sent when the member's roles changed.
pub open spec fn updated_text(sh: ShAccount) -> Seq<char> {
    "Updated roles! New Role: "@ + sh.rank@ + " [Rep: "@ + signed_decimal(sh.reputation as int) + "]"@
}


proof fn lemma_index_of_first(s: Seq<Seq<char>>, x: Seq<char>)
    ensures
        index_of_first(s, x) is Some <==> s.contains(x),
        index_of_first(s, x) is Some ==> 0 <= index_of_first(s, x)->0 < s.len() && s[index_of_first(
            s,
            x,
        )->0] == x,
    decreases s.len(),
{
    if s.len() > 0 {
        lemma_index_of_first(s.drop_last(), x);
        if s.drop_last().contains(x) {
            let j = choose|j: int| 0 <= j < s.drop_last().len() && s.drop_last()[j] == x;
            assert(s[j] == x);
        }
        if s.contains(x) && !s.drop_last().contains(x) {
            let j = choose|j: int| 0 <= j < s.len() && s[j] == x;
            if j < s.len() - 1 {
                assert(s.drop_last()[j] == x);
            }
        }
        if s.last() == x {
            assert(s[s.len() - 1] == x);
        }
    }
}

fn rank_names_vec() -> (res: Vec<String>)
    ensures
        res.deep_view() == rank_names(),
{
    let res = vec![
        String::from_str("Beginner"),
        String::from_str("Asker"),
        String::from_str("Inquisitor"),
        String::from_str("Contributor"),
        String::from_str("Researcher"),
        String::from_str("Academic"),
        String::from_str("Educator"),
        String::from_str("Professor"),
        String::from_str("Intellectual"),
        String::from_str("Scholar"),
        String::from_str("Expert"),
        String::from_str("Master"),
    ];
    assert(res.deep_view() =~= rank_names());
    res
}

fn new_rank(rep: i64, asked: i64, answered: i64, accepted: i64, upvotes: i64) -> (r: Rank)
    ensures
        r == rank(rep, asked, answered, accepted, upvotes),
{
    Rank {
        reputation: rep,
        questions_asked: asked,
        questions_answered: answered,
        accepted_answers: accepted,
        upvotes_received: upvotes,
    }
}

fn rank_table() -> (res: Vec<Rank>)
    ensures
        res@ == rank_requirements(),
{
    let res = vec![
        new_rank(0, 0, 0, 0, 0),
        new_rank(5, 1, 0, 0, 0),
        new_rank(15, 5, 0, 0, 0),
        new_rank(25, 0, 5, 0, 0),
        new_rank(45, 0, 10, 0, 0),
        new_rank(50, 0, 15, 1, 0),
        new_rank(75, 0, 25, 2, 10),
        new_rank(125, 0, 35, 3, 20),
        new_rank(500, 0, 50, 7, 35),
        new_rank(1000, 0, 100, 15, 50),
        new_rank(2000, 0, 150, 35, 100),
        new_rank(5000, 0, 300, 50, 200),
    ];
    assert(res@ =~= rank_requirements());
    res
}

fn position_of(names: &Vec<String>, x: &String) -> (res: Option<usize>)
    ensures
        res matches Some(i) ==> index_of_first(names.deep_view(), x@) == Some(i as int),
        res is None ==> index_of_first(names.deep_view(), x@) is None,
{
    let mut i: usize = 0;
    while i < names.len()
        invariant
            i <= names.len(),
            index_of_first(names.deep_view().take(i as int), x@) is None,
        decreases names.len() - i,
    {
        let ghost t = names.deep_view().take(i + 1);
        assert(t.drop_last() =~= names.deep_view().take(i as int));
        if String::eq(&names[i], x) {
            proof {
                lemma_index_of_first_prefix(names.deep_view(), x@, i + 1);
            }
            return Some(i);
        }
        i = i + 1;
    }
    assert(names.deep_view().take(names.len() as int) =~= names.deep_view());
    None
}

proof fn lemma_index_of_first_prefix(s: Seq<Seq<char>>, x: Seq<char>, k: int)
    requires
        0 <= k <= s.len(),
        index_of_first(s.take(k), x) is Some,
    ensures
        index_of_first(s, x) == index_of_first(s.take(k), x),
    decreases s.len() - k,
{
    if k < s.len() {
        assert(s.take(k + 1).drop_last() =~= s.take(k));
        lemma_index_of_first_prefix(s, x, k + 1);
    } else {
        assert(s.take(k) =~= s);
    }
}

/// The index of the rank after `rank` on the ladder, as the synchronisation
/// computes it (the rank after "Beginner" when the rank is unknown).
pub fn next_rank_index(rank: &String) -> (res: usize)
    ensures
        res == next_rank_index_spec(rank@),
{
    let names = rank_names_vec();
    match position_of(&names, rank) {
        Some(i) => {
            proof {
                lemma_index_of_first(names.deep_view(), rank@);
            }
            i + 1
        },
        None => 1,
    }
}

fn find_role_exec(roles: &Vec<GuildRole>, name: &String) -> (res: Option<u64>)
    ensures
        res == find_role(roles@, name@),
{
    let mut i: usize = 0;
    assert(roles@.skip(0) =~= roles@);
    while i < roles.len()
        invariant
            i <= roles.len(),
            find_role(roles@, name@) == find_role(roles@.skip(i as int), name@),
        decreases roles.len() - i,
    {
        assert(roles@.skip(i as int).drop_first() =~= roles@.skip(i + 1));
        assert(roles@.skip(i as int)[0] == roles@[i as int]);
        if String::eq(&roles[i].name, name) {
            return Some(roles[i].id);
        }
        i = i + 1;
    }
    None
}

fn has_role(member: &Vec<u64>, id: u64) -> (res: bool)
    ensures
        res == member@.contains(id),
{
    let mut i: usize = 0;
    while i < member.len()
        invariant
            i <= member.len(),
            forall|j: int| 0 <= j < i ==> member@[j] != id,
        decreases member.len() - i,
    {
        if member[i] == id {
            assert(member@[i as int] == id);
            return true;
        }
        i = i + 1;
    }
    false
}

fn progress_report(sh: &ShAccount, next: &Rank) -> (res: String)
    ensures
        res@ == progress_text(*sh, *next),
{
    let mut p = String::from_str("Reputation: ");
    push_signed_decimal(&mut p, sh.reputation as i64);
    p.append("/");
    push_signed_decimal(&mut p, next.reputation);
    p.append("\nQuestions Asked: ");
    push_signed_decimal(&mut p, sh.stats.questions);
    p.append("/");
    push_signed_decimal(&mut p, next.questions_asked);
    p.append("\nQuestions Answerd: ");
    push_signed_decimal(&mut p, sh.stats.answers);
    p.append("/");
    push_signed_decimal(&mut p, next.questions_answered);
    p.append("\nAccepted Answers: ");
    push_signed_decimal(&mut p, sh.stats.accepted_answers);
    p.append("/");
    push_signed_decimal(&mut p, next.accepted_answers);
    p.append("\nUpvotes Received: ");
    push_signed_decimal(&mut p, sh.stats.upvotes_received);
    p.append("/");
    push_signed_decimal(&mut p, next.upvotes_received);
    p
}

fn updated_report(sh: &ShAccount) -> (res: String)
    ensures
        res@ == updated_text(*sh),
{
    let mut t = String::from_str("Updated roles! New Role: ");
    t.append(sh.rank.as_str());
    t.append(" [Rep: ");
    push_signed_decimal(&mut t, sh.reputation as i64);
    t.append("]");
    t
}

/// Synchronises a member's guild roles with their ScriptingHelpers rank:
/// the role changes, the report, and the "Moderation Voter" role for
/// accounts that may moderate. The next rank must exist (the ladder has
/// none after "Master").
pub fn update_member_roles(sh: &ShAccount, guild_roles: &Vec<GuildRole>, member_roles: &Vec<u64>) -> (plan: RolePlan)
    requires
        next_rank_index_spec(sh.rank@) < rank_names().len(),
    ensures
        plan.ops@ == role_ops(rank_names(), sh.rank@, guild_roles@, member_roles@),
        holds_rank_role(sh.rank@, guild_roles@, member_roles@) <==> plan.report is Progress,
        plan.report matches RankReport::Progress { current_rank, next_rank, progress } ==> {
            &&& current_rank@ == sh.rank@
            &&& next_rank@ == rank_names()[next_rank_index_spec(sh.rank@)]
            &&& progress@ == progress_text(*sh, rank_requirements()[next_rank_index_spec(sh.rank@)])
        },
        plan.report matches RankReport::Updated(t) ==> t@ == updated_text(*sh),
        plan.moderation_voter == (match find_role(guild_roles@, "Moderation Voter"@) {
            Some(id) => if sh.permissions.moderate && !member_roles@.contains(id) {
                Some(id)
            } else {
                None
            },
            None => None,
        }),
{
    let names = rank_names_vec();
    let table = rank_table();
    let next = next_rank_index(&sh.rank);
    let next_name = names[next].clone();
    let next_rank = table[next];

    let mut ops: Vec<RoleOp> = Vec::new();
    let mut i: usize = 0;
    while i < names.len()
        invariant
            names.deep_view() == rank_names(),
            i <= names.len(),
            ops@ == role_ops(rank_names().take(i as int), sh.rank@, guild_roles@, member_roles@),
        decreases names.len() - i,
    {
        assert(rank_names().take(i + 1).drop_last() =~= rank_names().take(i as int));
        assert(rank_names().take(i + 1).last() == names.deep_view()[i as int]);
        let n = &names[i];
        match find_role_exec(guild_roles, n) {
            Some(id) => {
                let is_rank = String::eq(n, &sh.rank);
                let held = has_role(member_roles, id);
                if !is_rank && held {
                    ops.push(RoleOp::Remove(id));
                } else if is_rank && !held {
                    ops.push(RoleOp::Add(id));
                }
            },
            None => {},
        }
        i = i + 1;
    }
    assert(rank_names().take(names.len() as int) =~= rank_names());

    let in_ladder = position_of(&names, &sh.rank).is_some();
    proof {
        lemma_index_of_first(names.deep_view(), sh.rank@);
    }
    let current = in_ladder && match find_role_exec(guild_roles, &sh.rank) {
        Some(id) => has_role(member_roles, id),
        None => false,
    };

    let report = if current {
        RankReport::Progress {
            current_rank: sh.rank.clone(),
            next_rank: next_name,
            progress: progress_report(sh, &next_rank),
        }
    } else {
        RankReport::Updated(updated_report(sh))
    };

    let moderation_voter = match find_role_exec(guild_roles, &String::from_str("Moderation Voter")) {
        Some(id) => if sh.permissions.moderate && !has_role(member_roles, id) {
            Some(id)
        } else {
            None
        },
        None => None,
    };

    RolePlan { ops, report, moderation_voter }
}


/// The member's roles after the role changes `ops`, in order.
pub open spec fn apply_role_ops(member: Set<u64>, ops: Seq<RoleOp>) -> Set<u64>
    decreases ops.len(),
{
    if ops.len() == 0 {
        member
    } else {
        let before = apply_role_ops(member, ops.drop_last());
        match ops.last() {
            RoleOp::Add(id) => before.insert(id),
            RoleOp::Remove(id) => before.remove(id),
        }
    }
}

/// No two guild roles share an id.
pub open spec fn unique_role_ids(roles: Seq<GuildRole>) -> bool {
    forall|i: int, j: int| 0 <= i < roles.len() && 0 <= j < roles.len() && #[trigger] roles[i].id == #[trigger] roles[j].id ==> i == j
}

proof fn lemma_find_role(roles: Seq<GuildRole>, name: Seq<char>)
    ensures
        find_role(roles, name) matches Some(id) ==> exists|k: int| 0 <= k < roles.len() && #[trigger] roles[k].id == id && roles[k].name@ == name,
    decreases roles.len(),
{
    if roles.len() > 0 {
        lemma_find_role(roles.drop_first(), name);
        if roles[0].name@ == name {
            assert(roles[0].id == roles[0].id);
        } else if find_role(roles, name) is Some {
            let k = choose|k: int| 0 <= k < roles.drop_first().len() && #[trigger] roles.drop_first()[k].id == find_role(roles, name)->0 && roles.drop_first()[k].name@ == name;
            assert(roles[k + 1] == roles.drop_first()[k]);
        }
    }
}

proof fn lemma_same_role(roles: Seq<GuildRole>, a: Seq<char>, b: Seq<char>)
    requires
        unique_role_ids(roles),
        find_role(roles, a) is Some,
        find_role(roles, b) is Some,
        find_role(roles, a)->0 == find_role(roles, b)->0,
    ensures
        a == b,
{
    lemma_find_role(roles, a);
    lemma_find_role(roles, b);
    let ka = choose|k: int| 0 <= k < roles.len() && #[trigger] roles[k].id == find_role(roles, a)->0 && roles[k].name@ == a;
    let kb = choose|k: int| 0 <= k < roles.len() && #[trigger] roles[k].id == find_role(roles, b)->0 && roles[k].name@ == b;
    assert(roles[ka].id == roles[kb].id);
}

proof fn lemma_role_ops_effect(names: Seq<Seq<char>>, rank: Seq<char>, roles: Seq<GuildRole>, member: Seq<u64>)
    requires
        unique_role_ids(roles),
    ensures
        forall|i: int| #![trigger names[i]]
            0 <= i < names.len() && find_role(roles, names[i]) is Some ==> (apply_role_ops(
                member.to_set(),
                role_ops(names, rank, roles, member),
            ).contains(find_role(roles, names[i])->0) <==> names[i] == rank),
        forall|id: u64|
            (forall|i: int| 0 <= i < names.len() ==> find_role(roles, #[trigger] names[i]) != Some(id))
                ==> (#[trigger] apply_role_ops(member.to_set(), role_ops(names, rank, roles, member)).contains(id)
                <==> member.contains(id)),
    decreases names.len(),
{
    if names.len() > 0 {
        let init = names.drop_last();
        let n = names.last();
        lemma_role_ops_effect(init, rank, roles, member);
        let rest = role_ops(init, rank, roles, member);
        let ops = role_ops(names, rank, roles, member);
        let before = apply_role_ops(member.to_set(), rest);
        let after = apply_role_ops(member.to_set(), ops);
        if ops.len() > rest.len() {
            assert(ops.drop_last() =~= rest);
        }
        assert forall|i: int| #![trigger names[i]]
            0 <= i < names.len() && find_role(roles, names[i]) is Some implies (after.contains(
                find_role(roles, names[i])->0,
            ) <==> names[i] == rank) by {
            let id = find_role(roles, names[i])->0;
            if i < names.len() - 1 {
                assert(init[i] == names[i]);
                match find_role(roles, n) {
                    Some(idn) => {
                        if idn == id {
                            lemma_same_role(roles, n, names[i]);
                        }
                    },
                    None => {},
                }
            } else {
                assert(names[i] == n);
                if !(n != rank && member.contains(id)) && !(n == rank && !member.contains(id)) {
                    // no change for n: its membership stays as in `before`
                    if exists|j: int| 0 <= j < init.len() && find_role(roles, #[trigger] init[j]) == Some(id) {
                        let j = choose|j: int| 0 <= j < init.len() && find_role(roles, #[trigger] init[j]) == Some(id);
                        lemma_same_role(roles, init[j], n);
                    } else {
                        assert(before.contains(id) <==> member.contains(id));
                        assert(member.to_set().contains(id) <==> member.contains(id));
                    }
                }
            }
        }
        assert forall|id: u64|
            (forall|i: int| 0 <= i < names.len() ==> find_role(roles, #[trigger] names[i]) != Some(id))
                implies (after.contains(id) <==> member.contains(id)) by {
            assert forall|i: int| 0 <= i < init.len() implies find_role(roles, #[trigger] init[i]) != Some(id) by {
                assert(init[i] == names[i]);
            }
            assert(find_role(roles, names[names.len() - 1]) != Some(id));
        }
    }
}

/// Rank synchronisation leaves the member holding, among the guild roles
/// named after ranks, exactly the role of their own rank; every other role
/// is left as it was.
pub proof fn lemma_sync_keeps_only_rank_role(rank: Seq<char>, roles: Seq<GuildRole>, member: Seq<u64>)
    requires
        unique_role_ids(roles),
    ensures
        forall|i: int| #![trigger rank_names()[i]]
            0 <= i < rank_names().len() && find_role(roles, rank_names()[i]) is Some ==> (apply_role_ops(
                member.to_set(),
                role_ops(rank_names(), rank, roles, member),
            ).contains(find_role(roles, rank_names()[i])->0) <==> rank_names()[i] == rank),
        forall|id: u64|
            (forall|i: int| 0 <= i < rank_names().len() ==> find_role(roles, #[trigger] rank_names()[i]) != Some(id))
                ==> (#[trigger] apply_role_ops(member.to_set(), role_ops(rank_names(), rank, roles, member)).contains(id)
                <==> member.contains(id)),
{
    lemma_role_ops_effect(rank_names(), rank, roles, member);
}


/// The line naming a member's Roblox account: `name [id]`, or a notice that
/// there is none.
pub open spec fn roblox_name_text(acc: Option<RobloxAccount>) -> Seq<char> {
    match acc {
        Some(r) => r.roblox_username@ + " ["@ + signed_decimal(r.roblox_id as int) + "]"@,
        None => "No associated roblox account."@,
    }
}

/// Names the Roblox account linked to a Discord user, from the account that
/// the lookup found, if any.
pub fn get_roblox_name(roblox_acc: &Option<RobloxAccount>) -> (res: String)
    ensures
        res@ == roblox_name_text(*roblox_acc),
{
    match roblox_acc {
        Some(r) => {
            let mut t = r.roblox_username.clone();
            t.append(" [");
            push_signed_decimal(&mut t, r.roblox_id as i64);
            t.append("]");
            t
        },
        None => String::from_str("No associated roblox account."),
    }
}

/// Where the Roblox account linked to a Discord user is looked up.
pub fn roblox_account_url(discord_id: &str) -> (res: String)
    ensures
        res@ == "https://verify.eryn.io/api/user/"@ + discord_id@,
{
    let mut u = String::from_str("https://verify.eryn.io/api/user/");
    u.append(discord_id);
    u
}

/// Where the ScriptingHelpers profile of a Roblox user is looked up.
pub fn sh_profile_url(roblox_id: i32) -> (res: String)
    ensures
        res@ == "https://scriptinghelpers.org/resources/get_profile_by_roblox_id/"@ + signed_decimal(
            roblox_id as int,
        ),
{
    let mut u = String::from_str("https://scriptinghelpers.org/resources/get_profile_by_roblox_id/");
    push_signed_decimal(&mut u, roblox_id as i64);
    u
}


/// One progress line: a label, the account's counter, `/`, and what the next
/// rank asks of that counter.
pub open spec fn progress_line(label: Seq<char>, have: int, need: int) -> Seq<char> {
    label + signed_decimal(have) + "/"@ + signed_decimal(need)
}

/// The progress report has one line per counter, in a fixed order, and each
/// line pairs the account's counter with the same-named requirement of the
/// next rank: reputation with reputation, questions with questions asked,
/// answers with questions answered, accepted answers with accepted answers,
/// upvotes with upvotes received.
pub proof fn lemma_progress_pairs_counters(sh: ShAccount, next: Rank)
    ensures
        progress_text(sh, next) == join(
            seq![
                progress_line("Reputation: "@, sh.reputation as int, next.reputation as int),
                progress_line("Questions Asked: "@, sh.stats.questions as int, next.questions_asked as int),
                progress_line("Questions Answerd: "@, sh.stats.answers as int, next.questions_answered as int),
                progress_line(
                    "Accepted Answers: "@,
                    sh.stats.accepted_answers as int,
                    next.accepted_answers as int,
                ),
                progress_line(
                    "Upvotes Received: "@,
                    sh.stats.upvotes_received as int,
                    next.upvotes_received as int,
                ),
            ],
            "\n"@,
        ),
{
    let lines = seq![
        progress_line("Reputation: "@, sh.reputation as int, next.reputation as int),
        progress_line("Questions Asked: "@, sh.stats.questions as int, next.questions_asked as int),
        progress_line("Questions Answerd: "@, sh.stats.answers as int, next.questions_answered as int),
        progress_line("Accepted Answers: "@, sh.stats.accepted_answers as int, next.accepted_answers as int),
        progress_line("Upvotes Received: "@, sh.stats.upvotes_received as int, next.upvotes_received as int),
    ];
    lemma_join_five(lines, "\n"@);
    lemma_line_breaks();
    let nl = "\n"@;
    let p1 = "Reputation: "@ + signed_decimal(sh.reputation as int) + "/"@ + signed_decimal(next.reputation as int);
    let p2 = p1 + "\nQuestions Asked: "@ + signed_decimal(sh.stats.questions as int) + "/"@ + signed_decimal(
        next.questions_asked as int,
    );
    let p3 = p2 + "\nQuestions Answerd: "@ + signed_decimal(sh.stats.answers as int) + "/"@ + signed_decimal(
        next.questions_answered as int,
    );
    let p4 = p3 + "\nAccepted Answers: "@ + signed_decimal(sh.stats.accepted_answers as int) + "/"@
        + signed_decimal(next.accepted_answers as int);
    let p5 = p4 + "\nUpvotes Received: "@ + signed_decimal(sh.stats.upvotes_received as int) + "/"@
        + signed_decimal(next.upvotes_received as int);
    assert(progress_text(sh, next) == p5);
    assert(p1 == lines[0]);
    assert(p2 =~= p1 + nl + lines[1]);
    assert(p3 =~= p2 + nl + lines[2]);
    assert(p4 =~= p3 + nl + lines[3]);
    assert(p5 =~= p4 + nl + lines[4]);
    assert(join(lines, nl) =~= p5);
}

proof fn lemma_join_five(l: Seq<Seq<char>>, sep: Seq<char>)
    requires
        l.len() == 5,
    ensures
        join(l, sep) == l[0] + sep + l[1] + sep + l[2] + sep + l[3] + sep + l[4],
{
    assert(l.take(1) =~= seq![l[0]]);
    assert(l.take(2).drop_last() =~= l.take(1));
    assert(l.take(3).drop_last() =~= l.take(2));
    assert(l.take(4).drop_last() =~= l.take(3));
    assert(l.drop_last() =~= l.take(4));
    assert(join(l.take(1), sep) == l[0]);
    assert(join(l.take(2), sep) == join(l.take(1), sep) + sep + l[1]);
    assert(join(l.take(3), sep) == join(l.take(2), sep) + sep + l[2]);
    assert(join(l.take(4), sep) == join(l.take(3), sep) + sep + l[3]);
    assert(join(l, sep) == join(l.take(4), sep) + sep + l[4]);
}

proof fn lemma_line_breaks()
    ensures
        "\nQuestions Asked: "@ == "\n"@ + "Questions Asked: "@,
        "\nQuestions Answerd: "@ == "\n"@ + "Questions Answerd: "@,
        "\nAccepted Answers: "@ == "\n"@ + "Accepted Answers: "@,
        "\nUpvotes Received: "@ == "\n"@ + "Upvotes Received: "@,
{
    assert("\nQuestions Asked: "@ =~= "\n"@ + "Questions Asked: "@) by {
        reveal_strlit("\n");
        reveal_strlit("\nQuestions Asked: ");
        reveal_strlit("Questions Asked: ");
    }
    assert("\nQuestions Answerd: "@ =~= "\n"@ + "Questions Answerd: "@) by {
        reveal_strlit("\n");
        reveal_strlit("\nQuestions Answerd: ");
        reveal_strlit("Questions Answerd: ");
    }
    assert("\nAccepted Answers: "@ =~= "\n"@ + "Accepted Answers: "@) by {
        reveal_strlit("\n");
        reveal_strlit("\nAccepted Answers: ");
        reveal_strlit("Accepted Answers: ");
    }
    assert("\nUpvotes Received: "@ =~= "\n"@ + "Upvotes Received: "@) by {
        reveal_strlit("\n");
        reveal_strlit("\nUpvotes Received: ");
        reveal_strlit("Upvotes Received: ");
    }
}

} // verus!
