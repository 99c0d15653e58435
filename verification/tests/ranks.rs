use tinyguardian::shmanager::{
    get_roblox_name, next_rank_index, roblox_account_url, sh_profile_url, update_member_roles, GuildRole,
    Permissions, RankReport, RobloxAccount, RoleOp, ShAccount, Stats,
};

fn account(rank: &str, reputation: i32, moderate: bool) -> ShAccount {
    ShAccount {
        id: 1,
        roblox_username: "builder".to_string(),
        roblox_userid: 77,
        roblox_age: 100,
        join_date: 0,
        reputation,
        bio: String::new(),
        is_suspended: false,
        last_seen_date: 0,
        rank: rank.to_string(),
        is_donator: false,
        permissions: Permissions {
            admin: false,
            super_admin: false,
            blog_editor: false,
            blog_author: false,
            moderate,
            edit_glossary: false,
            community_moderator: false,
            chat_admin: false,
        },
        stats: Stats { questions: 3, answers: 4, accepted_answers: 1, upvotes_received: 2 },
    }
}

fn roles() -> Vec<GuildRole> {
    vec![
        GuildRole { id: 1, name: "Beginner".to_string() },
        GuildRole { id: 2, name: "Asker".to_string() },
        GuildRole { id: 3, name: "Inquisitor".to_string() },
        GuildRole { id: 9, name: "Moderation Voter".to_string() },
        GuildRole { id: 10, name: "Other".to_string() },
    ]
}

#[test]
fn next_rank() {
    assert_eq!(next_rank_index(&"Beginner".to_string()), 1);
    assert_eq!(next_rank_index(&"Asker".to_string()), 2);
    assert_eq!(next_rank_index(&"Expert".to_string()), 11);
    assert_eq!(next_rank_index(&"Master".to_string()), 12);
    assert_eq!(next_rank_index(&"Nobody".to_string()), 1);
}

#[test]
fn promotion_changes_roles() {
    let plan = update_member_roles(&account("Asker", 7, true), &roles(), &vec![1, 10]);
    assert_eq!(plan.ops, vec![RoleOp::Remove(1), RoleOp::Add(2)]);
    match plan.report {
        RankReport::Updated(t) => assert_eq!(t, "Updated roles! New Role: Asker [Rep: 7]"),
        other => panic!("unexpected {:?}", other),
    }
    assert_eq!(plan.moderation_voter, Some(9));
}

#[test]
fn current_rank_reports_progress() {
    let plan = update_member_roles(&account("Asker", 12, false), &roles(), &vec![2, 3, 9]);
    assert_eq!(plan.ops, vec![RoleOp::Remove(3)]);
    match plan.report {
        RankReport::Progress { current_rank, next_rank, progress } => {
            assert_eq!(current_rank, "Asker");
            assert_eq!(next_rank, "Inquisitor");
            assert_eq!(
                progress,
                "Reputation: 12/15\nQuestions Asked: 3/5\nQuestions Answerd: 4/0\nAccepted Answers: 1/0\nUpvotes Received: 2/0"
            );
        },
        other => panic!("unexpected {:?}", other),
    }
    assert_eq!(plan.moderation_voter, None);
}

#[test]
fn moderator_already_voter() {
    let plan = update_member_roles(&account("Inquisitor", 20, true), &roles(), &vec![9]);
    assert_eq!(plan.ops, vec![RoleOp::Add(3)]);
    assert_eq!(plan.moderation_voter, None);
}

#[test]
fn unknown_rank_removes_ladder_roles() {
    let plan = update_member_roles(&account("Staff", -3, false), &roles(), &vec![1, 2, 3, 10]);
    assert_eq!(plan.ops, vec![RoleOp::Remove(1), RoleOp::Remove(2), RoleOp::Remove(3)]);
    match plan.report {
        RankReport::Updated(t) => assert_eq!(t, "Updated roles! New Role: Staff [Rep: -3]"),
        other => panic!("unexpected {:?}", other),
    }
}

#[test]
fn applying_plan_leaves_only_rank_role() {
    let mut member: Vec<u64> = vec![1, 3, 10];
    let plan = update_member_roles(&account("Asker", 5, false), &roles(), &member);
    for op in plan.ops {
        match op {
            RoleOp::Add(id) => member.push(id),
            RoleOp::Remove(id) => member.retain(|r| *r != id),
        }
    }
    member.sort();
    assert_eq!(member, vec![2, 10]);
}

#[test]
fn roblox_names() {
    let acc = RobloxAccount { status: "ok".to_string(), roblox_username: "Builderman".to_string(), roblox_id: 156 };
    assert_eq!(get_roblox_name(&Some(acc)), "Builderman [156]");
    assert_eq!(get_roblox_name(&None), "No associated roblox account.");
}

#[test]
fn lookup_urls() {
    assert_eq!(roblox_account_url("123"), "https://verify.eryn.io/api/user/123");
    assert_eq!(sh_profile_url(-4), "https://scriptinghelpers.org/resources/get_profile_by_roblox_id/-4");
    assert_eq!(sh_profile_url(156), "https://scriptinghelpers.org/resources/get_profile_by_roblox_id/156");
}
