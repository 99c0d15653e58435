use bson::{Bson, Document};
use tinyguardian::util::{get_user_id_from_query, is_staff, query_names_member, MemberInfo};

fn member(id: u64, name: &str, discriminator: u16, nick: Option<&str>) -> MemberInfo {
    MemberInfo { id, username: name.to_string(), discriminator, nick: nick.map(|n| n.to_string()) }
}

fn guild_settings(staff: &str) -> Option<Document> {
    let mut d = Document::new();
    d.insert("staff_id", Bson::String(staff.to_string()));
    Some(d)
}

#[test]
fn staff_by_role() {
    let s = guild_settings("555");
    assert!(is_staff(Some(1), &s, &Some(vec![3, 555, 7])));
    assert!(!is_staff(Some(1), &s, &Some(vec![3, 7])));
    assert!(!is_staff(None, &s, &Some(vec![555])));
    assert!(!is_staff(Some(1), &s, &None));
}

#[test]
fn no_staff_when_unset() {
    assert!(!is_staff(Some(1), &None, &Some(vec![0, 1])));
    assert!(!is_staff(Some(1), &guild_settings("0555"), &Some(vec![555])));
}

fn members() -> Vec<MemberInfo> {
    vec![
        member(11, "alice", 1234, Some("Al")),
        member(22, "bob", 7, None),
        member(33, "carol", 42, Some("bob")),
    ]
}

#[test]
fn query_by_id() {
    assert_eq!(get_user_id_from_query(&"98765".to_string(), &members()), 98765);
    assert_eq!(get_user_id_from_query(&"+5".to_string(), &members()), 5);
}

#[test]
fn query_by_names() {
    let ms = members();
    assert_eq!(get_user_id_from_query(&"Al".to_string(), &ms), 11);
    assert_eq!(get_user_id_from_query(&"alice".to_string(), &ms), 11);
    assert_eq!(get_user_id_from_query(&"alice#1234".to_string(), &ms), 11);
    assert_eq!(get_user_id_from_query(&"bob".to_string(), &ms), 22);
    assert_eq!(get_user_id_from_query(&"carol#42".to_string(), &ms), 33);
}

#[test]
fn query_by_mention() {
    let ms = members();
    assert_eq!(get_user_id_from_query(&"<@33>".to_string(), &ms), 33);
    assert_eq!(get_user_id_from_query(&"<@!22>".to_string(), &ms), 22);
}

#[test]
fn query_without_match() {
    assert_eq!(get_user_id_from_query(&"nobody".to_string(), &members()), 0);
    assert_eq!(get_user_id_from_query(&"".to_string(), &members()), 0);
    assert_eq!(get_user_id_from_query(&"alice#0".to_string(), &members()), 0);
}

#[test]
fn one_member_at_a_time() {
    let m = member(22, "bob", 7, Some("Bobby"));
    let q = "<@!22>".to_string();
    assert!(query_names_member(&m, &q, &"<@22>".to_string()));
    assert!(query_names_member(&m, &"Bobby".to_string(), &"Bobby".to_string()));
    assert!(query_names_member(&m, &"bob#7".to_string(), &"bob#7".to_string()));
    assert!(!query_names_member(&m, &"bobby".to_string(), &"bobby".to_string()));
}
