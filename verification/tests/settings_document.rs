use bson::{Bson, Document};
use tinyguardian::document::{contains_key, doc_contains_key, get_value_for_key, guild_prefix, validate};

fn settings(pairs: &[(&str, Bson)]) -> Document {
    let mut d = Document::new();
    for (k, v) in pairs {
        d.insert(k.to_string(), v.clone());
    }
    d
}

#[test]
fn string_value_is_read() {
    let d = Some(settings(&[("staff_id", Bson::String("42".into()))]));
    assert_eq!(get_value_for_key(&d, "staff_id".into(), "".into()), "42");
}

#[test]
fn fallback_when_missing_or_not_string() {
    let d = Some(settings(&[("count", Bson::Int32(3))]));
    assert_eq!(get_value_for_key(&d, "count".into(), "none".into()), "none");
    assert_eq!(get_value_for_key(&d, "other".into(), "dflt".into()), "dflt");
    assert_eq!(get_value_for_key(&None, "other".into(), "dflt".into()), "dflt");
}

#[test]
fn key_presence() {
    let d = settings(&[("count", Bson::Int32(3)), ("prefix", Bson::String("!".into()))]);
    assert!(doc_contains_key(&d, "count"));
    assert!(!doc_contains_key(&d, "missing"));
    let some = Some(d);
    assert!(contains_key(&some, &"prefix".to_string()));
    assert!(!contains_key(&some, &"staff_id".to_string()));
    assert!(!contains_key(&None, &"prefix".to_string()));
}

fn all_defaults() -> Vec<(String, String)> {
    vec![
        ("active_welcome", "false"),
        ("assign_new_member", "false"),
        ("welcome_message", "Welcome!"),
        ("new_member_role", "0"),
        ("prefix", "tg!"),
        ("staff_id", "0"),
    ]
    .into_iter()
    .map(|(k, v)| (k.to_string(), v.to_string()))
    .collect()
}

#[test]
fn validate_creates_missing_document() {
    let plan = validate(&None);
    assert!(plan.create);
    assert_eq!(plan.defaults, all_defaults());
}

#[test]
fn validate_fills_only_missing_defaults() {
    let d = Some(settings(&[
        ("_id", Bson::String("1".into())),
        ("prefix", Bson::String("!".into())),
        ("staff_id", Bson::String("99".into())),
    ]));
    let plan = validate(&d);
    assert!(!plan.create);
    let expected: Vec<(String, String)> = all_defaults().into_iter().take(4).collect();
    assert_eq!(plan.defaults, expected);
}

#[test]
fn validate_after_applying_plan_has_every_default() {
    let mut d = settings(&[("welcome_message", Bson::String("Hi".into()))]);
    let plan = validate(&Some(d.clone()));
    for (k, v) in &plan.defaults {
        d.insert(k.clone(), v.clone());
    }
    for (k, _) in all_defaults() {
        assert!(doc_contains_key(&d, &k));
    }
    let again = Some(d);
    assert_eq!(get_value_for_key(&again, "welcome_message".into(), "".into()), "Hi");
    assert!(validate(&again).defaults.is_empty());
}

#[test]
fn read_after_set() {
    let mut d = settings(&[("prefix", Bson::String("tg!".into()))]);
    d.insert("prefix", "?");
    assert_eq!(get_value_for_key(&Some(d), "prefix".into(), "x".into()), "?");
}

#[test]
fn validate_twice_plans_nothing() {
    let mut created = settings(&[("_id", Bson::String("7".into()))]);
    for (k, v) in validate(&None).defaults {
        created.insert(k, v);
    }
    let again = validate(&Some(created));
    assert!(!again.create);
    assert!(again.defaults.is_empty());
}

#[test]
fn prefixes_per_guild() {
    assert_eq!(guild_prefix(&None), "tg!");
    assert_eq!(guild_prefix(&Some(settings(&[("prefix", Bson::String("!".into()))]))), "!");
    assert_eq!(guild_prefix(&Some(settings(&[("staff_id", Bson::String("1".into()))]))), "tg!");
}
