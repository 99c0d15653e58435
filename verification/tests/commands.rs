use tinyguardian::commands::clear::{clear_fetch_limit, clear_selection, ChannelMessage};
use tinyguardian::commands::codeblock::codeblock;
use tinyguardian::commands::lua::{
    can_clip, clip, error_line, eval_embed, eval_status, instruction_time_exceeded, print_line, run_report,
    sandbox_globals, sandbox_os_functions,
};
use tinyguardian::commands::notes::{append_note, note_action, NoteAction};
use tinyguardian::commands::search::{
    decode_wiki_reply, jsonp_payload, search_location_supported, wiki_embed, wiki_reply_fields, wiki_results,
    wiki_search_url, WikiPage,
};
use tinyguardian::commands::settings::{holdlast_disables, holdlast_key, outcome_reaction, set_upserts};
use tinyguardian::commands::warn::{
    infractions_db_name, log_channel_overwrites, needs_log_channel, next_infraction_number, setting_id,
    warn_log_line, warn_reason, ChannelPermission,
};
use tinyguardian::commands::whois::{whois_args, whois_embed, whois_reply};
use tinyguardian::events::{normal_message, not_guild_check, verify_applies, version_string};
use tinyguardian::util::MemberInfo;

fn args(v: &[&str]) -> Vec<Option<String>> {
    v.iter().map(|s| Some(s.to_string())).collect()
}

#[test]
fn codeblock_example_without_args() {
    let e = codeblock("ann", &vec![]);
    assert_eq!(e.title, "Codeblock Example");
    assert_eq!(e.description.as_deref(), Some("This is how to properly codeblock."));
    assert_eq!(e.fields.len(), 2);
    assert!(e.fields[0].value.contains("`\u{200B}``"));
}

#[test]
fn codeblock_with_language_and_fences() {
    let e = codeblock("ann", &args(&["-l", "python", "```lua", "print(1)", "`x`", "", "```"]));
    assert_eq!(e.title, "Codeblock for ann");
    assert_eq!(e.fields.len(), 1);
    assert_eq!(e.fields[0].name, "SRC");
    assert_eq!(e.fields[0].value, "```python\n  print(1) x \n```");
    assert!(!e.fields[0].inline);
}

#[test]
fn codeblock_default_lua() {
    let e = codeblock("b", &vec![Some("a".to_string()), None, Some("b".to_string())]);
    assert_eq!(e.fields[0].value, "```lua\n a b\n```");
}

#[test]
fn whois_options() {
    let a = whois_args(&args(&["-a", "someone", "-c"]));
    assert!(a.display_history && a.display_current);
    assert_eq!(a.user_query, "someone");
    let m = MemberInfo { id: 5, username: "sam".into(), discriminator: 12, nick: None };
    let e = whois_embed(&a, &m, "R [1]".into(), "old".into(), "older".into());
    assert_eq!(e.title, "Information for someone");
    let names: Vec<&str> = e.fields.iter().map(|f| f.name.as_str()).collect();
    assert_eq!(names, vec!["Current Username", "Current Nickname", "Roblox Account", "Past Usernames", "Past Nicknames"]);
    assert_eq!(e.fields[0].value, "sam#12");
    assert_eq!(e.fields[1].value, "sam");
    let plain = whois_args(&args(&["x"]));
    let e2 = whois_embed(&plain, &m, "none".into(), "a".into(), "b".into());
    assert_eq!(e2.fields.len(), 1);
    assert_eq!(e2.fields[0].value, "none");
}

fn msgs() -> Vec<ChannelMessage> {
    vec![
        ChannelMessage { id: 1, author_id: 7 },
        ChannelMessage { id: 2, author_id: 8 },
        ChannelMessage { id: 3, author_id: 7 },
        ChannelMessage { id: 4, author_id: 7 },
    ]
}

#[test]
fn clear_all_or_by_member() {
    assert_eq!(clear_fetch_limit(10, None), 10);
    assert_eq!(clear_fetch_limit(10, Some(7)), 25);
    assert_eq!(clear_selection(3, None, &msgs()), vec![1, 2, 3, 4]);
    assert_eq!(clear_selection(2, Some(7), &msgs()), vec![1, 3]);
    assert_eq!(clear_selection(9, Some(7), &msgs()), vec![1, 3, 4]);
    assert_eq!(clear_selection(0, Some(7), &msgs()), Vec::<u64>::new());
    assert_eq!(clear_selection(5, Some(9), &msgs()), Vec::<u64>::new());
}

#[test]
fn search_locations() {
    assert!(search_location_supported("WIKI"));
    assert!(search_location_supported("Roblox"));
    assert!(search_location_supported("wiki"));
    assert!(!search_location_supported("google"));
}

#[test]
fn search_request_and_reply() {
    let url = wiki_search_url("part");
    assert!(url.starts_with("https://api.swiftype.com/api/v1/public/engines/search.json?callback=jQuery33107513732778347277_1562848671664&q=part&engine_key="));
    let body = format!("{}{}{}", "/**/jQuery33107513732778347277_1562848671664(", "{\"a\":1}", ")");
    assert_eq!(body.find('{'), Some(45));
    assert_eq!(jsonp_payload(&body), "{\"a\":1}");
    let long_body = format!("\"{}\"", "x".repeat(120));
    let pages = vec![
        WikiPage { url: "\"https://w/p\"".into(), title: "\"Part\"".into(), body: "\"short\"".into() },
        WikiPage { url: "\"u2\"".into(), title: "\"T2\"".into(), body: long_body.clone() },
    ];
    let r = wiki_results(2, &pages);
    assert_eq!(r.len(), 2);
    assert_eq!(r[0].name, "[Part]");
    assert_eq!(r[0].value, "\"short\"... \n[Visit page](https://w/p)\n");
    assert_eq!(r[1].value, format!("{}... \n[Visit page](u2)\n", &long_body[1..100]));
    assert_eq!(wiki_results(0, &pages).len(), 0);
    let e = wiki_embed("part", "nick", r);
    assert_eq!(e.title, "Roblox result for part");
    assert_eq!(e.description.as_deref(), Some("Searched by nick"));
}

#[test]
fn lua_sandbox_and_reports() {
    assert_eq!(sandbox_os_functions(), vec!["execute", "exit", "getenv", "remove", "rename", "setlocale", "tmpname"]);
    assert_eq!(sandbox_globals(), vec!["io", "debug", "dofile", "load", "collectgarbage", "require", "loadfile", "package"]);
    assert!(!instruction_time_exceeded(30, 0));
    assert!(instruction_time_exceeded(30, 1));
    assert!(instruction_time_exceeded(31, 0));
    assert!(!instruction_time_exceeded(2, 999));
    assert_eq!(print_line(&vec!["1".into(), "nil".into()]), "[out]: 1 nil");
    assert_eq!(error_line(&vec!["bad".into()]), "[err]: bad");
    assert_eq!(eval_status(None), "No errors.");
    assert_eq!(eval_status(Some("boom".into())), "boom");
    let (out, err) = run_report(Ok((vec![], vec![], "No errors.".into())));
    assert_eq!(out, "No output\n");
    assert_eq!(err, "No errors.");
    let (out2, _) = run_report(Ok((vec!["[out]: a".into(), "[out]: b".into()], vec!["[err]: c".into()], "x".into())));
    assert_eq!(out2, "[out]: a\n[out]: b\n[err]: c");
    let (out3, err3) = run_report(Err("failed".into()));
    assert_eq!(out3, "\n");
    assert_eq!(err3, "failed");
    let long = "y".repeat(2000);
    assert!(can_clip(&long));
    assert_eq!(clip(&long), long[1..1500].to_string());
    assert_eq!(clip("short"), "short");
    let e = eval_embed("ann", "o".into(), "e".into());
    assert_eq!(e.title, "Code Eval for ann");
    assert_eq!(e.fields[0].name, "Eval");
    assert_eq!(e.fields[1].value, "e");
}

#[test]
fn lua_clip_needs_boundaries() {
    let s = format!("é{}", "z".repeat(1600));
    assert!(!can_clip(&s));
}

#[test]
fn warn_pieces() {
    assert_eq!(next_infraction_number(Some(3)), 4);
    assert_eq!(next_infraction_number(None), 1);
    assert_eq!(warn_reason(None), "No reason provided.");
    assert_eq!(warn_reason(Some("spam".into())), "spam");
    assert_eq!(infractions_db_name(42), "42_infractions");
    assert_eq!(warn_log_line("bob", "spam", 3), "Warned bob for spam. [Infractions: 3]");
    let mut d = bson::Document::new();
    d.insert("infraction_log_channel", "123");
    d.insert("staff_id", "abc");
    let s = Some(d);
    assert_eq!(setting_id(&s, "infraction_log_channel".into()), 123);
    assert_eq!(setting_id(&s, "staff_id".into()), 0);
    assert_eq!(setting_id(&s, "missing".into()), 0);
    assert_eq!(setting_id(&None, "staff_id".into()), 0);
    assert!(needs_log_channel(0, true));
    assert!(needs_log_channel(5, false));
    assert!(!needs_log_channel(5, true));
    assert!(log_channel_overwrites(0, 77).is_empty());
    let o = log_channel_overwrites(9, 77);
    assert_eq!(o.len(), 2);
    assert_eq!(o[0].role_id, 9);
    assert_eq!(o[0].allow, vec![ChannelPermission::ReadMessages]);
    assert_eq!(o[0].deny, vec![ChannelPermission::SendMessages]);
    assert_eq!(o[1].role_id, 77);
    assert!(o[1].allow.is_empty());
    assert_eq!(o[1].deny, vec![ChannelPermission::ReadMessages]);
}

#[test]
fn settings_commands() {
    assert!(set_upserts(&"staff_id".to_string()));
    assert!(set_upserts(&"prefix".to_string()));
    assert!(!set_upserts(&"welcome_message".to_string()));
    assert_eq!(outcome_reaction(1), "\u{2705}");
    assert_eq!(outcome_reaction(0), "\u{26A0}");
    assert_eq!(holdlast_key(99), "holdlast_99");
    assert!(holdlast_disables(&"disable".to_string()));
    assert!(!holdlast_disables(&"Disable".to_string()));
}

#[test]
fn notes() {
    assert!(matches!(note_action(""), NoteAction::Refuse(ref t) if t == "Did not add note."));
    assert!(matches!(note_action("x"), NoteAction::Append));
    assert_eq!(append_note("", "first"), "\nfirst");
    assert_eq!(append_note("a", "b"), "a\nb");
}

#[test]
fn message_events() {
    let a = normal_message(false, false, 689686353021370376, 0, "hello");
    assert!(a.delete && !a.verify);
    let b = normal_message(false, true, 689686353021370376, 0, "!verify");
    assert!(!b.delete && b.verify);
    let c = normal_message(true, false, 689686353021370376, 0, "!verify");
    assert!(!c.delete && !c.verify);
    let d = normal_message(false, false, 689686353021370376, 1, "x");
    assert!(!d.delete);
    assert!(verify_applies(165202235226062848));
    assert!(!verify_applies(1));
    assert!(not_guild_check(1));
    assert!(!not_guild_check(546033322401464320));
    assert_eq!(version_string(), "1.1.21");
}

#[test]
fn search_shows_at_most_five() {
    let pages: Vec<WikiPage> = (0..7)
        .map(|i| WikiPage { url: format!("\"u{}\"", i), title: format!("\"t{}\"", i), body: "\"b\"".into() })
        .collect();
    let r = wiki_results(9, &pages);
    assert_eq!(r.len(), 5);
    assert_eq!(r[4].name, "[t4]");
    assert_eq!(wiki_results(3, &pages).len(), 3);
}

const CALLBACK: &str = "/**/jQuery33107513732778347277_1562848671664(";

fn jsonp(json: &str) -> String {
    format!("{}{})", CALLBACK, json)
}

#[test]
fn wiki_reply_decoding() {
    let json = r#"{"record_count": 2, "records": {"page": [{"url": "https://w/a", "title": "A", "body": "alpha"}, {"title": "B", "body": "beta"}]}, "info": {}, "errors": {}}"#;
    let (n, items) = decode_wiki_reply(json).unwrap();
    assert_eq!(n, 2);
    assert_eq!(items.len(), 2);
    let first = items[0].as_ref().unwrap();
    assert_eq!(first.url, "\"https://w/a\"");
    assert_eq!(first.title, "\"A\"");
    assert!(items[1].is_none());
    assert!(decode_wiki_reply("not json").is_none());
    assert!(decode_wiki_reply(r#"{"record_count": 1, "records": {}, "info": 1, "errors": 1}"#).is_none());
    assert!(decode_wiki_reply(r#"{"record_count": 1, "records": {"page": []}, "errors": 1}"#).is_none());
    assert!(decode_wiki_reply(r#"{"record_count": -1, "records": {"page": []}, "info": 1, "errors": 1}"#).is_none());
}

#[test]
fn wiki_reply_to_fields() {
    let json = r#"{"record_count": 1, "records": {"page": [{"url": "https://w/a", "title": "A", "body": "alpha"}, {"title": "B"}]}, "info": {}, "errors": {}}"#;
    let fields = wiki_reply_fields(&jsonp(json)).unwrap();
    assert_eq!(fields.len(), 1);
    assert_eq!(fields[0].name, "[A]");
    assert_eq!(fields[0].value, "\"alpha\"... \n[Visit page](https://w/a)\n");
    // The second page would be shown and lacks its url: nothing can be shown.
    let json2 = json.replace("\"record_count\": 1", "\"record_count\": 2");
    assert!(wiki_reply_fields(&jsonp(&json2)).is_none());
    // Fewer pages than the count promises.
    let json3 = json.replace("\"record_count\": 1", "\"record_count\": 9");
    assert!(wiki_reply_fields(&jsonp(&json3)).is_none());
    // A reply too short to unwrap, or not JSON inside.
    assert!(wiki_reply_fields("short").is_none());
    assert!(wiki_reply_fields(&jsonp("nope")).is_none());
    // No records shows nothing, whatever the pages are.
    let none = r#"{"record_count": 0, "records": {"page": "x"}, "info": 0, "errors": 0}"#;
    assert_eq!(wiki_reply_fields(&jsonp(none)).unwrap().len(), 0);
}

#[test]
fn wiki_reply_long_body_cut() {
    let long = "y".repeat(150);
    let json = format!(r#"{{"record_count": 1, "records": {{"page": [{{"url": "u", "title": "t", "body": "{}"}}]}}, "info": null, "errors": null}}"#, long);
    let fields = wiki_reply_fields(&jsonp(&json)).unwrap();
    assert_eq!(fields[0].value, format!("{}... \n[Visit page](u)\n", &long[..99]));
    let bad = format!(r#"{{"record_count": 1, "records": {{"page": [{{"url": "u", "title": "t", "body": "{}é{}"}}]}}, "info": null, "errors": null}}"#, "y".repeat(98), long);
    assert!(wiki_reply_fields(&jsonp(&bad)).is_none());
}

#[test]
fn whois_replies() {
    assert_eq!(whois_reply(0, false).as_deref(), Some("No members were found with the provided query."));
    assert_eq!(whois_reply(0, true).as_deref(), Some("No members were found with the provided query."));
    assert_eq!(whois_reply(5, false).as_deref(), Some("Failed member lookup."));
    assert_eq!(whois_reply(5, true), None);
}

