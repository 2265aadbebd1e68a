use unicast::firewall::{active, clear, open, opened, OpenPlan};
use unicast::settings::{
    audio_boost, firewall_ledger, get, get_from, holds, insert_sorted, last_receiver, manual_ips,
    multicast_discovery, parse_boost, set_in, subtitle_preference, write_firewall_ledger,
    write_manual_ips, BOOST_LEVELS,
};

#[test]
fn settings_are_read() {
    let text = Some("{\"lastReceiver\": \"10.0.0.9\", \"audioBoost\": \"6\", \"n\": 3}");
    assert_eq!(get(text, "lastReceiver", ""), "10.0.0.9");
    assert_eq!(get(text, "n", "default"), "default");
    assert_eq!(get(text, "absent", "default"), "default");
    assert_eq!(get(Some("[]"), "n", "default"), "default");
    assert_eq!(get(Some("broken"), "n", "default"), "default");
    assert_eq!(get(None, "n", "default"), "default");
    assert_eq!(last_receiver(text), "10.0.0.9");
    assert_eq!(audio_boost(text), 6);
    assert!(multicast_discovery(text));
    assert!(!multicast_discovery(Some("{\"multicastDiscovery\": \"false\"}")));
    assert_eq!(subtitle_preference(text), "off");
    assert_eq!(subtitle_preference(Some("{\"subtitles\": \"es\"}")), "es");
    assert_eq!(audio_boost(Some("{\"audioBoost\": \"7\"}")), 0);
    assert_eq!(audio_boost(None), 0);
}

#[test]
fn a_setting_is_read_back_and_others_are_kept() {
    let first = unicast::settings::set(None, "lastReceiver", "10.0.0.9");
    assert_eq!(first, "{\"lastReceiver\":\"10.0.0.9\"}");
    let second = unicast::settings::set(Some(&first), "audioBoost", "12 \"dB\"\n");
    assert_eq!(get(Some(&second), "audioBoost", ""), "12 \"dB\"\n");
    assert_eq!(get(Some(&second), "lastReceiver", ""), "10.0.0.9");
    let third = unicast::settings::set(Some(&second), "lastReceiver", "::1");
    assert_eq!(get(Some(&third), "lastReceiver", ""), "::1");
    let kept = unicast::settings::set(Some("{\"a\": {\"b\": [1, true, null]}}"), "k", "v");
    assert_eq!(kept, "{\"a\":{\"b\":[1,true,null]},\"k\":\"v\"}");
    assert_eq!(unicast::settings::set(Some("[1]"), "k", "v"), "{\"k\":\"v\"}");
}

#[test]
fn boost_levels() {
    assert_eq!(BOOST_LEVELS, [0, 6, 12]);
    for level in BOOST_LEVELS {
        assert_eq!(parse_boost(&level.to_string()), Some(level));
    }
    assert_eq!(parse_boost(" 6\n"), Some(6));
    assert_eq!(parse_boost("+12"), Some(12));
    assert_eq!(parse_boost("-0"), Some(0));
    assert_eq!(parse_boost("3"), None);
    assert_eq!(parse_boost("six"), None);
    assert_eq!(parse_boost(""), None);
    assert_eq!(parse_boost("99999999999"), None);
}

#[test]
fn lists_are_read_back() {
    let ips = vec!["10.0.0.9".to_string(), "10.0.0.10".to_string()];
    let body = write_manual_ips(&ips);
    assert_eq!(body, "10.0.0.9\n10.0.0.10\n");
    assert_eq!(manual_ips(Some(&body)), ips);
    assert_eq!(write_manual_ips(&Vec::new()), "");
    assert!(manual_ips(Some("")).is_empty());
    assert!(manual_ips(None).is_empty());
    assert_eq!(manual_ips(Some("\n  a \r\n\n b")), vec!["a", "b"]);
}

#[test]
fn the_ledger_is_sorted_and_read_back() {
    let ledger = firewall_ledger(Some("b\na\nb\nab\n"));
    assert_eq!(ledger, vec!["a", "ab", "b"]);
    assert_eq!(firewall_ledger(Some(&write_firewall_ledger(&ledger))), ledger);
    let mut list = ledger;
    insert_sorted(&mut list, "aa");
    insert_sorted(&mut list, "b");
    assert_eq!(list, vec!["a", "aa", "ab", "b"]);
    assert!(holds(&list, "aa"));
    assert!(!holds(&list, "c"));
}

#[test]
fn the_firewall_is_opened_once() {
    assert!(active(Some("# x\nENABLED=yes\n")));
    assert!(!active(Some("ENABLED=no")));
    assert!(!active(None));
    let mut ledger = Vec::new();
    assert!(matches!(open(false, &ledger, "10.0.0.9", 60020), OpenPlan::Open));
    let OpenPlan::Run(args) = open(true, &ledger, "10.0.0.9", 60020) else {
        panic!("a rule is needed");
    };
    assert_eq!(
        args,
        vec![
            "allow",
            "from",
            "10.0.0.9",
            "proto",
            "tcp",
            "to",
            "any",
            "port",
            "60020",
            "comment",
            "universal-cast-10.0.0.9",
        ]
    );
    opened(&mut ledger, "10.0.0.9");
    assert!(matches!(open(true, &ledger, "10.0.0.9", 60020), OpenPlan::Open));
    assert!(clear(&mut ledger).is_empty());
    assert!(ledger.is_empty());
    assert!(matches!(open(true, &ledger, "10.0.0.9", 60020), OpenPlan::Run(_)));
}

#[test]
fn the_largest_numbers_survive_a_setting() {
    let text = "{\"a\":1.7976931348623157e308,\"b\":-1.7976931348623155e308,\"c\":\"x\"}";
    let after = unicast::settings::set(Some(text), "d", "y");
    assert_eq!(get(Some(&after), "c", ""), "x");
    assert_eq!(get(Some(&after), "d", ""), "y");
}

#[test]
fn settings_that_were_read() {
    let read: serde_json::Value = serde_json::from_str("{\"a\":\"x\",\"n\":1}").expect("settings");
    assert_eq!(get_from(&read, "a", "d"), "x");
    assert_eq!(get_from(&read, "n", "d"), "d");
    assert_eq!(get_from(&read, "b", "d"), "d");
    assert_eq!(set_in(Some(read), "b", "y").to_string(), "{\"a\":\"x\",\"b\":\"y\",\"n\":1}");
    assert_eq!(set_in(Some(serde_json::Value::Null), "b", "y").to_string(), "{\"b\":\"y\"}");
    assert_eq!(set_in(None, "b", "y").to_string(), "{\"b\":\"y\"}");
}
