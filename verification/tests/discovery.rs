use mcconnect::lan_discovery::build_lan_message;
use mcconnect::minecraft_discovery::{extract_tag_value, parse_lan_message};
use mcconnect::text::{find_sub, has_prefix, parse_u16, parse_u64, u64_to_string};

#[test]
fn test_parse_lan_message() {
    let message = "[MOTD]My Test Server[/MOTD][AD]25565[/AD]";
    let parsed = parse_lan_message(message).unwrap();
    assert_eq!(parsed.port, 25565);
    assert_eq!(parsed.motd, "My Test Server");
}

#[test]
fn test_extract_tag_value() {
    assert_eq!(extract_tag_value("[MOTD]Test[/MOTD]", "MOTD"), Some("Test"));
    assert_eq!(extract_tag_value("[AD]12345[/AD]", "AD"), Some("12345"));
    assert_eq!(extract_tag_value("Invalid", "MOTD"), None);
}

#[test]
fn extract_refuses_empty_span_and_reversed_tags() {
    // Closing tag before the opening one leaves no value between them.
    assert_eq!(extract_tag_value("[/MOTD]x[MOTD]", "MOTD"), None);
    assert_eq!(extract_tag_value("[MOTD][/MOTD]", "MOTD"), None);
}

#[test]
fn build_lan_message_exact_text() {
    assert_eq!(
        build_lan_message("My Server", 25565),
        "[MOTD]My Server[/MOTD][AD]25565[/AD]"
    );
    assert_eq!(build_lan_message("", 1), "[MOTD][/MOTD][AD]1[/AD]");
}

#[test]
fn lan_message_round_trips() {
    let msg = build_lan_message("LAN world", 55555);
    let parsed = parse_lan_message(&msg).unwrap();
    assert_eq!(parsed.port, 55555);
    assert_eq!(parsed.motd, "LAN world");
}

#[test]
fn parse_lan_message_rejects_bad_port() {
    assert_eq!(parse_lan_message("[MOTD]a[/MOTD][AD]99999[/AD]").map(|p| p.port), None);
    assert_eq!(parse_lan_message("[MOTD]a[/MOTD][AD]x[/AD]").map(|p| p.port), None);
    assert_eq!(parse_lan_message("[MOTD]a[/MOTD]").map(|p| p.port), None);
}

#[test]
fn parse_u16_cases() {
    assert_eq!(parse_u16("25565"), Some(25565));
    assert_eq!(parse_u16("0"), Some(0));
    assert_eq!(parse_u16("65535"), Some(65535));
    assert_eq!(parse_u16("65536"), None);
    assert_eq!(parse_u16(""), None);
    assert_eq!(parse_u16("12a"), None);
    assert_eq!(parse_u16("-1"), None);
}

#[test]
fn parse_u64_cases() {
    assert_eq!(parse_u64("18446744073709551615"), Some(u64::MAX));
    assert_eq!(parse_u64("18446744073709551616"), None);
    assert_eq!(parse_u64("007"), Some(7));
}

#[test]
fn u64_to_string_cases() {
    assert_eq!(u64_to_string(0), "0");
    assert_eq!(u64_to_string(9), "9");
    assert_eq!(u64_to_string(10), "10");
    assert_eq!(u64_to_string(25565), "25565");
    assert_eq!(u64_to_string(u64::MAX), "18446744073709551615");
}

#[test]
fn find_sub_names_first_occurrence() {
    assert_eq!(find_sub("abcabc", "bc"), Some(1));
    assert_eq!(find_sub("abc", "x"), None);
    assert_eq!(find_sub("abc", ""), Some(0));
    assert_eq!(find_sub("ab", "abc"), None);
}

#[test]
fn has_prefix_cases() {
    assert!(has_prefix("10.10.10.7", "10.10.10."));
    assert!(!has_prefix("10.10.1", "10.10.10."));
    assert!(!has_prefix("x0.10.10.7", "10.10.10."));
}
