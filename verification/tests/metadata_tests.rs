use twtgui::metadata::parse_metadata;

#[test]
fn metadata_all_recognized_keys() {
    let input = "# nick = alice\n\
                 # url = https://a.example/twtxt.txt\n\
                 # url = https://mirror.example/twtxt.txt\n\
                 # avatar = https://a.example/me.png\n\
                 # description = says things\n\
                 # type = bot\n\
                 # follow = bob https://b.example/twtxt.txt\n\
                 # link = My Site https://site.example\n\
                 # prev = k7imvia twtxt-old.txt\n\
                 # following = 2\n\
                 # refresh = 3600\n";
    let m = parse_metadata(input).expect("metadata expected");
    assert_eq!(m.nick.as_deref(), Some("alice"));
    assert_eq!(
        m.urls,
        vec![
            "https://a.example/twtxt.txt".to_string(),
            "https://mirror.example/twtxt.txt".to_string()
        ]
    );
    assert_eq!(m.avatar.as_deref(), Some("https://a.example/me.png"));
    assert_eq!(m.description.as_deref(), Some("says things"));
    assert_eq!(m.kind.as_deref(), Some("bot"));
    assert_eq!(m.follows.len(), 1);
    assert_eq!(m.follows[0].text, "bob");
    assert_eq!(m.follows[0].url, "https://b.example/twtxt.txt");
    assert_eq!(m.links.len(), 1);
    assert_eq!(m.links[0].text, "My Site");
    assert_eq!(m.links[0].url, "https://site.example");
    assert_eq!(m.prev, vec!["k7imvia twtxt-old.txt".to_string()]);
    assert_eq!(m.following, Some(2));
    assert_eq!(m.refresh, Some(3600));
}

#[test]
fn metadata_none_when_no_key_matches() {
    assert!(parse_metadata("just text\nanother line\n").is_none());
    assert!(parse_metadata("").is_none());
    assert!(parse_metadata("# a comment without equals\n").is_none());
    assert!(parse_metadata("key = value without hash\n").is_none());
}

#[test]
fn metadata_none_when_only_effect_fails() {
    // A recognized key whose value is ignored leaves nothing declared.
    assert!(parse_metadata("# following = notanumber\n").is_none());
    assert!(parse_metadata("# follow = nospacehere\n").is_none());
}

#[test]
fn metadata_empty_value_is_declared_empty() {
    let m = parse_metadata("# nick =\n").expect("metadata expected");
    assert_eq!(m.nick.as_deref(), Some(""));
}

#[test]
fn metadata_unknown_keys_ignored() {
    let m = parse_metadata("# frobnicate = yes\n# nick = carol\n").expect("metadata expected");
    assert_eq!(m.nick.as_deref(), Some("carol"));
    assert!(m.urls.is_empty());
}

#[test]
fn metadata_follow_splits_on_last_space() {
    let m = parse_metadata("# follow = name with spaces https://x.example\n").unwrap();
    assert_eq!(m.follows[0].text, "name with spaces");
    assert_eq!(m.follows[0].url, "https://x.example");
}

#[test]
fn metadata_number_with_plus_sign() {
    let m = parse_metadata("# following = +7\n").unwrap();
    assert_eq!(m.following, Some(7));
}

#[test]
fn metadata_number_overflow_ignored() {
    assert!(parse_metadata("# refresh = 99999999999999999999999999\n").is_none());
}

#[test]
fn metadata_later_scalar_wins() {
    let m = parse_metadata("# nick = first\n# nick = second\n").unwrap();
    assert_eq!(m.nick.as_deref(), Some("second"));
}

#[test]
fn metadata_value_with_equals_splits_on_first() {
    let m = parse_metadata("# description = a = b\n").unwrap();
    assert_eq!(m.description.as_deref(), Some("a = b"));
}

#[test]
fn metadata_crlf_lines() {
    let m = parse_metadata("# nick = dave\r\n# following = 1\r\n").unwrap();
    assert_eq!(m.nick.as_deref(), Some("dave"));
    assert_eq!(m.following, Some(1));
}
