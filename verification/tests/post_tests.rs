use twtgui::post::apply_avatar;
use twtgui::post::parse_rfc3339;
use twtgui::post::parse_tweets;
use twtgui::post::sort_tweets_desc;

#[test]
fn well_formed_lines_each_yield_a_post() {
    let input = "# nick = x\n\
                 2024-01-01T00:00:00Z\thello\n\
                 no tab on this line\n\
                 2024-01-02T00:00:00Z\tworld\n\
                 not-a-date\toops\n\
                 2024-01-03T00:00:00Z\tthird\n";
    let tweets = parse_tweets("alice", "https://a.example/twtxt.txt", None, input);
    assert_eq!(tweets.len(), 3);
    assert_eq!(tweets[0].content, "hello");
    assert_eq!(tweets[1].content, "world");
    assert_eq!(tweets[2].content, "third");
    for t in &tweets {
        assert_eq!(t.author, "alice");
        assert_eq!(t.url, "https://a.example/twtxt.txt");
        assert_eq!(t.hash.chars().count(), 7);
        assert!(t.avatar.is_none());
    }
}

#[test]
fn malformed_lines_yield_nothing() {
    let input = "# just = metadata\nplain text\n\tleading tab only\n";
    let tweets = parse_tweets("a", "https://a.example", None, input);
    // "\tleading tab only" has a tab but an empty, unparsable timestamp.
    assert!(tweets.is_empty());
}

#[test]
fn post_line_extracts_reply_and_mentions() {
    let input = "2024-01-01T00:00:00Z\t(#ab12345) @<bob https://b.example> thanks!\n";
    let tweets = parse_tweets("alice", "https://a.example", None, input);
    assert_eq!(tweets.len(), 1);
    assert_eq!(tweets[0].reply_to.as_deref(), Some("ab12345"));
    assert_eq!(tweets[0].mentions.len(), 1);
    assert_eq!(tweets[0].mentions[0].text.as_deref(), Some("bob"));
    assert_eq!(tweets[0].content, "@bob thanks!");
}

#[test]
fn hash_computed_from_raw_content_not_display() {
    let raw = "(#ab12345) hi";
    let line = format!("2024-01-01T00:00:00Z\t{}\n", raw);
    let tweets = parse_tweets("a", "https://a.example", None, &line);
    let expected =
        twtgui::hash::compute_twt_hash("https://a.example", "2024-01-01T00:00:00Z", raw);
    assert_eq!(tweets[0].hash, expected);
    // The display content differs from the raw content the hash covers.
    assert_eq!(tweets[0].content, "hi");
}

#[test]
fn timestamps_parse_to_epoch_seconds() {
    let t = parse_rfc3339("1970-01-01T00:00:10Z").unwrap();
    assert_eq!(t.secs, 10);
    assert_eq!(t.nanos, 0);
    let u = parse_rfc3339("2020-01-01T00:00:00+01:00").unwrap();
    assert_eq!(u.secs, 1577833200);
    assert!(parse_rfc3339("not a date").is_none());
    assert!(parse_rfc3339("2020-13-01T00:00:00Z").is_none());
}

#[test]
fn subsecond_precision_kept() {
    let t = parse_rfc3339("2020-01-01T00:00:00.25Z").unwrap();
    assert_eq!(t.nanos, 250_000_000);
}

#[test]
fn sort_orders_newest_first() {
    let input = "2024-01-01T00:00:00Z\toldest\n\
                 2024-03-01T00:00:00Z\tnewest\n\
                 2024-02-01T00:00:00Z\tmiddle\n";
    let mut tweets = parse_tweets("a", "https://a.example", None, input);
    sort_tweets_desc(&mut tweets);
    assert_eq!(tweets.len(), 3);
    assert_eq!(tweets[0].content, "newest");
    assert_eq!(tweets[1].content, "middle");
    assert_eq!(tweets[2].content, "oldest");
}

#[test]
fn sort_breaks_second_ties_by_nanos() {
    let input = "2024-01-01T00:00:00.5Z\thalf\n\
                 2024-01-01T00:00:00.75Z\tthreequarters\n";
    let mut tweets = parse_tweets("a", "https://a.example", None, input);
    sort_tweets_desc(&mut tweets);
    assert_eq!(tweets[0].content, "threequarters");
    assert_eq!(tweets[1].content, "half");
}

#[test]
fn avatar_patch_touches_only_matching_source() {
    let a = parse_tweets("a", "https://a.example", None, "2024-01-01T00:00:00Z\tfrom a\n");
    let b = parse_tweets("b", "https://b.example", None, "2024-01-02T00:00:00Z\tfrom b\n");
    let mut all = a;
    all.extend(b);
    apply_avatar(&mut all, "https://b.example", 42);
    assert!(all[0].avatar.is_none());
    assert_eq!(all[1].avatar, Some(42));
    assert_eq!(all[1].content, "from b");
}
