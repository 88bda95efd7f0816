use twtgui::hash::hash_sha256_str;
use twtgui::loader::FeedBundle;
use twtgui::loader::ParsedCache;
use twtgui::loader::apply_nick_override;
use twtgui::loader::host_or_fallback;
use twtgui::loader::load_feed_from_text;

const RAW: &str = "# nick = alice\n2024-01-01T00:00:00Z\thello\n";

#[test]
fn fresh_parse_uses_declared_nick() {
    let (bundle, hash, reused) =
        load_feed_from_text("fallback", "https://a.example/twtxt.txt", RAW, None);
    assert!(!reused);
    assert_eq!(hash, hash_sha256_str(RAW));
    assert_eq!(bundle.tweets.len(), 1);
    assert_eq!(bundle.tweets[0].author, "alice");
    assert_eq!(bundle.metadata.unwrap().nick.as_deref(), Some("alice"));
}

#[test]
fn matching_content_hash_reuses_stored_bundle() {
    let stored = ParsedCache {
        content_hash: hash_sha256_str(RAW),
        bundle: FeedBundle { tweets: Vec::new(), metadata: None },
    };
    let (bundle, _hash, reused) =
        load_feed_from_text("fallback", "https://a.example/twtxt.txt", RAW, Some(stored));
    assert!(reused);
    // The stored (empty) bundle came back: nothing was re-parsed.
    assert!(bundle.tweets.is_empty());
    assert!(bundle.metadata.is_none());
}

#[test]
fn stale_content_hash_parses_afresh() {
    let stored = ParsedCache {
        content_hash: "0000".to_string(),
        bundle: FeedBundle { tweets: Vec::new(), metadata: None },
    };
    let (bundle, hash, reused) =
        load_feed_from_text("fallback", "https://a.example/twtxt.txt", RAW, Some(stored));
    assert!(!reused);
    assert_eq!(hash, hash_sha256_str(RAW));
    assert_eq!(bundle.tweets.len(), 1);
}

#[test]
fn author_falls_back_to_url_host() {
    let raw = "2024-01-01T00:00:00Z\thi\n";
    let (bundle, _, _) = load_feed_from_text("fallback", "https://example.com/twtxt.txt", raw, None);
    assert_eq!(bundle.tweets[0].author, "example.com");
}

#[test]
fn author_falls_back_to_display_name_without_host() {
    let raw = "2024-01-01T00:00:00Z\thi\n";
    let (bundle, _, _) = load_feed_from_text("fallback", "not a url", raw, None);
    assert_eq!(bundle.tweets[0].author, "fallback");
}

#[test]
fn host_or_fallback_extracts_host() {
    assert_eq!(host_or_fallback("https://example.com/a/b", "x"), "example.com");
    assert_eq!(host_or_fallback("::::", "x"), "x");
}

#[test]
fn nick_override_rewrites_every_author() {
    let (mut bundle, _, _) =
        load_feed_from_text("fallback", "https://a.example/twtxt.txt", RAW, None);
    apply_nick_override(&mut bundle, "me", true);
    assert_eq!(bundle.tweets[0].author, "me");
}

#[test]
fn nick_override_disabled_changes_nothing() {
    let (mut bundle, _, _) =
        load_feed_from_text("fallback", "https://a.example/twtxt.txt", RAW, None);
    apply_nick_override(&mut bundle, "me", false);
    assert_eq!(bundle.tweets[0].author, "alice");
}
