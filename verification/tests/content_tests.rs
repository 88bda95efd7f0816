use twtgui::content::parse_twt_contents;

#[test]
fn mention_with_display_text() {
    let (reply, mentions, display) = parse_twt_contents("@<alice https://a.example/twtxt.txt> hello");
    assert!(reply.is_none());
    assert_eq!(mentions.len(), 1);
    assert_eq!(mentions[0].text.as_deref(), Some("alice"));
    assert_eq!(mentions[0].url, "https://a.example/twtxt.txt");
    assert_eq!(display, "@alice hello");
}

#[test]
fn reply_marker_alone() {
    let (reply, mentions, display) = parse_twt_contents("(#ab12345) thanks!");
    assert_eq!(reply.as_deref(), Some("ab12345"));
    assert!(mentions.is_empty());
    assert_eq!(display, "thanks!");
}

#[test]
fn bare_mention_uses_url_as_text() {
    let (reply, mentions, display) = parse_twt_contents("@<https://a.example/twtxt.txt> hi");
    assert!(reply.is_none());
    assert_eq!(mentions.len(), 1);
    assert!(mentions[0].text.is_none());
    assert_eq!(mentions[0].url, "https://a.example/twtxt.txt");
    assert_eq!(display, "https://a.example/twtxt.txt hi");
}

#[test]
fn mention_in_body() {
    let (reply, mentions, display) = parse_twt_contents("greetings to @<bob https://b.example> today");
    assert!(reply.is_none());
    assert_eq!(mentions.len(), 1);
    assert_eq!(mentions[0].text.as_deref(), Some("bob"));
    assert_eq!(mentions[0].url, "https://b.example");
    assert_eq!(display, "greetings to @bob today");
}

#[test]
fn reply_then_mention_then_body() {
    let (reply, mentions, display) =
        parse_twt_contents("(#zzzzzzz) @<carol https://c.example> well said");
    assert_eq!(reply.as_deref(), Some("zzzzzzz"));
    assert_eq!(mentions.len(), 1);
    assert_eq!(mentions[0].text.as_deref(), Some("carol"));
    assert_eq!(display, "@carol well said");
}

#[test]
fn mention_before_reply_marker() {
    let (reply, mentions, display) =
        parse_twt_contents("@<dave https://d.example> (#abcdefg) sure");
    assert_eq!(reply.as_deref(), Some("abcdefg"));
    assert_eq!(mentions.len(), 1);
    assert_eq!(mentions[0].text.as_deref(), Some("dave"));
    assert_eq!(display, "@dave sure");
}

#[test]
fn second_reply_marker_is_plain_text() {
    let (reply, _mentions, display) = parse_twt_contents("(#aaaaaaa) (#bbbbbbb) twice");
    assert_eq!(reply.as_deref(), Some("aaaaaaa"));
    assert_eq!(display, "(#bbbbbbb) twice");
}

#[test]
fn reply_marker_in_body_is_plain_text() {
    let (reply, _mentions, display) = parse_twt_contents("see (#ab12345) there");
    assert!(reply.is_none());
    assert_eq!(display, "see (#ab12345) there");
}

#[test]
fn unclosed_mention_is_plain_text() {
    let (reply, mentions, display) = parse_twt_contents("@<alice hello");
    assert!(reply.is_none());
    assert!(mentions.is_empty());
    assert_eq!(display, "@<alice hello");
}

#[test]
fn empty_content() {
    let (reply, mentions, display) = parse_twt_contents("");
    assert!(reply.is_none());
    assert!(mentions.is_empty());
    assert_eq!(display, "");
}

#[test]
fn whitespace_only_content() {
    let (reply, mentions, display) = parse_twt_contents("   \t  ");
    assert!(reply.is_none());
    assert!(mentions.is_empty());
    assert_eq!(display, "");
}

#[test]
fn mention_url_with_trailing_space_is_trimmed() {
    let (_reply, mentions, _display) = parse_twt_contents("@<eve https://e.example > hm");
    assert_eq!(mentions.len(), 1);
    assert_eq!(mentions[0].url, "https://e.example");
}

#[test]
fn plain_text_untouched() {
    let (reply, mentions, display) = parse_twt_contents("just a plain post");
    assert!(reply.is_none());
    assert!(mentions.is_empty());
    assert_eq!(display, "just a plain post");
}
