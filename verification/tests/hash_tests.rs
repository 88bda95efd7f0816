use twtgui::hash::compute_twt_hash;
use twtgui::hash::hash_sha256_str;

#[test]
fn hash_is_deterministic() {
    let a = compute_twt_hash(
        "https://example.com/twtxt.txt",
        "2024-01-01T00:00:00Z",
        "hello world",
    );
    let b = compute_twt_hash(
        "https://example.com/twtxt.txt",
        "2024-01-01T00:00:00Z",
        "hello world",
    );
    assert_eq!(a, b);
    assert_eq!(a.chars().count(), 7);
}

#[test]
fn hash_changes_with_timestamp() {
    let a = compute_twt_hash(
        "https://example.com/twtxt.txt",
        "2024-01-01T00:00:00Z",
        "hello world",
    );
    let b = compute_twt_hash(
        "https://example.com/twtxt.txt",
        "2024-01-01T00:00:01Z",
        "hello world",
    );
    assert_ne!(a, b);
}

#[test]
fn hash_changes_with_content() {
    let a = compute_twt_hash(
        "https://example.com/twtxt.txt",
        "2024-01-01T00:00:00Z",
        "hello world",
    );
    let b = compute_twt_hash(
        "https://example.com/twtxt.txt",
        "2024-01-01T00:00:00Z",
        "hello world!",
    );
    assert_ne!(a, b);
}

#[test]
fn hash_changes_with_url() {
    let a = compute_twt_hash(
        "https://example.com/twtxt.txt",
        "2024-01-01T00:00:00Z",
        "hello world",
    );
    let b = compute_twt_hash(
        "https://example.org/twtxt.txt",
        "2024-01-01T00:00:00Z",
        "hello world",
    );
    assert_ne!(a, b);
}

#[test]
fn hash_matches_interop_vector() {
    // Reference value other twtxt clients compute for this post.
    let h = compute_twt_hash(
        "https://twtxt.net/user/prologic/twtxt.txt",
        "2020-07-18T12:39:52Z",
        "Hello World! 😊",
    );
    assert_eq!(h, "o6dsrga");
}

#[test]
fn hash_is_lowercase_base32() {
    let h = compute_twt_hash(
        "https://example.com/twtxt.txt",
        "2024-01-01T00:00:00Z",
        "hello world",
    );
    for c in h.chars() {
        assert!(c.is_ascii_lowercase() || ('2'..='7').contains(&c));
    }
}

#[test]
fn sha256_hex_of_empty_string() {
    let h = hash_sha256_str("");
    assert_eq!(
        h,
        "e3b0c44298fc1c149afbf4c8996fb92427ae41e4649b934ca495991b7852b855"
    );
}

#[test]
fn sha256_hex_differs_per_url() {
    assert_ne!(
        hash_sha256_str("https://a.example"),
        hash_sha256_str("https://b.example")
    );
}
