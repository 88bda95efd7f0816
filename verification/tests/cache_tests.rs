use twtgui::cache::BinaryCacheEntry;
use twtgui::cache::CacheEntry;
use twtgui::cache::CacheError;
use twtgui::cache::process_binary_response;
use twtgui::cache::conditional_validators;
use twtgui::cache::process_text_response;

fn stored_v1() -> CacheEntry {
    CacheEntry {
        content: "old body".to_string(),
        etag: Some("v1".to_string()),
        last_modified: None,
    }
}

#[test]
fn not_modified_returns_stored_content_unchanged() {
    let r = process_text_response(Some(stored_v1()), 304, None, None, String::new());
    let (content, to_write) = r.expect("304 with a stored entry succeeds");
    assert_eq!(content, "old body");
    assert!(to_write.is_none());
}

#[test]
fn ok_response_overwrites_entry_and_returns_new_content() {
    let r = process_text_response(
        Some(stored_v1()),
        200,
        Some("v2".to_string()),
        None,
        "new body".to_string(),
    );
    let (content, to_write) = r.expect("200 succeeds");
    assert_eq!(content, "new body");
    let entry = to_write.expect("200 stores a new entry");
    assert_eq!(entry.content, "new body");
    assert_eq!(entry.etag.as_deref(), Some("v2"));
    assert!(entry.last_modified.is_none());
}

#[test]
fn not_modified_without_stored_entry_is_an_error() {
    let r = process_text_response(None, 304, None, None, String::new());
    assert_eq!(r.unwrap_err(), CacheError::NotModifiedWithoutCache);
}

#[test]
fn transport_status_is_an_error() {
    let r = process_text_response(Some(stored_v1()), 404, None, None, String::new());
    assert_eq!(r.unwrap_err(), CacheError::HttpStatus(404));
    let r = process_text_response(None, 500, None, None, String::new());
    assert_eq!(r.unwrap_err(), CacheError::HttpStatus(500));
}

#[test]
fn ok_response_with_absent_validators_clears_slots() {
    let r = process_text_response(Some(stored_v1()), 200, None, None, "fresh".to_string());
    let (_, to_write) = r.unwrap();
    let entry = to_write.unwrap();
    assert!(entry.etag.is_none());
    assert!(entry.last_modified.is_none());
}

#[test]
fn binary_not_modified_returns_stored_payload() {
    let r = process_binary_response(Some(vec![1, 2, 3]), 304, None, None, Vec::new());
    let (data, to_write) = r.unwrap();
    assert_eq!(data, vec![1, 2, 3]);
    assert!(to_write.is_none());
}

#[test]
fn binary_not_modified_without_payload_is_an_error() {
    let r = process_binary_response(None, 304, None, None, Vec::new());
    assert_eq!(r.unwrap_err(), CacheError::NotModifiedWithoutCache);
}

#[test]
fn binary_ok_stores_payload_and_validators() {
    let r = process_binary_response(
        None,
        200,
        Some("e".to_string()),
        Some("yesterday".to_string()),
        vec![9, 8],
    );
    let (data, to_write) = r.unwrap();
    assert_eq!(data, vec![9, 8]);
    let entry: BinaryCacheEntry = to_write.unwrap();
    assert_eq!(entry.data, vec![9, 8]);
    assert_eq!(entry.etag.as_deref(), Some("e"));
    assert_eq!(entry.last_modified.as_deref(), Some("yesterday"));
}

#[test]
fn validators_extracted_for_conditional_get() {
    let (etag, lm) = conditional_validators(&Some(stored_v1()));
    assert_eq!(etag.as_deref(), Some("v1"));
    assert!(lm.is_none());
    let (etag, lm) = conditional_validators(&None);
    assert!(etag.is_none());
    assert!(lm.is_none());
}
