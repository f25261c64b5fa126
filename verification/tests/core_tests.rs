use base64::Engine;
use shortener_rs::store::{LinkStore, StoreError, store_error_response};
use shortener_rs::utils::{encode_id, generate_id, internal_error, u32_to_decimal};

fn is_url_safe(c: char) -> bool {
    c.is_ascii_alphanumeric() || c == '-' || c == '_'
}

#[test]
fn u32_to_decimal_renders_digits() {
    assert_eq!(u32_to_decimal(0), b"0".to_vec());
    assert_eq!(u32_to_decimal(7), b"7".to_vec());
    assert_eq!(u32_to_decimal(120), b"120".to_vec());
    assert_eq!(u32_to_decimal(u32::MAX), b"4294967295".to_vec());
}

#[test]
fn encode_id_exact_values() {
    assert_eq!(encode_id(0), "MA");
    assert_eq!(encode_id(5), "NQ");
    let expected = base64::engine::general_purpose::URL_SAFE_NO_PAD.encode(b"12345");
    assert_eq!(encode_id(12345), expected);
}

#[test]
fn generate_id_is_short_and_url_safe() {
    for _ in 0..32 {
        let id = generate_id();
        assert!(id.len() >= 2 && id.len() <= 14);
        assert!(id.chars().all(is_url_safe));
    }
}

#[test]
fn store_create_and_get() {
    let mut store = LinkStore::new(String::from("irrelevant"));
    let created = store
        .create(String::from("abc"), String::from("https://example.com/a"))
        .unwrap();
    assert_eq!(created.id, "abc");
    assert_eq!(created.target_url, "https://example.com/a");
    let found = store.get(&String::from("abc")).unwrap();
    assert_eq!(found.id, "abc");
    assert_eq!(found.target_url, "https://example.com/a");
    assert!(store.get(&String::from("other")).is_none());
}

#[test]
fn store_create_conflict() {
    let mut store = LinkStore::new(String::from("irrelevant"));
    store
        .create(String::from("abc"), String::from("https://example.com/a"))
        .unwrap();
    let second = store.create(String::from("abc"), String::from("https://example.com/b"));
    assert!(matches!(second, Err(StoreError::Conflict)));
    assert_eq!(store.get(&String::from("abc")).unwrap().target_url, "https://example.com/a");
}

#[test]
fn store_update_unknown_id() {
    let mut store = LinkStore::new(String::from("irrelevant"));
    let outcome = store.update(&String::from("ghost"), String::from("https://example.com/b"));
    assert!(matches!(outcome, Err(StoreError::NotFound)));
}

#[test]
fn query_counts_empty() {
    let store = LinkStore::new(String::from("irrelevant"));
    assert!(store.query_counts(&String::from("abc")).is_empty());
}

#[test]
fn internal_error_shape() {
    let (status, body) = internal_error(String::from("boom"));
    assert_eq!(status, 500);
    assert_eq!(body, "boom");
}

#[test]
fn store_error_responses_are_internal() {
    for e in [
        StoreError::Timeout,
        StoreError::Conflict,
        StoreError::NotFound,
        StoreError::Backend,
    ] {
        let (status, body) = store_error_response(&e);
        assert_eq!(status, 500);
        assert!(!body.is_empty());
    }
}
