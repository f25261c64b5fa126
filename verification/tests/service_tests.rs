use sha3::Digest;
use shortener_rs::auth::{auth, authorize};
use shortener_rs::models::LinkTarget;
use shortener_rs::routes::{
    create_link, get_link_statistics, handle_create, handle_update, health_check, redirect,
    update_link, validate_target,
};
use shortener_rs::store::LinkStore;

const CACHE_CONTROL: &str =
    "public, max-age=300, s-maxage=300, stale-while-revalidate=300, stale-if-error=300";

fn hash_hex(key: &str) -> String {
    let mut hasher = sha3::Sha3_256::new();
    hasher.update(key.as_bytes());
    format!("{:x}", hasher.finalize())
}

fn store_with_key(key: &str) -> LinkStore {
    LinkStore::new(hash_hex(key))
}

fn target(url: &str) -> LinkTarget {
    LinkTarget { target_url: String::from(url) }
}

#[test]
fn health_check_is_fixed() {
    let (status, body) = health_check();
    assert_eq!(status, 200);
    assert_eq!(body, "Service healthy");
}

#[test]
fn round_trip() {
    let mut store = store_with_key("secret");
    let link = create_link(&mut store, &target("https://example.com/a"), String::from("abc123"))
        .unwrap();
    assert_eq!(link.id, "abc123");
    assert_eq!(link.target_url, "https://example.com/a");
    let reply = redirect(&mut store, &String::from("abc123"), None, None);
    assert_eq!(reply.status, 307);
    assert_eq!(reply.location.as_deref(), Some("https://example.com/a"));
    assert_eq!(reply.cache_control.as_deref(), Some(CACHE_CONTROL));
    assert!(reply.body.is_empty());
}

#[test]
fn idempotent_read() {
    let mut store = store_with_key("secret");
    create_link(&mut store, &target("https://example.com/a"), String::from("abc123")).unwrap();
    let first = redirect(&mut store, &String::from("abc123"), None, None);
    let second = redirect(&mut store, &String::from("abc123"), None, None);
    assert_eq!(first.status, 307);
    assert_eq!(second.status, 307);
    assert_eq!(first.location, second.location);
}

#[test]
fn update_visibility() {
    let mut store = store_with_key("secret");
    create_link(&mut store, &target("https://example.com/a"), String::from("abc123")).unwrap();
    let updated =
        update_link(&mut store, &String::from("abc123"), &target("https://example.com/b"))
            .unwrap();
    assert_eq!(updated.target_url, "https://example.com/b");
    let reply = redirect(&mut store, &String::from("abc123"), None, None);
    assert_eq!(reply.status, 307);
    assert_eq!(reply.location.as_deref(), Some("https://example.com/b"));
}

#[test]
fn not_found_shape() {
    let mut store = store_with_key("secret");
    let reply = redirect(&mut store, &String::from("nonexistent-id"), None, None);
    assert_eq!(reply.status, 200);
    assert_eq!(reply.body, "Not found");
    assert!(reply.location.is_none());
    assert!(reply.cache_control.is_none());
}

#[test]
fn statistics_aggregation() {
    let mut store = store_with_key("secret");
    create_link(&mut store, &target("https://example.com/a"), String::from("abc123")).unwrap();
    let id = String::from("abc123");
    redirect(&mut store, &id, Some(String::from("R1")), Some(String::from("U1")));
    redirect(&mut store, &id, Some(String::from("R1")), Some(String::from("U1")));
    redirect(&mut store, &id, Some(String::from("R2")), Some(String::from("U1")));
    let groups = get_link_statistics(&store, &id);
    assert_eq!(groups.len(), 2);
    let r1 = groups
        .iter()
        .find(|g| g.referer.as_deref() == Some("R1"))
        .unwrap();
    assert_eq!(r1.amount, Some(2));
    assert_eq!(r1.user_agent.as_deref(), Some("U1"));
    let r2 = groups
        .iter()
        .find(|g| g.referer.as_deref() == Some("R2"))
        .unwrap();
    assert_eq!(r2.amount, Some(1));
    assert_eq!(r2.user_agent.as_deref(), Some("U1"));
}

#[test]
fn statistics_absent_headers_become_null() {
    let mut store = store_with_key("secret");
    create_link(&mut store, &target("https://example.com/a"), String::from("abc123")).unwrap();
    let id = String::from("abc123");
    redirect(&mut store, &id, None, None);
    let groups = get_link_statistics(&store, &id);
    assert_eq!(groups.len(), 1);
    assert_eq!(groups[0].amount, Some(1));
    assert!(groups[0].referer.is_none());
    assert!(groups[0].user_agent.is_none());
}

#[test]
fn malformed_url_rejection() {
    let mut store = store_with_key("secret");
    let created = create_link(&mut store, &target("not a url"), String::from("abc123"));
    assert_eq!(created.unwrap_err(), (409, String::from("Url malformed")));
    assert!(store.links.is_empty());

    create_link(&mut store, &target("https://example.com/a"), String::from("abc123")).unwrap();
    let updated = update_link(&mut store, &String::from("abc123"), &target("not a url"));
    assert_eq!(updated.unwrap_err(), (409, String::from("Malformed url")));
    let reply = redirect(&mut store, &String::from("abc123"), None, None);
    assert_eq!(reply.location.as_deref(), Some("https://example.com/a"));
}

#[test]
fn auth_gate() {
    let store = store_with_key("secret");
    assert_eq!(auth(&store, None).unwrap_err(), (401, String::from("Unauthorized")));
    assert_eq!(
        auth(&store, Some(&String::from("wrong"))).unwrap_err(),
        (401, String::from("Unauthorized"))
    );
    assert!(auth(&store, Some(&String::from("secret"))).is_ok());
}

#[test]
fn denied_requests_write_nothing() {
    let mut store = store_with_key("secret");
    let refused = handle_create(&mut store, None, &target("https://example.com/a"));
    assert_eq!(refused.unwrap_err(), (401, String::from("Unauthorized")));
    assert!(store.links.is_empty());

    let refused = handle_update(
        &mut store,
        Some(&String::from("wrong")),
        &String::from("abc123"),
        &target("https://example.com/b"),
    );
    assert_eq!(refused.unwrap_err(), (401, String::from("Unauthorized")));
    assert!(store.links.is_empty());

    let admitted = handle_create(
        &mut store,
        Some(&String::from("secret")),
        &target("https://example.com/a"),
    )
    .unwrap();
    assert_eq!(admitted.target_url, "https://example.com/a");
    assert_eq!(store.links.len(), 1);
}

#[test]
fn authorize_compares_digests() {
    let stored = hash_hex("abc");
    assert!(authorize("abc", &stored));
    assert!(!authorize("abc", &String::from("abc")));
    assert!(!authorize("abd", &stored));
}

#[test]
fn urls_are_normalized() {
    let mut store = store_with_key("secret");
    let link = create_link(
        &mut store,
        &target("HTTPS://EXAMPLE.COM/Path"),
        String::from("abc123"),
    )
    .unwrap();
    assert_eq!(link.target_url, "https://example.com/Path");
    assert_eq!(
        validate_target("https://example.com").as_deref(),
        Some("https://example.com/")
    );
    assert!(validate_target("not a url").is_none());
}
