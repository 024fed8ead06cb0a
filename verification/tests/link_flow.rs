use url_shortener_with_a_twist::idgen::{generate_link_token, generate_short_id, short_id_of};
use url_shortener_with_a_twist::links::LinkError;
use url_shortener_with_a_twist::store::Store;

#[test]
fn create_persists_the_normalized_url() {
    let mut store = Store::new();
    let id = store.create("https://www.example.com", 1_000).unwrap();
    assert_eq!(store.links.len(), 1);
    assert_eq!(store.resolve(&id).unwrap(), "https://www.example.com/");
}

#[test]
fn round_trip_returns_the_normalized_form() {
    let mut store = Store::new();
    let id = store.create("https://example.com", 7).unwrap();
    assert_eq!(store.resolve(&id).unwrap(), "https://example.com/");
}

#[test]
fn create_rejects_an_invalid_url_and_persists_nothing() {
    let mut store = Store::new();
    let err = store.create("not-a-url", 1_000).unwrap_err();
    assert!(matches!(err, LinkError::InvalidUrl(u) if u == "not-a-url"));
    assert_eq!(store.links.len(), 0);
}

#[test]
fn create_rejects_definetly_not_a_valid_url() {
    let mut store = Store::new();
    let err = store.create("definetly-not-a-valid-url", 0).unwrap_err();
    assert!(matches!(err, LinkError::InvalidUrl(_)));
    assert_eq!(store.links.len(), 0);
}

#[test]
fn resolve_of_an_unknown_id_is_link_not_found() {
    let store = Store::new();
    let err = store.resolve("nonexistent").unwrap_err();
    assert!(matches!(err, LinkError::LinkNotFound));
}

#[test]
fn exhausted_candidates_fail_with_generate_unique_id() {
    let mut store = Store::new();
    let taken = store
        .create_with_candidates(
            "https://www.example.com",
            vec!["x1".to_string(), "x2".to_string(), "x3".to_string()],
            0,
        )
        .unwrap();
    assert_eq!(taken, "x1");
    // A generator stub forced to repeat the taken id exhausts all attempts.
    let err = store
        .create_with_candidates(
            "https://www.example.com",
            vec![taken.clone(), taken.clone(), taken.clone()],
            1,
        )
        .unwrap_err();
    assert!(matches!(err, LinkError::GenerateUniqueId));
    assert_eq!(store.links.len(), 1);
}

#[test]
fn colliding_candidates_are_skipped_until_a_fresh_one() {
    let mut store = Store::new();
    let first = store
        .create_with_candidates(
            "https://a.example.com",
            vec!["dup".to_string(), "dup".to_string(), "dup".to_string()],
            0,
        )
        .unwrap();
    assert_eq!(first, "dup");
    let second = store
        .create_with_candidates(
            "https://b.example.com",
            vec!["dup".to_string(), "fresh".to_string(), "other".to_string()],
            0,
        )
        .unwrap();
    assert_eq!(second, "fresh");
    assert_eq!(store.resolve("fresh").unwrap(), "https://b.example.com/");
}

#[test]
fn created_ids_are_distinct() {
    let mut store = Store::new();
    let mut ids: Vec<String> = Vec::new();
    for k in 0..20 {
        ids.push(store.create("https://www.example.com", k).unwrap());
    }
    for i in 0..ids.len() {
        for j in 0..ids.len() {
            if i != j {
                assert_ne!(ids[i], ids[j]);
            }
        }
    }
}

#[test]
fn short_id_encodes_the_decimal_text() {
    // base64url("0") and base64url("12"), without padding.
    assert_eq!(short_id_of(0), "MA");
    assert_eq!(short_id_of(12), "MTI");
}

#[test]
fn generated_short_ids_are_url_safe() {
    let id = generate_short_id();
    assert!(id.len() >= 2);
    assert!(id.chars().all(|c| c.is_ascii_alphanumeric() || c == '-' || c == '_'));
}

#[test]
fn generated_tokens_are_25_alphanumeric_characters() {
    let token = generate_link_token();
    assert_eq!(token.len(), 25);
    assert!(token.chars().all(|c| c.is_ascii_alphanumeric()));
}
