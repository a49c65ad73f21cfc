use query_cache::key::{append_decimal, canonical_form, get_hash_key, KEY_LEN, KEY_PREFIX};
use query_cache::query::QueryPayload;

fn full_payload() -> QueryPayload {
    QueryPayload {
        product_id: Some("123".to_string()),
        price: Some(123),
        product_display_name: Some("test".to_string()),
        brand_name: Some("test".to_string()),
    }
}

fn empty_payload() -> QueryPayload {
    QueryPayload {
        product_id: None,
        price: None,
        product_display_name: None,
        brand_name: None,
    }
}

#[test]
fn test_get_hash_key() {
    let payload = full_payload();
    let hash_key = get_hash_key(&payload).unwrap();
    assert_eq!(hash_key.contains("CACHE_ASIDE_"), true)
}

#[test]
fn test_get_hash_key_with_empty_payload() {
    let payload = empty_payload();
    let hash_key = get_hash_key(&payload).unwrap();
    assert_eq!(hash_key.contains("CACHE_ASIDE_"), true)
}

#[test]
fn hash_key_is_prefixed_sha256_hex_of_canonical_text() {
    assert_eq!(
        get_hash_key(&full_payload()).unwrap(),
        "CACHE_ASIDE_40d6896598d0e5e99238e53d4eaf63e75f5aee352abc983210a3bb9eba18d259"
    );
    assert_eq!(
        get_hash_key(&empty_payload()).unwrap(),
        "CACHE_ASIDE_7f3fe1f8ccb527af62f8b0956295a0439aaf52f50fee8fd1ca7126096a0b7767"
    );
}

#[test]
fn every_key_has_prefix_and_fixed_length() {
    let mut long = full_payload();
    long.product_display_name = Some("x".repeat(5000));
    long.price = Some(u64::MAX);
    for p in [full_payload(), empty_payload(), long] {
        let k = get_hash_key(&p).unwrap();
        assert!(k.starts_with(KEY_PREFIX));
        assert_eq!(k.len(), KEY_LEN);
        assert_eq!(k.len(), 76);
        assert!(k[12..].chars().all(|c| c.is_ascii_digit() || ('a'..='f').contains(&c)));
    }
}

#[test]
fn equal_payloads_share_a_key() {
    assert_eq!(get_hash_key(&full_payload()).unwrap(), get_hash_key(&full_payload().clone()).unwrap());
}

#[test]
fn distinct_payloads_get_distinct_keys() {
    let mut other = full_payload();
    other.price = Some(124);
    assert_ne!(get_hash_key(&full_payload()).unwrap(), get_hash_key(&other).unwrap());
    let mut blank = empty_payload();
    blank.brand_name = Some(String::new());
    assert_ne!(get_hash_key(&empty_payload()).unwrap(), get_hash_key(&blank).unwrap());
}

#[test]
fn canonical_form_lists_every_field_in_order() {
    assert_eq!(
        canonical_form(&full_payload()).unwrap(),
        "{\"product_id\":\"123\",\"price\":123,\"product_display_name\":\"test\",\"brand_name\":\"test\"}"
    );
    assert_eq!(
        canonical_form(&empty_payload()).unwrap(),
        "{\"product_id\":null,\"price\":null,\"product_display_name\":null,\"brand_name\":null}"
    );
}

#[test]
fn canonical_form_escapes_texts_as_json() {
    let mut p = empty_payload();
    p.brand_name = Some("a\"b\\c\n".to_string());
    assert_eq!(
        canonical_form(&p).unwrap(),
        "{\"product_id\":null,\"price\":null,\"product_display_name\":null,\"brand_name\":\"a\\\"b\\\\c\\n\"}"
    );
}

#[test]
fn decimal_digits() {
    for (n, text) in [(0u64, "0"), (7, "7"), (10, "10"), (999, "999"), (u64::MAX, "18446744073709551615")] {
        let mut out = String::from("x");
        append_decimal(&mut out, n);
        assert_eq!(out, format!("x{}", text));
    }
}

#[test]
fn key_derivation_never_fails() {
    let mut odd = full_payload();
    odd.product_display_name = Some("\u{0}\u{1f}\"\\é😀".to_string());
    assert!(get_hash_key(&odd).is_ok());
    assert!(canonical_form(&odd).is_ok());
}
