use query_cache::envelope::{CacheValue, TTL_SECONDS};
use query_cache::query::Product;

fn widget() -> Product {
    Product {
        product_id: "123".to_string(),
        price: 999,
        product_display_name: "Widget".to_string(),
        brand_name: "Acme".to_string(),
    }
}

#[test]
fn envelope_expires_one_ttl_after_writing() {
    let v = CacheValue::new(vec![widget()], 1_000);
    assert_eq!(v.ttl, 1_060);
    assert_eq!(TTL_SECONDS, 60);
    assert_eq!(v.product.len(), 1);
    assert_eq!(v.product[0].product_id, "123");
}

#[test]
fn envelope_fresh_before_expiry_and_stale_from_it() {
    let t = 1_700_000_000;
    let v = CacheValue::new(vec![widget()], t);
    assert!(v.is_fresh(t - 5));
    assert!(v.is_fresh(t));
    assert!(v.is_fresh(t + 59));
    assert!(!v.is_fresh(t + 60));
    assert!(!v.is_fresh(t + 61));
    assert!(!v.is_fresh(i64::MAX));
}

#[test]
fn envelope_at_largest_time() {
    let v = CacheValue::new(Vec::new(), i64::MAX - 60);
    assert_eq!(v.ttl, i64::MAX);
    assert!(v.is_fresh(i64::MAX - 1));
    assert!(!v.is_fresh(i64::MAX));
}

