use query_cache::envelope::CacheValue;
use query_cache::flow::{Action, CacheRead, QueryFlow};
use query_cache::key::get_hash_key;
use query_cache::lookup::Lookup;
use query_cache::query::{AppError, Product, QueryPayload};

fn product(id: &str, name: &str) -> Product {
    Product {
        product_id: id.to_string(),
        price: 10,
        product_display_name: name.to_string(),
        brand_name: "Acme".to_string(),
    }
}

fn by_id(id: &str) -> QueryPayload {
    QueryPayload {
        product_id: Some(id.to_string()),
        price: None,
        product_display_name: None,
        brand_name: None,
    }
}

fn by_name(name: &str) -> QueryPayload {
    QueryPayload {
        product_id: None,
        price: None,
        product_display_name: Some(name.to_string()),
        brand_name: None,
    }
}

#[test]
fn start_holds_key_and_lookup() {
    let p = by_id("123");
    let flow = QueryFlow::start(&p).unwrap();
    assert_eq!(flow.key, get_hash_key(&p).unwrap());
    assert!(matches!(flow.lookup, Lookup::ById { ref product_id } if product_id == "123"));
}

#[test]
fn start_refuses_empty_payload() {
    let p = QueryPayload { product_id: None, price: Some(3), product_display_name: None, brand_name: Some("x".to_string()) };
    assert_eq!(QueryFlow::start(&p).unwrap_err(), AppError::InvalidQuery);
}

#[test]
fn read_decisions() {
    let flow = QueryFlow::start(&by_id("1")).unwrap();
    assert!(matches!(flow.after_read(CacheRead::Absent, 100), Action::Fetch));
    assert!(matches!(
        flow.after_read(CacheRead::Failed, 100),
        Action::Reply(Err(AppError::InternalServerError))
    ));
    let v = CacheValue::new(vec![product("1", "A")], 100);
    match flow.after_read(CacheRead::Found(v.clone()), 159) {
        Action::Reply(Ok(r)) => assert_eq!(r[0].product_id, "1"),
        other => panic!("unexpected {:?}", other),
    }
    assert!(matches!(flow.after_read(CacheRead::Found(v), 160), Action::Evict));
}

#[test]
fn evict_decisions() {
    let flow = QueryFlow::start(&by_id("1")).unwrap();
    assert!(matches!(flow.after_evict(true), Action::Fetch));
    assert!(matches!(flow.after_evict(false), Action::Reply(Err(AppError::InternalServerError))));
}

#[test]
fn fetch_decisions() {
    let flow = QueryFlow::start(&by_id("1")).unwrap();
    assert!(matches!(flow.after_fetch(None, 0), Action::Reply(Err(AppError::InternalServerError))));
    assert!(matches!(flow.after_fetch(Some(Vec::new()), 0), Action::Reply(Err(AppError::DataNotFound))));
    match flow.after_fetch(Some(vec![product("1", "A"), product("1", "B")]), 500) {
        Action::WriteBack(v) => {
            assert_eq!(v.ttl, 560);
            assert_eq!(v.product.len(), 1);
            assert_eq!(v.product[0].product_display_name, "A");
        }
        other => panic!("unexpected {:?}", other),
    }
}

#[test]
fn name_fetch_keeps_at_most_ten() {
    let flow = QueryFlow::start(&by_name("w")).unwrap();
    let many: Vec<Product> = (0..15).map(|i| product(&i.to_string(), "w")).collect();
    match flow.after_fetch(Some(many), 0) {
        Action::WriteBack(v) => {
            assert_eq!(v.product.len(), 10);
            assert_eq!(v.product[9].product_id, "9");
        }
        other => panic!("unexpected {:?}", other),
    }
}

#[test]
fn write_back_answers_records_even_when_cache_refuses() {
    let flow = QueryFlow::start(&by_id("1")).unwrap();
    let v = CacheValue::new(vec![product("1", "A")], 0);
    assert_eq!(flow.after_write_back(v.clone(), true).unwrap()[0].product_id, "1");
    assert_eq!(flow.after_write_back(v, false).unwrap()[0].product_id, "1");
}
