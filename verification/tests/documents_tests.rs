use chron::asset::{find_urls, Asset};
use chron::base::uuid_hash;
use chron::db::{object_hash, ObjectCache};
use chron::http::{ClientResponse, ResponseCache};
use chron::json::{get_uuid, Json};
use chron::models::EntityKind;
use std::hash::Hasher;
use siphasher::sip128::Hasher128;

fn to_json(v: &serde_json::Value) -> Json {
    match v {
        serde_json::Value::Null => Json::Null,
        serde_json::Value::Bool(b) => Json::Bool(*b),
        serde_json::Value::Number(n) => Json::Number(n.to_string()),
        serde_json::Value::String(s) => Json::String(s.clone()),
        serde_json::Value::Array(a) => Json::Array(a.iter().map(to_json).collect()),
        serde_json::Value::Object(o) => Json::Object(o.iter().map(|(k, v)| (k.clone(), to_json(v))).collect()),
    }
}

fn from_json(j: &Json) -> serde_json::Value {
    match j {
        Json::Null => serde_json::Value::Null,
        Json::Bool(b) => serde_json::Value::Bool(*b),
        Json::Number(n) => serde_json::Value::Number(n.parse().unwrap()),
        Json::String(s) => serde_json::Value::String(s.clone()),
        Json::Array(a) => serde_json::Value::Array(a.iter().map(from_json).collect()),
        Json::Object(o) => serde_json::Value::Object(o.iter().map(|(k, v)| (k.clone(), from_json(v))).collect()),
    }
}

fn parse(text: &str) -> Json {
    to_json(&serde_json::from_str::<serde_json::Value>(text).unwrap())
}

fn sip(data: &[u8]) -> u128 {
    let mut h = siphasher::sip128::SipHasher::new();
    h.write(data);
    h.finish128().as_u128()
}

fn response(url: &str, etag: Option<&str>, data: &[u8]) -> ClientResponse {
    ClientResponse {
        url: url.to_string(),
        timestamp_before: 1_000,
        timestamp_after: 1_250,
        etag: etag.map(|e| e.to_string()),
        content_type: Some("application/json".to_string()),
        last_modified: None,
        data: data.to_vec(),
        status_code: 200,
        was_cached: false,
    }
}

#[test]
fn uuid_hash_is_siphash_128() {
    assert_eq!(uuid_hash(b"hello"), sip(b"hello"));
    assert_ne!(uuid_hash(b"hello"), uuid_hash(b"hellp"));
    assert_eq!(object_hash(b"{\"a\":1}"), sip(b"{\"a\":1}"));
    assert_eq!(uuid_hash(b""), sip(b""));
}

#[test]
fn object_cache_records_writes() {
    let mut cache = ObjectCache::new();
    assert!(cache.needs_insert(5));
    cache.mark_saved(5);
    assert!(!cache.needs_insert(5));
    assert!(cache.needs_insert(6));
    cache.mark_saved(5);
    assert!(!cache.needs_insert(5));
}

#[test]
fn get_uuid_reads_string_ids() {
    let v = parse(r#"{"id": "01234567-89ab-cdef-0123-456789abcdef", "name": "x", "count": 3}"#);
    assert_eq!(get_uuid(&v, "id"), Some(0x0123456789abcdef0123456789abcdef));
    assert_eq!(get_uuid(&v, "name"), None);
    assert_eq!(get_uuid(&v, "missing"), None);
    assert_eq!(get_uuid(&v, "count"), None);
    assert_eq!(get_uuid(&Json::Array(vec![]), "id"), None);
}

#[test]
fn find_urls_in_document_order() {
    let v = parse(
        r#"{"b": ["https://example.com/a.png", "not a url", {"c": "mailto:someone@example.com"}],
            "a": "https://d.example/x?y=1", "n": 5, "e": "HTTPS://UPPER.example"}"#,
    );
    let urls = find_urls(&v);
    // members come in the map's key order: a, b, e, n
    assert_eq!(
        urls,
        vec![
            "https://d.example/x?y=1".to_string(),
            "https://example.com/a.png".to_string(),
            "https://upper.example/".to_string(),
        ]
    );
    assert!(find_urls(&Json::Null).is_empty());
    assert!(find_urls(&Json::String("mailto:a@b".to_string())).is_empty());
}

#[test]
fn remove_member_drops_fetched_at() {
    let v = parse(r#"{"id": "x", "fetchedAt": 123, "day": 4}"#);
    let r = v.remove_member("fetchedAt");
    assert_eq!(from_json(&r), serde_json::from_str::<serde_json::Value>(r#"{"id": "x", "day": 4}"#).unwrap());
    let arr = parse("[1, 2]");
    assert_eq!(from_json(&arr.remove_member("fetchedAt")), serde_json::from_str::<serde_json::Value>("[1, 2]").unwrap());
}

#[test]
fn json_copy_is_equal() {
    let v = parse(r#"{"a": [1, 2.5, "x", null, true, {"b": []}]}"#);
    assert_eq!(from_json(&v.copy()), from_json(&v));
}

#[test]
fn asset_hashes_and_encodes() {
    let a = Asset::new(
        "https://example.com/img.png",
        Some("yesterday".to_string()),
        None,
        b"\x89PNG data",
    );
    assert_eq!(a.id, sip(b"https://example.com/img.png"));
    assert_eq!(a.hash, sip(b"\x89PNG data"));
    assert_eq!(a.url, "https://example.com/img.png");
    assert_eq!(a.data, "iVBORyBkYXRh");
    assert_eq!(a.last_modified, Some("yesterday".to_string()));
    assert_eq!(a.content_type, None);
    let j = from_json(&a.to_json());
    let expected = format!(
        r#"{{"id": "{}", "url": "https://example.com/img.png", "last_modified": "yesterday", "content_type": null, "hash": "{}", "data": "iVBORyBkYXRh"}}"#,
        uuid::Uuid::from_u128(a.id),
        uuid::Uuid::from_u128(a.hash)
    );
    assert_eq!(j, serde_json::from_str::<serde_json::Value>(&expected).unwrap());
}

#[test]
fn response_times_and_observations() {
    let r = response("https://api2.blaseball.com/sim", None, b"{}");
    assert_eq!(r.request_time(), 250);
    assert_eq!(r.timestamp(), 1_000);
    let obj = r.to_chron(EntityKind::Sim, 0, Json::Null);
    assert_eq!(obj.kind, EntityKind::Sim);
    assert_eq!(obj.entity_id, 0);
    assert_eq!(obj.timestamp, 1_000);
    assert_eq!(obj.request_time, 250);
    let asset = r.to_asset_object();
    assert_eq!(asset.kind, EntityKind::Asset);
    assert_eq!(asset.entity_id, sip(b"https://api2.blaseball.com/sim"));
    assert_eq!(asset.timestamp, 1_000);
    assert_eq!(asset.request_time, 250);
    let data = from_json(&asset.data);
    assert_eq!(data["data"], serde_json::Value::String("e30=".to_string()));
    assert_eq!(data["content_type"], serde_json::Value::String("application/json".to_string()));
    assert_eq!(data["last_modified"], serde_json::Value::Null);
}

#[test]
fn response_cache_replays_not_modified() {
    let mut cache = ResponseCache::new();
    assert_eq!(cache.request_etag("u"), None);
    let first = response("u", Some("\"v1\""), b"body");
    cache.remember("u", &first);
    assert_eq!(cache.request_etag("u"), Some("\"v1\"".to_string()));
    let again = cache.reuse("u", 304, &Some("\"v1\"".to_string())).unwrap();
    assert_eq!(again.data, b"body".to_vec());
    assert_eq!(again.status_code, 304);
    assert!(again.was_cached);
    assert!(cache.reuse("u", 304, &Some("\"v2\"".to_string())).is_none());
    assert!(cache.reuse("u", 200, &Some("\"v1\"".to_string())).is_none());
    assert!(cache.reuse("other", 304, &Some("\"v1\"".to_string())).is_none());
    let untagged = response("w", None, b"x");
    cache.remember("w", &untagged);
    assert_eq!(cache.request_etag("w"), None);
    assert!(cache.reuse("w", 304, &None).is_none());
}
