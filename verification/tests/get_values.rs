use key_value_store_ssd::http_server::get_values::{
    after_disk_read, collect_lookup_results, get_key, get_values_response, LookupStep,
};
use key_value_store_ssd::http_server::server::{Key, KeyValue, Status};

fn kv(k: &str, v: &str) -> KeyValue {
    KeyValue::new(k.to_string(), v.to_string())
}

#[test]
fn cache_hit_answers_at_once() {
    match get_key("k".to_string(), Some("v".to_string())) {
        LookupStep::Answer(Ok(p)) => {
            assert_eq!(p.key, "k");
            assert_eq!(p.value, "v");
        }
        _ => panic!("a cached value answers the lookup"),
    }
}

#[test]
fn cache_miss_reads_the_disk() {
    match get_key("k".to_string(), None) {
        LookupStep::ReadFromDisk(k) => assert_eq!(k, "k"),
        _ => panic!("a miss goes to the disk"),
    }
}

#[test]
fn disk_read_fills_the_cache() {
    let (answer, cached) = after_disk_read(Ok(kv("k", "v")));
    let a = answer.unwrap();
    assert_eq!((a.key.as_str(), a.value.as_str()), ("k", "v"));
    let c = cached.unwrap();
    assert_eq!((c.key.as_str(), c.value.as_str()), ("k", "v"));
}

#[test]
fn failed_disk_read_leaves_the_cache_alone() {
    let (answer, cached) = after_disk_read(Err(Status::NotFound));
    assert_eq!(answer.unwrap_err(), Status::NotFound);
    assert!(cached.is_none());
}

#[test]
fn lookups_are_sorted_and_missing_keys_get_empty_values() {
    let keys = vec![
        Key::new("key_1_name".to_string()),
        Key::new("key_2_name".to_string()),
        Key::new("key_non_existing".to_string()),
    ];
    let results = vec![
        Some(Ok(kv("key_1_name", "key_1_value"))),
        None,
        Some(Err(Status::NotFound)),
    ];
    let out = collect_lookup_results(&keys, results);
    assert_eq!(out.found.len(), 1);
    assert_eq!(out.found[0].key, "key_1_name");
    assert_eq!(out.found[0].value, "key_1_value");
    assert_eq!(out.not_found.len(), 2);
    assert_eq!(out.not_found[0].key, "key_2_name");
    assert_eq!(out.not_found[0].value, "");
    assert_eq!(out.not_found[1].key, "key_non_existing");
    assert_eq!(out.not_found[1].value, "");
    assert_eq!(
        get_values_response(&out.found, &out.not_found),
        r#"[{"key":"key_1_name", "value":"key_1_value" "found": "true"},{"key":"key_2_name", "value":"", "found": "false"},{"key":"key_non_existing", "value":"", "found": "false"}]"#
    );
}

#[test]
fn empty_lookup_answers_nothing() {
    let out = collect_lookup_results(&vec![], vec![]);
    assert_eq!(get_values_response(&out.found, &out.not_found), "[]");
}
