use key_value_store_ssd::http_server::server::{check_for_repeated_key, Key, KeyValue, Request, Status};
use key_value_store_ssd::http_server::store_values::{
    admit_batch, collect_store_results, pairs_to_store, create_json_response, extract_failure_success,
    validate_key_value,
};

fn kv(k: &str, v: &str) -> KeyValue {
    KeyValue::new(k.to_string(), v.to_string())
}

#[test]
fn create_json_response_lists_modified_then_failed() {
    let r = create_json_response(
        vec!["key_1_name".to_string(), "key_2_name".to_string()],
        vec!["key_3_name".to_string()],
    );
    assert_eq!(
        r,
        r#"[{"key":"key_1_name", "modified": "true"},{"key":"key_2_name", "modified": "true"},{"key":"key_3_name", "modified": "false"}]"#
    );
}

#[test]
fn create_json_response_of_nothing_is_empty() {
    assert_eq!(create_json_response(vec![], vec![]), "[]");
}

#[test]
fn create_json_response_single_failure() {
    assert_eq!(
        create_json_response(vec![], vec!["k".to_string()]),
        r#"[{"key":"k", "modified": "false"}]"#
    );
}

#[test]
fn validate_accepts_plain_pair() {
    assert_eq!(validate_key_value(&kv("key_1_name", "key_1_value")), Ok(()));
}

#[test]
fn validate_rejects_empty_key() {
    assert_eq!(
        validate_key_value(&kv("", "v")),
        Err("Bad request, invalid key  or value v".to_string())
    );
}

#[test]
fn validate_rejects_empty_value() {
    assert_eq!(
        validate_key_value(&kv("k", "")),
        Err("Bad request, invalid key k or value ".to_string())
    );
}

#[test]
fn validate_rejects_slash_in_key() {
    assert_eq!(
        validate_key_value(&kv("../etc/passwd", "x")),
        Err("Bad request, invalid key ../etc/passwd or value x".to_string())
    );
}

#[test]
fn validate_accepts_slash_in_value_and_unicode_key() {
    assert_eq!(validate_key_value(&kv("ключ", "a/b")), Ok(()));
}

#[test]
fn repeated_keys_are_detected() {
    assert!(check_for_repeated_key(&vec![kv("a", "1"), kv("b", "2")]));
    assert!(!check_for_repeated_key(&vec![kv("a", "1"), kv("b", "2"), kv("a", "3")]));
    assert!(check_for_repeated_key(&vec![]));
}

#[test]
fn admit_batch_refuses_repeated_keys_with_bad_request() {
    assert_eq!(admit_batch(&vec![kv("a", "1"), kv("a", "1")]), Err(Status::BadRequest));
    assert_eq!(admit_batch(&vec![kv("a", "1"), kv("ab", "1")]), Ok(()));
}

#[test]
fn extract_failure_success_on_finished_tasks() {
    assert!(extract_failure_success(Ok(Ok("k".to_string()))));
    assert!(!extract_failure_success(Ok(Err("e".to_string()))));
}

#[test]
fn extract_failure_success_on_a_task_that_panicked() {
    let rt = tokio::runtime::Builder::new_current_thread().build().unwrap();
    let joined: Result<Result<String, String>, tokio::task::JoinError> =
        rt.block_on(async { tokio::spawn(async { panic!("task failed") }).await });
    assert!(joined.is_err());
    assert!(!extract_failure_success(joined));
}

#[test]
fn collect_store_results_sorts_by_outcome_and_keeps_each_key_once() {
    let kvs = vec![kv("a", "1"), kv("b", "2"), kv("c", "3")];
    let out = collect_store_results(&kvs, &vec![true, false, true]);
    assert_eq!(out.modified, vec!["a".to_string(), "c".to_string()]);
    assert_eq!(out.failed, vec!["b".to_string()]);
    assert_eq!(out.stored.len(), 2);
    assert_eq!(out.stored[0].key, "a");
    assert_eq!(out.stored[0].value, "1");
    assert_eq!(out.stored[1].key, "c");
    assert_eq!(out.stored[1].value, "3");
    assert_eq!(out.modified.len() + out.failed.len(), kvs.len());
}

#[test]
fn store_answer_for_readme_request() {
    let kvs = vec![
        kv("key_1_name", "key_1_value"),
        kv("key_2_name", "key_2_value"),
        kv("key_3_name", "key_3_value"),
    ];
    assert_eq!(admit_batch(&kvs), Ok(()));
    let oks: Vec<bool> = kvs.iter().map(|p| validate_key_value(p).is_ok()).collect();
    let out = collect_store_results(&kvs, &oks);
    assert_eq!(
        create_json_response(out.modified, out.failed),
        r#"[{"key":"key_1_name", "modified": "true"},{"key":"key_2_name", "modified": "true"},{"key":"key_3_name", "modified": "true"}]"#
    );
}

#[test]
fn store_request_shapes() {
    let many = pairs_to_store(Request::Many(vec![kv("a", "1"), kv("b", "2")])).unwrap();
    assert_eq!(many.len(), 2);
    assert_eq!(many[1].key, "b");
    assert_eq!(
        pairs_to_store(Request::Many(vec![kv("a", "1"), kv("a", "2")])).unwrap_err(),
        Status::BadRequest
    );
    let one = pairs_to_store(Request::One(kv("a", "1"))).unwrap();
    assert_eq!((one.len(), one[0].value.as_str()), (1, "1"));
    assert!(pairs_to_store(Request::Unreadable).unwrap().is_empty());
}

#[test]
fn key_request_shapes() {
    let r: Request<Key> = Request::Many(vec![Key::new("a".to_string()), Key::new("b".to_string())]);
    assert!(r.is_many());
    let keys = r.into_items();
    assert_eq!(keys.len(), 2);
    assert_eq!(keys[0].key, "a");
    let one: Request<Key> = Request::One(Key::new("k".to_string()));
    assert!(!one.is_many());
    assert_eq!(one.into_items()[0].key, "k");
    let none: Request<Key> = Request::Unreadable;
    assert!(none.into_items().is_empty());
}
