use key_value_store_ssd::file_system::operations::{delete_file_result, DeleteOutcome};
use key_value_store_ssd::http_server::delete_keys::{
    cache_eviction, collect_delete_results, delete_response,
};
use key_value_store_ssd::http_server::server::Status;

#[test]
fn missing_key_counts_as_deleted() {
    assert_eq!(delete_file_result("gone".to_string(), DeleteOutcome::Missing), Ok("gone".to_string()));
}

#[test]
fn removed_key_is_deleted() {
    assert_eq!(delete_file_result("k".to_string(), DeleteOutcome::Removed), Ok("k".to_string()));
}

#[test]
fn failed_removal_is_not_modified() {
    assert_eq!(delete_file_result("k".to_string(), DeleteOutcome::Failed), Err(Status::NotModified));
}

#[test]
fn poisoned_lock_is_internal_error() {
    assert_eq!(
        delete_file_result("k".to_string(), DeleteOutcome::LockPoisoned),
        Err(Status::InternalServerError)
    );
}

#[test]
fn deletion_answer_reports_every_key() {
    let keys = vec!["key_1_name".to_string(), "key_2_name".to_string(), "key_nonexisting".to_string()];
    let results = vec![
        delete_file_result(keys[0].clone(), DeleteOutcome::Removed),
        delete_file_result(keys[1].clone(), DeleteOutcome::Removed),
        delete_file_result(keys[2].clone(), DeleteOutcome::Missing),
    ];
    let out = collect_delete_results(&keys, results);
    assert_eq!(out.deleted.len() + out.failed.len(), 3);
    assert_eq!(
        delete_response(&out.deleted, &out.failed, true),
        r#"[{"key":"key_1_name", "deleted": "true"},{"key":"key_2_name", "deleted": "true"},{"key":"key_nonexisting", "deleted": "true"}]"#
    );
}

#[test]
fn repeated_deletion_gets_the_same_answer() {
    let keys = vec!["a".to_string(), "b".to_string()];
    let first = collect_delete_results(
        &keys,
        vec![
            delete_file_result("a".to_string(), DeleteOutcome::Removed),
            delete_file_result("b".to_string(), DeleteOutcome::Missing),
        ],
    );
    let second = collect_delete_results(
        &keys,
        vec![
            delete_file_result("a".to_string(), DeleteOutcome::Missing),
            delete_file_result("b".to_string(), DeleteOutcome::Missing),
        ],
    );
    assert_eq!(
        delete_response(&first.deleted, &first.failed, true),
        delete_response(&second.deleted, &second.failed, true)
    );
}

#[test]
fn failed_deletion_names_its_key() {
    let keys = vec!["a".to_string(), "k".to_string()];
    let results = vec![
        Ok("a".to_string()),
        delete_file_result("k".to_string(), DeleteOutcome::Failed),
    ];
    let out = collect_delete_results(&keys, results);
    assert_eq!(out.deleted, vec!["a".to_string()]);
    assert_eq!(out.failed, vec!["k".to_string()]);
    assert_eq!(
        delete_response(&out.deleted, &out.failed, true),
        r#"[{"key":"a", "deleted": "true"},{"key":"k", "deleted": "false"}]"#
    );
}

#[test]
fn single_deletion_is_answered_with_one_object() {
    let keys = vec!["k".to_string()];
    let out = collect_delete_results(&keys, vec![delete_file_result("k".to_string(), DeleteOutcome::Missing)]);
    assert_eq!(
        delete_response(&out.deleted, &out.failed, false),
        r#"{"key":"k", "deleted": "true"}"#
    );
}

#[test]
fn only_deleted_keys_leave_the_cache() {
    assert_eq!(cache_eviction(&Ok("k".to_string())), Some("k".to_string()));
    assert_eq!(cache_eviction(&Err(Status::NotModified)), None);
    assert_eq!(cache_eviction(&Err(Status::InternalServerError)), None);
}

#[test]
fn status_codes() {
    assert_eq!(Status::NotModified.code(), 304);
    assert_eq!(Status::BadRequest.code(), 400);
    assert_eq!(Status::NotFound.code(), 404);
    assert_eq!(Status::InternalServerError.code(), 500);
}
