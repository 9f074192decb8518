use key_value_store_ssd::file_system::operations::{
    keys_from_listing, lock_index, read_file_result, write_file_result, FileGateway, ReadOutcome,
    WriteOutcome, NUMBER_OF_LOCKS,
};
use key_value_store_ssd::http_server::get_keys::{get_keys_result, keys_response, ListingOutcome};
use key_value_store_ssd::http_server::server::{Key, Status};

#[test]
fn lock_index_is_byte_length_modulo_lock_count() {
    assert_eq!(NUMBER_OF_LOCKS, 10);
    assert_eq!(lock_index(""), 0);
    assert_eq!(lock_index("abc"), 3);
    assert_eq!(lock_index("key_1_name"), 0);
    assert_eq!(lock_index("key_non_existing"), 6);
    // two bytes per character
    assert_eq!(lock_index("ключ"), 8);
}

#[test]
fn keys_of_equal_length_share_a_lock() {
    assert_eq!(lock_index("abcd"), lock_index("wxyz"));
}

#[test]
fn read_and_write_locks_of_a_key_exclude_each_other() {
    let gw = FileGateway::new("./ssd".to_string());
    {
        let _w = gw.write_lock_key("abcd").unwrap().unwrap();
        // the same lock guards every key of four bytes, for readers and writers
        assert!(gw.read_lock_key("abcd").is_none());
        assert!(gw.read_lock_key("wxyz").is_none());
        assert!(gw.write_lock_key("wxyz").is_none());
        // another key of another length is guarded by another lock
        assert!(gw.read_lock_key("abc").unwrap().is_ok());
    }
    let r1 = gw.read_lock_key("abcd").unwrap().unwrap();
    let r2 = gw.read_lock_key("wxyz").unwrap().unwrap();
    assert!(gw.write_lock_key("wxyz").is_none());
    drop(r1);
    drop(r2);
    assert!(gw.write_lock_key("wxyz").unwrap().is_ok());
}

#[test]
fn key_path_and_pattern() {
    let gw = FileGateway::new("./ssd".to_string());
    assert_eq!(gw.store_location(), "./ssd");
    assert_eq!(gw.key_path("key_1_name"), "./ssd/key_1_name");
    assert_eq!(gw.prefix_pattern("key"), "./ssd/key*");
    assert_eq!(gw.prefix_pattern(""), "./ssd/*");
}

#[test]
fn write_results() {
    assert_eq!(write_file_result(WriteOutcome::Written), Ok(()));
    assert_eq!(write_file_result(WriteOutcome::LockPoisoned), Err("Error".to_string()));
    assert_eq!(
        write_file_result(WriteOutcome::OpenFailed("File exists (os error 17)".to_string())),
        Err("Failed to create key file open options with error File exists (os error 17)".to_string())
    );
    assert_eq!(
        write_file_result(WriteOutcome::WriteFailed("No space left on device".to_string())),
        Err("Failed to create key file with error No space left on device".to_string())
    );
}

#[test]
fn read_results() {
    let ok = read_file_result("k".to_string(), ReadOutcome::Contents("v".to_string())).unwrap();
    assert_eq!((ok.key.as_str(), ok.value.as_str()), ("k", "v"));
    assert_eq!(read_file_result("k".to_string(), ReadOutcome::Missing).unwrap_err(), Status::NotFound);
    assert_eq!(read_file_result("k".to_string(), ReadOutcome::Unreadable).unwrap_err(), Status::NotFound);
    assert_eq!(
        read_file_result("k".to_string(), ReadOutcome::LockPoisoned).unwrap_err(),
        Status::InternalServerError
    );
}

#[test]
fn listing_skips_unreadable_entries() {
    let keys = keys_from_listing(vec![
        Some("key_1_name".to_string()),
        None,
        Some("key_3_name".to_string()),
    ]);
    let names: Vec<&str> = keys.iter().map(|k| k.key.as_str()).collect();
    assert_eq!(names, vec!["key_1_name", "key_3_name"]);
    assert!(keys_from_listing(vec![]).is_empty());
}

#[test]
fn key_listing_answers() {
    let listed = get_keys_result(ListingOutcome::Listed(Ok(vec![
        Key::new("key_1_name".to_string()),
        Key::new("key_3_name".to_string()),
    ])));
    assert_eq!(listed, Ok(r#"[{"key":"key_1_name"},{"key":"key_3_name"}]"#.to_string()));
    assert_eq!(get_keys_result(ListingOutcome::Listed(Ok(vec![]))), Ok("[]".to_string()));
    assert_eq!(get_keys_result(ListingOutcome::UnreadableBody), Err(Status::NotFound));
    assert_eq!(get_keys_result(ListingOutcome::TaskFailed), Err(Status::NotFound));
    assert_eq!(
        get_keys_result(ListingOutcome::Listed(Err(Status::InternalServerError))),
        Err(Status::NotFound)
    );
}

#[test]
fn keys_are_written_as_json_strings() {
    let keys = vec![Key::new("a\"b".to_string()), Key::new("c\\d".to_string())];
    assert_eq!(keys_response(&keys), r#"[{"key":"a\"b"},{"key":"c\\d"}]"#);
    let controls = vec![Key::new("t\tn\nb\u{8}f\u{c}r\rx\u{1}y\u{1f}".to_string())];
    assert_eq!(
        keys_response(&controls),
        r#"[{"key":"t\tn\nb\bf\fr\rx\u0001y\u001f"}]"#
    );
}
