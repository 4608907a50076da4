use mock_gateway::coerce::{coerce_read, row_record, storage_class_of, StorageClass, StoredValue};
use mock_gateway::json::{bind_param_of, BindParam, JsonValue};
use mock_gateway::lifecycle::{bind_error_message, conn_string, connect_error_message,
    db_path_is_bare, start_message, ServerSlot};
use mock_gateway::pagination::{page_count, page_offset, parse_pagination};
use mock_gateway::routes::{build_route_table, normalize_prefix, RouteConfig};
use mock_gateway::sqlgen::{count_sql, delete_sql, insert_sql, list_sql, select_one_sql,
    update_sql};

fn cfg(path: &str, table: &str) -> RouteConfig {
    RouteConfig { path: path.to_string(), table_name: table.to_string() }
}

#[test]
fn longest_prefix_wins() {
    let rt = build_route_table(vec![cfg("/api", "t1"), cfg("/api/users", "t2")]).unwrap();
    let (table, residual) = rt.resolve("/api/users/5").unwrap();
    assert_eq!(table, "t2");
    assert_eq!(residual, "5");
    let (table, residual) = rt.resolve("/api/other").unwrap();
    assert_eq!(table, "t1");
    assert_eq!(residual, "other");
    assert!(rt.resolve("/nope").is_none());
    assert!(rt.resolve("/apix").is_none());
}

#[test]
fn resolve_collection_and_item() {
    let rt = build_route_table(vec![cfg("/items", "items")]).unwrap();
    let (table, residual) = rt.resolve("/items").unwrap();
    assert_eq!(table, "items");
    assert_eq!(residual, "");
    let (_, residual) = rt.resolve("/items/42").unwrap();
    assert_eq!(residual, "42");
    let (_, residual) = rt.resolve("/items//42").unwrap();
    assert_eq!(residual, "42");
}

#[test]
fn root_route_matches_only_root() {
    let rt = build_route_table(vec![cfg("/", "root")]).unwrap();
    let (table, residual) = rt.resolve("/").unwrap();
    assert_eq!(table, "root");
    assert_eq!(residual, "");
    assert!(rt.resolve("/x").is_none());
}

#[test]
fn prefix_normalization() {
    assert_eq!(normalize_prefix("users"), "/users");
    assert_eq!(normalize_prefix("/users"), "/users");
    assert_eq!(normalize_prefix("/users/"), "/users");
    assert_eq!(normalize_prefix("/users//"), "/users");
    assert_eq!(normalize_prefix(""), "/");
    assert_eq!(normalize_prefix("/"), "/");
}

#[test]
fn duplicate_prefix_last_registration_wins() {
    let rt = build_route_table(vec![cfg("/a", "t1"), cfg("/a", "t2")]).unwrap();
    let (table, _) = rt.resolve("/a").unwrap();
    assert_eq!(table, "t2");
}

#[test]
fn invalid_table_name_rejected_at_build() {
    let err = build_route_table(vec![cfg("/a", "bad;name")]).unwrap_err();
    assert_eq!(err, "Invalid table name: bad;name");
    assert!(build_route_table(vec![cfg("/a", "")]).is_err());
    assert!(build_route_table(vec![cfg("/a", "ok_name_9")]).is_ok());
}

#[test]
fn pagination_parsing() {
    assert_eq!(parse_pagination(Some("page=2&pageSize=5"), 20), (2, 5));
    assert_eq!(parse_pagination(None, 20), (1, 20));
    assert_eq!(parse_pagination(Some(""), 20), (1, 20));
    assert_eq!(parse_pagination(Some("pageSize=7"), 20), (1, 7));
    assert_eq!(parse_pagination(Some("foo=1&page=3"), 20), (3, 20));
}

#[test]
fn pagination_fallbacks() {
    // A malformed value falls back to the defaults entirely.
    assert_eq!(parse_pagination(Some("page=abc"), 20), (1, 20));
    assert_eq!(parse_pagination(Some("page=abc&pageSize=5"), 20), (1, 20));
    // A repeated key is malformed too.
    assert_eq!(parse_pagination(Some("page=2&page=3"), 20), (1, 20));
    // Supplied zeroes are clamped to 1.
    assert_eq!(parse_pagination(Some("page=0&pageSize=0"), 20), (1, 1));
    // A zero default is clamped as well.
    assert_eq!(parse_pagination(None, 0), (1, 1));
    // Out-of-range numbers are malformed.
    assert_eq!(parse_pagination(Some("page=99999999999"), 20), (1, 20));
}

#[test]
fn page_count_formula() {
    assert_eq!(page_count(25, 10), 3);
    assert_eq!(page_count(0, 10), 0);
    assert_eq!(page_count(12, 5), 3);
    assert_eq!(page_count(10, 10), 1);
    assert_eq!(page_count(11, 10), 2);
    assert_eq!(page_count(-3, 10), 0);
}

#[test]
fn page_offset_formula() {
    assert_eq!(page_offset(1, 20), 0);
    assert_eq!(page_offset(2, 5), 5);
    assert_eq!(page_offset(3, 10), 20);
}

#[test]
fn sql_text_fixed_operations() {
    assert_eq!(count_sql("items"), "SELECT COUNT(*) as count FROM \"items\"");
    assert_eq!(list_sql("items"), "SELECT * FROM \"items\" LIMIT ? OFFSET ?");
    assert_eq!(select_one_sql("items"), "SELECT * FROM \"items\" WHERE id = ?");
    assert_eq!(delete_sql("items"), "DELETE FROM \"items\" WHERE id = ?");
}

#[test]
fn sql_text_insert_and_update() {
    let cols = vec!["name".to_string(), "age".to_string()];
    assert_eq!(
        insert_sql("items", &cols),
        "INSERT INTO \"items\" (\"name\", \"age\") VALUES (?, ?) RETURNING *"
    );
    assert_eq!(
        update_sql("items", &cols),
        "UPDATE \"items\" SET \"name\" = ?, \"age\" = ? WHERE id = ? RETURNING *"
    );
    let none: Vec<String> = vec![];
    assert_eq!(insert_sql("items", &none), "INSERT INTO \"items\" () VALUES () RETURNING *");
}

#[test]
fn storage_class_names() {
    assert_eq!(storage_class_of("INTEGER"), StorageClass::Integer);
    assert_eq!(storage_class_of("REAL"), StorageClass::Real);
    assert_eq!(storage_class_of("TEXT"), StorageClass::Text);
    assert_eq!(storage_class_of("BOOLEAN"), StorageClass::Boolean);
    assert_eq!(storage_class_of("BLOB"), StorageClass::Other);
    assert_eq!(storage_class_of("integer"), StorageClass::Other);
}

#[test]
fn null_is_null_in_every_class() {
    for class in [
        StorageClass::Integer,
        StorageClass::Real,
        StorageClass::Text,
        StorageClass::Boolean,
        StorageClass::Other,
    ] {
        assert_eq!(coerce_read(class, &None), JsonValue::Null);
    }
}

#[test]
fn read_coercion_by_class() {
    assert_eq!(coerce_read(StorageClass::Integer, &Some(StoredValue::Int(7))), JsonValue::Int(7));
    assert_eq!(coerce_read(StorageClass::Real, &Some(StoredValue::Real(99))), JsonValue::Real(99));
    assert_eq!(
        coerce_read(StorageClass::Text, &Some(StoredValue::Text("hi".to_string()))),
        JsonValue::Str("hi".to_string())
    );
    assert_eq!(
        coerce_read(StorageClass::Boolean, &Some(StoredValue::Bool(true))),
        JsonValue::Bool(true)
    );
    // An unrecognized class is lossy: null whatever the value.
    assert_eq!(coerce_read(StorageClass::Other, &Some(StoredValue::Int(7))), JsonValue::Null);
    // A value of the wrong shape degrades to null too.
    assert_eq!(coerce_read(StorageClass::Integer, &Some(StoredValue::Bool(true))), JsonValue::Null);
}

#[test]
fn row_record_keeps_column_order() {
    let row = vec![
        ("id".to_string(), StorageClass::Integer, Some(StoredValue::Int(1))),
        ("name".to_string(), StorageClass::Text, Some(StoredValue::Text("a".to_string()))),
        ("gone".to_string(), StorageClass::Text, None),
    ];
    let rec = row_record(&row);
    match rec {
        JsonValue::Obj(pairs) => {
            assert_eq!(pairs.len(), 3);
            assert_eq!(pairs[0], ("id".to_string(), JsonValue::Int(1)));
            assert_eq!(pairs[1], ("name".to_string(), JsonValue::Str("a".to_string())));
            assert_eq!(pairs[2], ("gone".to_string(), JsonValue::Null));
        },
        other => panic!("not an object: {:?}", other),
    }
}

#[test]
fn bind_parameter_choice() {
    assert_eq!(bind_param_of(JsonValue::Null), BindParam::Null);
    assert_eq!(bind_param_of(JsonValue::Bool(false)), BindParam::Bool(false));
    assert_eq!(bind_param_of(JsonValue::Int(-5)), BindParam::Int(-5));
    assert_eq!(
        bind_param_of(JsonValue::Uint(u64::MAX)),
        BindParam::Text("18446744073709551615".to_string())
    );
    assert_eq!(bind_param_of(JsonValue::Real(4614256656552045848)), BindParam::Real(4614256656552045848));
    assert_eq!(
        bind_param_of(JsonValue::Str("x".to_string())),
        BindParam::Text("x".to_string())
    );
    let arr = JsonValue::Arr(vec![JsonValue::Int(1)]);
    assert_eq!(bind_param_of(JsonValue::Arr(vec![JsonValue::Int(1)])), BindParam::TextJson(arr));
    let obj = JsonValue::Obj(vec![("k".to_string(), JsonValue::Null)]);
    assert_eq!(
        bind_param_of(JsonValue::Obj(vec![("k".to_string(), JsonValue::Null)])),
        BindParam::TextJson(obj)
    );
}

#[test]
fn stop_twice_both_succeed() {
    let mut slot = ServerSlot::new();
    slot.commit_start(7);
    let (token, msg) = slot.stop();
    assert_eq!(token, Some(7));
    assert_eq!(msg, "Server stopped");
    let (token, msg) = slot.stop();
    assert_eq!(token, None);
    assert_eq!(msg, "No server running");
}

#[test]
fn stop_on_fresh_slot_succeeds() {
    let mut slot = ServerSlot::new();
    let (token, msg) = slot.stop();
    assert_eq!(token, None);
    assert_eq!(msg, "No server running");
}

#[test]
fn start_teardown_and_commit() {
    let mut slot = ServerSlot::new();
    assert_eq!(slot.take_current(), None);
    slot.commit_start(1);
    // A restart tears the old instance down before the new one is up.
    assert_eq!(slot.take_current(), Some(1));
    slot.commit_start(2);
    let (token, _) = slot.stop();
    assert_eq!(token, Some(2));
}

#[test]
fn lifecycle_messages() {
    assert_eq!(start_message(8080), "Server started on port 8080");
    assert_eq!(bind_error_message(80, "in use"), "Failed to bind port 80: in use");
    assert_eq!(
        connect_error_message("/tmp/x.db", "no such file"),
        "Failed to connect to DB at /tmp/x.db: no such file"
    );
    assert_eq!(conn_string("/tmp/x.db"), "sqlite:/tmp/x.db");
}

#[test]
fn db_path_resolution_rule() {
    assert!(db_path_is_bare("data.db"));
    assert!(!db_path_is_bare("a/b.db"));
    assert!(!db_path_is_bare("C:\\data.db"));
    assert!(!db_path_is_bare("/abs/path.db"));
}
