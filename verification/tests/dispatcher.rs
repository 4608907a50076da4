use mock_gateway::coerce::{row_record, StorageClass, StoredValue};
use mock_gateway::dispatch::{create_response, delete_response, error_response, get_one_response,
    list_response, plan_request, total_of_count, update_response, Method, Plan, Response};
use mock_gateway::json::{BindParam, JsonValue};
use mock_gateway::routes::{build_route_table, RouteConfig, RouteTable};

fn table() -> RouteTable {
    build_route_table(vec![
        RouteConfig { path: "/items".to_string(), table_name: "items".to_string() },
    ])
    .unwrap()
}

fn field<'a>(rec: &'a JsonValue, key: &str) -> &'a JsonValue {
    match rec {
        JsonValue::Obj(pairs) => {
            for (k, v) in pairs {
                if k == key {
                    return v;
                }
            }
            panic!("no field {:?}", key);
        },
        other => panic!("not an object: {:?}", other),
    }
}

fn item_row(id: i64, name: &str, age: i64) -> JsonValue {
    row_record(&vec![
        ("id".to_string(), StorageClass::Integer, Some(StoredValue::Int(id))),
        ("name".to_string(), StorageClass::Text, Some(StoredValue::Text(name.to_string()))),
        ("age".to_string(), StorageClass::Integer, Some(StoredValue::Int(age))),
    ])
}

#[test]
fn unmatched_path_is_refused_before_method_dispatch() {
    let rt = table();
    for method in [Method::Get, Method::Post, Method::Put, Method::Delete, Method::Other] {
        match plan_request(&rt, 20, method, "/nope", None, None) {
            Plan::Reply(resp) => {
                assert_eq!(resp, error_response(404, "Route not found"));
            },
            other => panic!("expected a reply, got {:?}", other),
        }
    }
}

#[test]
fn get_collection_plans_a_paginated_list() {
    let rt = table();
    match plan_request(&rt, 20, Method::Get, "/items", Some("page=2&pageSize=5"), None) {
        Plan::List { count_sql, select_sql, page, page_size, offset } => {
            assert_eq!(count_sql, "SELECT COUNT(*) as count FROM \"items\"");
            assert_eq!(select_sql, "SELECT * FROM \"items\" LIMIT ? OFFSET ?");
            assert_eq!(page, 2);
            assert_eq!(page_size, 5);
            assert_eq!(offset, 5);
        },
        other => panic!("expected a list plan, got {:?}", other),
    }
}

#[test]
fn list_without_query_uses_the_configured_default() {
    let rt = table();
    match plan_request(&rt, 20, Method::Get, "/items", None, None) {
        Plan::List { page, page_size, offset, .. } => {
            assert_eq!(page, 1);
            assert_eq!(page_size, 20);
            assert_eq!(offset, 0);
        },
        other => panic!("expected a list plan, got {:?}", other),
    }
}

#[test]
fn post_ignores_the_residual_segment() {
    let rt = table();
    let body = JsonValue::Obj(vec![("age".to_string(), JsonValue::Int(4))]);
    match plan_request(&rt, 20, Method::Post, "/items/9", None, Some(body)) {
        Plan::Create { sql, .. } => {
            assert_eq!(sql, "INSERT INTO \"items\" (\"age\") VALUES (?) RETURNING *");
        },
        other => panic!("expected a create plan, got {:?}", other),
    }
}

#[test]
fn get_item_plans_a_lookup() {
    let rt = table();
    match plan_request(&rt, 20, Method::Get, "/items/42", None, None) {
        Plan::GetOne { sql, id } => {
            assert_eq!(sql, "SELECT * FROM \"items\" WHERE id = ?");
            assert_eq!(id, "42");
        },
        other => panic!("expected a get-one plan, got {:?}", other),
    }
}

#[test]
fn post_requires_an_object_body() {
    let rt = table();
    match plan_request(&rt, 20, Method::Post, "/items", None, None) {
        Plan::Reply(resp) => assert_eq!(resp, error_response(400, "Missing body")),
        other => panic!("expected a reply, got {:?}", other),
    }
    match plan_request(&rt, 20, Method::Post, "/items", None, Some(JsonValue::Int(3))) {
        Plan::Reply(resp) => assert_eq!(resp, error_response(400, "Body must be an object")),
        other => panic!("expected a reply, got {:?}", other),
    }
}

#[test]
fn post_rejects_a_crafted_column_name() {
    let rt = table();
    let body = JsonValue::Obj(vec![
        ("name\" , \"oops".to_string(), JsonValue::Int(1)),
    ]);
    match plan_request(&rt, 20, Method::Post, "/items", None, Some(body)) {
        Plan::Reply(resp) => assert_eq!(resp, error_response(400, "Invalid column name")),
        other => panic!("expected a reply, got {:?}", other),
    }
}

#[test]
fn post_plans_an_insert_in_key_order() {
    let rt = table();
    let body = JsonValue::Obj(vec![
        ("name".to_string(), JsonValue::Str("a".to_string())),
        ("age".to_string(), JsonValue::Int(3)),
    ]);
    match plan_request(&rt, 20, Method::Post, "/items", None, Some(body)) {
        Plan::Create { sql, params } => {
            assert_eq!(sql, "INSERT INTO \"items\" (\"name\", \"age\") VALUES (?, ?) RETURNING *");
            assert_eq!(
                params,
                vec![BindParam::Text("a".to_string()), BindParam::Int(3)]
            );
        },
        other => panic!("expected a create plan, got {:?}", other),
    }
}

#[test]
fn collection_put_and_delete_are_rejected() {
    let rt = table();
    for method in [Method::Put, Method::Delete] {
        match plan_request(&rt, 20, method, "/items", None, None) {
            Plan::Reply(resp) => {
                assert_eq!(resp, error_response(405, "Method not allowed on collection"));
            },
            other => panic!("expected a reply, got {:?}", other),
        }
    }
    // Still rejected with a body supplied and a query attached.
    let body = JsonValue::Obj(vec![("a".to_string(), JsonValue::Int(1))]);
    match plan_request(&rt, 20, Method::Put, "/items", Some("page=1"), Some(body)) {
        Plan::Reply(resp) => {
            assert_eq!(resp, error_response(405, "Method not allowed on collection"));
        },
        other => panic!("expected a reply, got {:?}", other),
    }
}

#[test]
fn put_item_plans_an_update_with_trailing_id() {
    let rt = table();
    let body = JsonValue::Obj(vec![("age".to_string(), JsonValue::Int(4))]);
    match plan_request(&rt, 20, Method::Put, "/items/9", None, Some(body)) {
        Plan::Update { sql, params } => {
            assert_eq!(sql, "UPDATE \"items\" SET \"age\" = ? WHERE id = ? RETURNING *");
            assert_eq!(params, vec![BindParam::Int(4), BindParam::Text("9".to_string())]);
        },
        other => panic!("expected an update plan, got {:?}", other),
    }
}

#[test]
fn delete_item_plans_a_delete() {
    let rt = table();
    match plan_request(&rt, 20, Method::Delete, "/items/9", None, None) {
        Plan::Delete { sql, id } => {
            assert_eq!(sql, "DELETE FROM \"items\" WHERE id = ?");
            assert_eq!(id, "9");
        },
        other => panic!("expected a delete plan, got {:?}", other),
    }
}

#[test]
fn unsupported_verb_is_rejected() {
    let rt = table();
    match plan_request(&rt, 20, Method::Other, "/items/9", None, None) {
        Plan::Reply(resp) => assert_eq!(resp, error_response(405, "Method not allowed")),
        other => panic!("expected a reply, got {:?}", other),
    }
}

#[test]
fn list_response_meta_arithmetic() {
    // 12 rows at 5 per page, second page: rows 6 through 10 in store order.
    let rows: Vec<JsonValue> = (6..=10).map(|i| item_row(i, "n", i)).collect();
    let expected: Vec<JsonValue> = (6..=10).map(|i| item_row(i, "n", i)).collect();
    let resp = list_response(2, 5, 12, Ok(rows));
    assert_eq!(resp.status, 200);
    assert_eq!(field(&resp.body, "data"), &JsonValue::Arr(expected));
    let meta = field(&resp.body, "meta");
    let pg = field(meta, "pagination");
    assert_eq!(field(pg, "page"), &JsonValue::Int(2));
    assert_eq!(field(pg, "pageSize"), &JsonValue::Int(5));
    assert_eq!(field(pg, "pageCount"), &JsonValue::Int(3));
    assert_eq!(field(pg, "total"), &JsonValue::Int(12));
}

#[test]
fn page_beyond_the_last_keeps_the_total() {
    let resp = list_response(4, 5, 12, Ok(vec![]));
    assert_eq!(resp.status, 200);
    assert_eq!(field(&resp.body, "data"), &JsonValue::Arr(vec![]));
    let pg = field(field(&resp.body, "meta"), "pagination");
    assert_eq!(field(pg, "total"), &JsonValue::Int(12));
    assert_eq!(field(pg, "pageCount"), &JsonValue::Int(3));
}

#[test]
fn count_failure_degrades_total_to_zero() {
    assert_eq!(total_of_count(Ok(25)), 25);
    assert_eq!(total_of_count(Err("boom".to_string())), 0);
    let resp = list_response(1, 10, total_of_count(Err("boom".to_string())), Ok(vec![]));
    let pg = field(field(&resp.body, "meta"), "pagination");
    assert_eq!(field(pg, "total"), &JsonValue::Int(0));
    assert_eq!(field(pg, "pageCount"), &JsonValue::Int(0));
}

#[test]
fn store_errors_become_500_with_the_message() {
    let resp = list_response(1, 10, 0, Err("disk gone".to_string()));
    assert_eq!(resp, Response { status: 500, body: error_response(500, "disk gone").body });
    let resp = get_one_response(Err("disk gone".to_string()));
    assert_eq!(resp.status, 500);
    let resp = delete_response(Err("disk gone".to_string()));
    assert_eq!(resp.status, 500);
    assert_eq!(resp.body, error_response(500, "disk gone").body);
}

#[test]
fn create_then_get_round_trip() {
    let rt = table();
    // POST /items {"name":"a","age":3}
    let body = JsonValue::Obj(vec![
        ("name".to_string(), JsonValue::Str("a".to_string())),
        ("age".to_string(), JsonValue::Int(3)),
    ]);
    let plan = plan_request(&rt, 20, Method::Post, "/items", None, Some(body));
    let (name_param, age_param) = match plan {
        Plan::Create { params, .. } => {
            let name = match &params[0] {
                BindParam::Text(s) => s.clone(),
                other => panic!("expected a text parameter, got {:?}", other),
            };
            let age = match &params[1] {
                BindParam::Int(i) => *i,
                other => panic!("expected an integer parameter, got {:?}", other),
            };
            (name, age)
        },
        other => panic!("expected a create plan, got {:?}", other),
    };
    // The store inserts the row and returns it with its assigned id.
    let created = item_row(1, &name_param, age_param);
    let resp = create_response(Ok(created));
    assert_eq!(resp.status, 201);
    let id = match field(&resp.body, "id") {
        JsonValue::Int(i) => *i,
        other => panic!("unexpected id {:?}", other),
    };
    // GET /items/{returned id}
    let path = format!("/items/{}", id);
    let fetched = match plan_request(&rt, 20, Method::Get, &path, None, None) {
        Plan::GetOne { id, .. } => {
            assert_eq!(id, "1");
            item_row(1, "a", 3)
        },
        other => panic!("expected a get-one plan, got {:?}", other),
    };
    let resp = get_one_response(Ok(Some(fetched)));
    assert_eq!(resp.status, 200);
    assert_eq!(field(&resp.body, "name"), &JsonValue::Str("a".to_string()));
    assert_eq!(field(&resp.body, "age"), &JsonValue::Int(3));
}

#[test]
fn delete_semantics() {
    // Deleting a nonexistent id: no row affected.
    let resp = delete_response(Ok(0));
    assert_eq!(resp, error_response(404, "Not found"));
    // Deleting an existing id.
    let resp = delete_response(Ok(1));
    assert_eq!(resp.status, 200);
    assert_eq!(
        resp.body,
        JsonValue::Obj(vec![("success".to_string(), JsonValue::Bool(true))])
    );
    // A subsequent fetch of the deleted id finds nothing.
    let resp = get_one_response(Ok(None));
    assert_eq!(resp, error_response(404, "Not found"));
}

#[test]
fn update_of_a_missing_row_is_not_found() {
    let resp = update_response(Ok(None));
    assert_eq!(resp, error_response(404, "Not found"));
    let resp = update_response(Ok(Some(item_row(1, "b", 4))));
    assert_eq!(resp.status, 200);
    assert_eq!(field(&resp.body, "name"), &JsonValue::Str("b".to_string()));
}
