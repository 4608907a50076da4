//! The request dispatcher: a state machine keyed by the HTTP method and
//! whether the residual path segment is empty. It turns one inbound
//! request into either an immediate reply or a store plan (statement
//! text plus ordered parameters), and shapes every store outcome into
//! an HTTP status and JSON body.

use vstd::prelude::*;
use crate::json::{bind_param_of, bind_rel, BindParam, JsonValue};
use crate::pagination::{page_count, page_offset, parse_pagination, spec_page_count,
    spec_pagination};
use crate::routes::{spec_resolve, RouteTable};
use crate::sqlgen::{all_identifiers, col_views, count_sql, delete_sql, insert_sql, list_sql,
    select_one_sql, spec_count_sql, spec_delete_sql, spec_insert_sql, spec_list_sql,
    spec_select_one_sql, spec_update_sql, update_sql};
use crate::strutil::{check_identifier, is_identifier};

verus! {

/// The request methods the gateway distinguishes; everything else is
/// answered with the method-not-allowed reply.
#[derive(Clone, Copy, Debug, PartialEq, Eq, Structural)]
pub enum Method {
    Get,
    Post,
    Put,
    Delete,
    Other,
}

/// One HTTP response: a status code and a JSON body.
#[derive(Debug, PartialEq)]
pub struct Response {
    pub status: u16,
    pub body: JsonValue,
}

/// What one request requires of the store, or the immediate reply when
/// no store access is needed. Parameters are always bound, never
/// interpolated; identifiers always interpolated, after validation.
#[derive(Debug, PartialEq)]
pub enum Plan {
    Reply(Response),
    List { count_sql: String, select_sql: String, page: u32, page_size: u32, offset: u64 },
    GetOne { sql: String, id: String },
    Create { sql: String, params: Vec<BindParam> },
    Update { sql: String, params: Vec<BindParam> },
    Delete { sql: String, id: String },
}

/// A body of the shape `{"error": msg}`.
pub open spec fn is_error_body(v: JsonValue, msg: Seq<char>) -> bool {
    &&& v matches JsonValue::Obj(ps)
    &&& ps@.len() == 1
    &&& ps@[0].0@ == "error"@
    &&& ps@[0].1 matches JsonValue::Str(s)
    &&& s@ == msg
}

/// A body of the shape `{"success": true}`.
pub open spec fn is_success_body(v: JsonValue) -> bool {
    v matches JsonValue::Obj(ps) && ps@.len() == 1 && ps@[0].0@ == "success"@ && ps@[0].1
        == JsonValue::Bool(true)
}

/// A list body: `{"data": rows, "meta": {"pagination": {...}}}`.
pub open spec fn is_list_body(
    v: JsonValue,
    rows: Seq<JsonValue>,
    page: u32,
    page_size: u32,
    count: int,
    total: i64,
) -> bool {
    &&& v matches JsonValue::Obj(ps)
    &&& ps@.len() == 2
    &&& ps@[0].0@ == "data"@
    &&& ps@[0].1 matches JsonValue::Arr(rs)
    &&& rs@ == rows
    &&& ps@[1].0@ == "meta"@
    &&& ps@[1].1 matches JsonValue::Obj(ms)
    &&& ms@.len() == 1
    &&& ms@[0].0@ == "pagination"@
    &&& ms@[0].1 matches JsonValue::Obj(pg)
    &&& pg@.len() == 4
    &&& pg@[0].0@ == "page"@
    &&& pg@[0].1 == JsonValue::Int(page as i64)
    &&& pg@[1].0@ == "pageSize"@
    &&& pg@[1].1 == JsonValue::Int(page_size as i64)
    &&& pg@[2].0@ == "pageCount"@
    &&& pg@[2].1 == JsonValue::Int(count as i64)
    &&& pg@[3].0@ == "total"@
    &&& pg@[3].1 == JsonValue::Int(total)
}

pub open spec fn reply_error(r: Plan, status: int, msg: Seq<char>) -> bool {
    r matches Plan::Reply(resp) && resp.status == status && is_error_body(resp.body, msg)
}

/// The key views of a JSON object's entries, in iteration order.
pub open spec fn keys_of(pairs: Seq<(String, JsonValue)>) -> Seq<Seq<char>> {
    Seq::new(pairs.len(), |i: int| pairs[i].0@)
}

/// The bound parameters are the object's values in key order.
pub open spec fn params_match(pairs: Seq<(String, JsonValue)>, params: Seq<BindParam>) -> bool {
    params.len() == pairs.len() && forall|i: int|
        0 <= i < pairs.len() ==> bind_rel(pairs[i].1, #[trigger] params[i])
}

/// What a create (POST) does with a body: a missing body and a
/// non-object body are client errors, a key failing the identifier
/// check is a client error, and otherwise the insert plan carries the
/// object's keys and values in iteration order.
pub open spec fn create_plan_ok(table: Seq<char>, body: Option<JsonValue>, r: Plan) -> bool {
    match body {
        None => reply_error(r, 400, "Missing body"@),
        Some(b) => match b {
            JsonValue::Obj(pairs) => if all_identifiers(keys_of(pairs@)) {
                r matches Plan::Create { sql, params } && sql@ == spec_insert_sql(
                    table,
                    keys_of(pairs@),
                ) && params_match(pairs@, params@)
            } else {
                reply_error(r, 400, "Invalid column name"@)
            },
            _ => reply_error(r, 400, "Body must be an object"@),
        },
    }
}

/// What an update (PUT on an item) does with a body: like create, with
/// the identifier appended as the final bound parameter.
pub open spec fn update_plan_ok(
    table: Seq<char>,
    residual: Seq<char>,
    body: Option<JsonValue>,
    r: Plan,
) -> bool {
    match body {
        None => reply_error(r, 400, "Missing body"@),
        Some(b) => match b {
            JsonValue::Obj(pairs) => if all_identifiers(keys_of(pairs@)) {
                &&& r matches Plan::Update { sql, params }
                &&& sql@ == spec_update_sql(table, keys_of(pairs@))
                &&& params@.len() == pairs@.len() + 1
                &&& forall|i: int|
                    0 <= i < pairs@.len() ==> bind_rel(pairs@[i].1, #[trigger] params@[i])
                &&& params@.last() matches BindParam::Text(ids)
                &&& ids@ == residual
            } else {
                reply_error(r, 400, "Invalid column name"@)
            },
            _ => reply_error(r, 400, "Body must be an object"@),
        },
    }
}

/// The dispatch table. An unmatched path is refused before any method
/// dispatch; an empty residual selects the collection operations, a
/// nonempty one the item operations keyed by that identifier.
pub open spec fn plan_ok(
    routes: Seq<(Seq<char>, Seq<char>)>,
    dps: u32,
    method: Method,
    path: Seq<char>,
    query: Seq<char>,
    body: Option<JsonValue>,
    r: Plan,
) -> bool {
    match spec_resolve(routes, path) {
        None => reply_error(r, 404, "Route not found"@),
        Some(tr) => match method {
            Method::Get => if tr.1.len() == 0 {
                let ps = spec_pagination(query, dps);
                r matches Plan::List { count_sql, select_sql, page, page_size, offset }
                    && count_sql@ == spec_count_sql(tr.0) && select_sql@ == spec_list_sql(tr.0)
                    && page == ps.0 && page_size == ps.1 && offset == (ps.0 - 1) * ps.1
            } else {
                r matches Plan::GetOne { sql, id } && sql@ == spec_select_one_sql(tr.0) && id@
                    == tr.1
            },
            Method::Post => create_plan_ok(tr.0, body, r),
            Method::Put => if tr.1.len() == 0 {
                reply_error(r, 405, "Method not allowed on collection"@)
            } else {
                update_plan_ok(tr.0, tr.1, body, r)
            },
            Method::Delete => if tr.1.len() == 0 {
                reply_error(r, 405, "Method not allowed on collection"@)
            } else {
                r matches Plan::Delete { sql, id } && sql@ == spec_delete_sql(tr.0) && id@ == tr.1
            },
            Method::Other => reply_error(r, 405, "Method not allowed"@),
        },
    }
}

/// Builds the `{"error": msg}` reply.
pub fn error_response(status: u16, msg: &str) -> (r: Response)
    ensures
        r.status == status,
        is_error_body(r.body, msg@),
{
    let mut pairs: Vec<(String, JsonValue)> = Vec::new();
    pairs.push((String::from_str("error"), JsonValue::Str(msg.to_owned())));
    Response { status, body: JsonValue::Obj(pairs) }
}

#[verifier::loop_isolation(false)]
fn create_plan(table: &str, pairs: Vec<(String, JsonValue)>) -> (r: Plan)
    requires
        is_identifier(table@),
    ensures
        create_plan_ok(table@, Some(JsonValue::Obj(pairs)), r),
{
    let ghost orig = pairs@;
    let mut rest = pairs;
    let mut cols: Vec<String> = Vec::new();
    let mut params: Vec<BindParam> = Vec::new();
    while rest.len() > 0
        invariant
            cols@.len() == params@.len(),
            cols@.len() + rest@.len() == orig.len(),
            rest@ == orig.skip(cols@.len() as int),
            forall|j: int| 0 <= j < cols@.len() ==> (#[trigger] cols@[j]) == orig[j].0,
            forall|j: int| 0 <= j < cols@.len() ==> is_identifier((#[trigger] cols@[j])@),
            forall|j: int|
                0 <= j < params@.len() ==> bind_rel(orig[j].1, #[trigger] params@[j]),
        decreases rest.len(),
    {
        let ghost done = cols@.len() as int;
        let pr = rest.remove(0);
        proof {
            assert(pr == orig[done]);
            assert(rest@ =~= orig.skip(done + 1));
        }
        if !check_identifier(pr.0.as_str()) {
            proof {
                assert(keys_of(orig)[done] == orig[done].0@);
                assert(!all_identifiers(keys_of(orig)));
            }
            return Plan::Reply(error_response(400, "Invalid column name"));
        }
        cols.push(pr.0);
        params.push(bind_param_of(pr.1));
    }
    proof {
        assert forall|i: int|
            0 <= i < orig.len() implies is_identifier(#[trigger] keys_of(orig)[i]) && col_views(
            cols@,
        )[i] == keys_of(orig)[i] by {
            assert(cols@[i] == orig[i].0);
            assert(is_identifier(cols@[i]@));
        }
        assert(all_identifiers(keys_of(orig)));
        assert(col_views(cols@) =~= keys_of(orig));
    }
    let sql = insert_sql(table, &cols);
    Plan::Create { sql, params }
}

#[verifier::loop_isolation(false)]
fn update_plan(table: &str, residual: String, pairs: Vec<(String, JsonValue)>) -> (r: Plan)
    requires
        is_identifier(table@),
    ensures
        update_plan_ok(table@, residual@, Some(JsonValue::Obj(pairs)), r),
{
    let ghost orig = pairs@;
    let mut rest = pairs;
    let mut cols: Vec<String> = Vec::new();
    let mut params: Vec<BindParam> = Vec::new();
    while rest.len() > 0
        invariant
            cols@.len() == params@.len(),
            cols@.len() + rest@.len() == orig.len(),
            rest@ == orig.skip(cols@.len() as int),
            forall|j: int| 0 <= j < cols@.len() ==> (#[trigger] cols@[j]) == orig[j].0,
            forall|j: int| 0 <= j < cols@.len() ==> is_identifier((#[trigger] cols@[j])@),
            forall|j: int|
                0 <= j < params@.len() ==> bind_rel(orig[j].1, #[trigger] params@[j]),
        decreases rest.len(),
    {
        let ghost done = cols@.len() as int;
        let pr = rest.remove(0);
        proof {
            assert(pr == orig[done]);
            assert(rest@ =~= orig.skip(done + 1));
        }
        if !check_identifier(pr.0.as_str()) {
            proof {
                assert(keys_of(orig)[done] == orig[done].0@);
                assert(!all_identifiers(keys_of(orig)));
            }
            return Plan::Reply(error_response(400, "Invalid column name"));
        }
        cols.push(pr.0);
        params.push(bind_param_of(pr.1));
    }
    proof {
        assert forall|i: int|
            0 <= i < orig.len() implies is_identifier(#[trigger] keys_of(orig)[i]) && col_views(
            cols@,
        )[i] == keys_of(orig)[i] by {
            assert(cols@[i] == orig[i].0);
            assert(is_identifier(cols@[i]@));
        }
        assert(all_identifiers(keys_of(orig)));
        assert(col_views(cols@) =~= keys_of(orig));
    }
    let sql = update_sql(table, &cols);
    params.push(BindParam::Text(residual));
    Plan::Update { sql, params }
}

/// Plans one request: resolves the route, dispatches on method and
/// residual, and hands back either the reply or the store operation.
pub fn plan_request(
    rt: &RouteTable,
    default_page_size: u32,
    method: Method,
    path: &str,
    query: Option<&str>,
    body: Option<JsonValue>,
) -> (r: Plan)
    requires
        rt.wf(),
    ensures
        plan_ok(
            rt@,
            default_page_size,
            method,
            path@,
            match query {
                Some(q) => q@,
                None => Seq::empty(),
            },
            body,
            r,
        ),
{
    let resolved = rt.resolve(path);
    match resolved {
        None => Plan::Reply(error_response(404, "Route not found")),
        Some((table, residual)) => {
            proof {
                crate::routes::lemma_longest_prefix_match(rt@, path@);
                let b = choose|b: int|
                    0 <= b < rt@.len() && #[trigger] crate::routes::route_matches(rt@[b].0, path@)
                        && spec_resolve(rt@, path@) == Some(
                        (
                            rt@[b].1,
                            crate::routes::strip_leading_slashes(
                                path@.skip(rt@[b].0.len() as int),
                            ),
                        ),
                    );
                assert(is_identifier(table@));
            }
            match method {
                Method::Get => {
                    if residual.unicode_len() == 0 {
                        let ps = parse_pagination(query, default_page_size);
                        let offset = page_offset(ps.0, ps.1);
                        Plan::List {
                            count_sql: count_sql(table.as_str()),
                            select_sql: list_sql(table.as_str()),
                            page: ps.0,
                            page_size: ps.1,
                            offset,
                        }
                    } else {
                        Plan::GetOne { sql: select_one_sql(table.as_str()), id: residual }
                    }
                },
                Method::Post => {
                    match body {
                        None => Plan::Reply(error_response(400, "Missing body")),
                        Some(b) => match b {
                            JsonValue::Obj(pairs) => create_plan(table.as_str(), pairs),
                            _ => Plan::Reply(error_response(400, "Body must be an object")),
                        },
                    }
                },
                Method::Put => {
                    if residual.unicode_len() == 0 {
                        Plan::Reply(error_response(405, "Method not allowed on collection"))
                    } else {
                        match body {
                            None => Plan::Reply(error_response(400, "Missing body")),
                            Some(b) => match b {
                                JsonValue::Obj(pairs) => update_plan(
                                    table.as_str(),
                                    residual,
                                    pairs,
                                ),
                                _ => Plan::Reply(error_response(400, "Body must be an object")),
                            },
                        }
                    }
                },
                Method::Delete => {
                    if residual.unicode_len() == 0 {
                        Plan::Reply(error_response(405, "Method not allowed on collection"))
                    } else {
                        Plan::Delete { sql: delete_sql(table.as_str()), id: residual }
                    }
                },
                Method::Other => Plan::Reply(error_response(405, "Method not allowed")),
            }
        },
    }
}

/// Collection-level mutation rejection: on a matched route with an
/// empty residual, PUT and DELETE are always refused with 405,
/// independent of the table's contents, the query, and the body.
pub proof fn lemma_collection_mutation_rejected(
    routes: Seq<(Seq<char>, Seq<char>)>,
    dps: u32,
    method: Method,
    path: Seq<char>,
    query: Seq<char>,
    body: Option<JsonValue>,
    r: Plan,
)
    requires
        method == Method::Put || method == Method::Delete,
        spec_resolve(routes, path) matches Some(tr) && tr.1.len() == 0,
        plan_ok(routes, dps, method, path, query, body, r),
    ensures
        reply_error(r, 405, "Method not allowed on collection"@),
{
}

/// The best-effort total of a list request: a failed count degrades to
/// 0 rather than failing the request.
pub fn total_of_count(outcome: Result<i64, String>) -> (r: i64)
    ensures
        match outcome {
            Ok(t) => r == t,
            Err(_) => r == 0,
        },
{
    match outcome {
        Ok(t) => t,
        Err(_) => 0,
    }
}

/// Shapes the list response: rows with pagination meta on success, the
/// store's error text with status 500 on failure.
pub fn list_response(page: u32, page_size: u32, total: i64, rows: Result<Vec<JsonValue>, String>)
    -> (r: Response)
    requires
        page_size >= 1,
    ensures
        match rows {
            Ok(rs) => r.status == 200 && is_list_body(
                r.body,
                rs@,
                page,
                page_size,
                spec_page_count(total as int, page_size as int),
                total,
            ),
            Err(e) => r.status == 500 && is_error_body(r.body, e@),
        },
{
    match rows {
        Ok(rs) => {
            let count = page_count(total, page_size);
            let mut pg: Vec<(String, JsonValue)> = Vec::new();
            pg.push((String::from_str("page"), JsonValue::Int(page as i64)));
            pg.push((String::from_str("pageSize"), JsonValue::Int(page_size as i64)));
            pg.push((String::from_str("pageCount"), JsonValue::Int(count as i64)));
            pg.push((String::from_str("total"), JsonValue::Int(total)));
            let mut meta: Vec<(String, JsonValue)> = Vec::new();
            meta.push((String::from_str("pagination"), JsonValue::Obj(pg)));
            let mut ps: Vec<(String, JsonValue)> = Vec::new();
            ps.push((String::from_str("data"), JsonValue::Arr(rs)));
            ps.push((String::from_str("meta"), JsonValue::Obj(meta)));
            Response { status: 200, body: JsonValue::Obj(ps) }
        },
        Err(e) => Response { status: 500, body: error_obj(e) },
    }
}

fn error_obj(msg: String) -> (r: JsonValue)
    ensures
        is_error_body(r, msg@),
{
    let mut pairs: Vec<(String, JsonValue)> = Vec::new();
    pairs.push((String::from_str("error"), JsonValue::Str(msg)));
    JsonValue::Obj(pairs)
}

/// Shapes the get-one response: the record, the not-found reply, or the
/// store error.
pub fn get_one_response(row: Result<Option<JsonValue>, String>) -> (r: Response)
    ensures
        match row {
            Ok(v) => match v {
                Some(rec) => r.status == 200 && r.body == rec,
                None => r.status == 404 && is_error_body(r.body, "Not found"@),
            },
            Err(e) => r.status == 500 && is_error_body(r.body, e@),
        },
{
    match row {
        Ok(Some(rec)) => Response { status: 200, body: rec },
        Ok(None) => error_response(404, "Not found"),
        Err(e) => Response { status: 500, body: error_obj(e) },
    }
}

/// Shapes the create response: the created record with status 201, or
/// the store error.
pub fn create_response(row: Result<JsonValue, String>) -> (r: Response)
    ensures
        match row {
            Ok(rec) => r.status == 201 && r.body == rec,
            Err(e) => r.status == 500 && is_error_body(r.body, e@),
        },
{
    match row {
        Ok(rec) => Response { status: 201, body: rec },
        Err(e) => Response { status: 500, body: error_obj(e) },
    }
}

/// Shapes the update response: the updated record, the not-found reply
/// when no row matched, or the store error.
pub fn update_response(row: Result<Option<JsonValue>, String>) -> (r: Response)
    ensures
        match row {
            Ok(v) => match v {
                Some(rec) => r.status == 200 && r.body == rec,
                None => r.status == 404 && is_error_body(r.body, "Not found"@),
            },
            Err(e) => r.status == 500 && is_error_body(r.body, e@),
        },
{
    match row {
        Ok(Some(rec)) => Response { status: 200, body: rec },
        Ok(None) => error_response(404, "Not found"),
        Err(e) => Response { status: 500, body: error_obj(e) },
    }
}

/// Shapes the delete response: success exactly when at least one row
/// was removed, the not-found reply when none was, or the store error.
pub fn delete_response(outcome: Result<u64, String>) -> (r: Response)
    ensures
        match outcome {
            Ok(n) => if n > 0 {
                r.status == 200 && is_success_body(r.body)
            } else {
                r.status == 404 && is_error_body(r.body, "Not found"@)
            },
            Err(e) => r.status == 500 && is_error_body(r.body, e@),
        },
{
    match outcome {
        Ok(n) => {
            if n > 0 {
                let mut pairs: Vec<(String, JsonValue)> = Vec::new();
                pairs.push((String::from_str("success"), JsonValue::Bool(true)));
                Response { status: 200, body: JsonValue::Obj(pairs) }
            } else {
                error_response(404, "Not found")
            }
        },
        Err(e) => Response { status: 500, body: error_obj(e) },
    }
}

} // verus!
