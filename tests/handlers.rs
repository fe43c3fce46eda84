use cqrs_http::dispatch::{
    create_product, delete_product_by_id, query_all_products, query_product_by_id,
    respond_created, respond_deleted, respond_with_product, update_product_by_id, Call,
    DeleteOutcome, Step,
};
use cqrs_http::response::HttpResponse;
use cqrs_http::router::Params;
use cqrs_http::service::handle_cqrs;
use cqrs_http::router::Method;

fn no_params() -> Params {
    Params::new()
}

fn id_params(id: &str) -> Params {
    handle_cqrs(Method::Get, &format!("/items/{}", id)).unwrap().params
}

fn assert_bad_request<C, U>(s: Step<C, U>) {
    match s {
        Step::Respond(r) => {
            assert_eq!(r.status, 400);
            assert!(r.headers.is_empty());
            assert!(r.body.is_empty());
        }
        Step::Invoke(_) => panic!("a call was made"),
    }
}

fn widget() -> serde_json::Value {
    let mut item = serde_json::Map::new();
    item.insert("id".to_string(), serde_json::Value::String("1".to_string()));
    item.insert("name".to_string(), serde_json::Value::String("Widget".to_string()));
    serde_json::Value::Object(item)
}

#[test]
fn list_products_calls_query_side() {
    assert!(matches!(query_all_products::<(), ()>(), Step::Invoke(Call::AllProducts)));
}

#[test]
fn get_by_id_without_id_is_bad_request() {
    assert_bad_request(query_product_by_id::<(), ()>(&no_params()));
}

#[test]
fn update_without_id_is_bad_request() {
    assert_bad_request(update_product_by_id::<(), u8>(&no_params(), Some(5u8)));
}

#[test]
fn delete_without_id_is_bad_request() {
    assert_bad_request(delete_product_by_id::<(), ()>(&no_params()));
}

#[test]
fn create_with_undecodable_body_is_bad_request() {
    assert_bad_request(create_product::<u8, ()>(None));
}

#[test]
fn update_with_undecodable_body_is_bad_request() {
    assert_bad_request(update_product_by_id::<(), u8>(&id_params("3"), None));
}

#[test]
fn get_by_id_queries_with_id() {
    match query_product_by_id::<(), ()>(&id_params("42")) {
        Step::Invoke(Call::ProductById(id)) => assert_eq!(id, "42"),
        _ => panic!("expected a query by id"),
    }
}

#[test]
fn create_passes_payload() {
    match create_product::<u8, ()>(Some(7u8)) {
        Step::Invoke(Call::CreateProduct(p)) => assert_eq!(p, 7),
        _ => panic!("expected a create command"),
    }
}

#[test]
fn update_passes_id_and_payload() {
    match update_product_by_id::<(), u8>(&id_params("3"), Some(9u8)) {
        Step::Invoke(Call::UpdateProduct(id, p)) => {
            assert_eq!(id, "3");
            assert_eq!(p, 9);
        }
        _ => panic!("expected an update command"),
    }
}

#[test]
fn delete_passes_id() {
    match delete_product_by_id::<(), ()>(&id_params("5")) {
        Step::Invoke(Call::DeleteProductById(id)) => assert_eq!(id, "5"),
        _ => panic!("expected a delete command"),
    }
}

#[test]
fn delete_true_is_no_content() {
    let r = respond_deleted(DeleteOutcome::<String>::from_result(Ok(true))).unwrap();
    assert_eq!(r.status, 204);
    assert!(r.body.is_empty());
    assert!(r.headers.is_empty());
}

#[test]
fn delete_false_is_not_found() {
    let r = respond_deleted(DeleteOutcome::<String>::from_result(Ok(false))).unwrap();
    assert_eq!(r.status, 404);
    assert!(r.body.is_empty());
}

#[test]
fn delete_error_is_passed_on() {
    let r = respond_deleted(DeleteOutcome::from_result(Err("down".to_string())));
    assert_eq!(r.err(), Some("down".to_string()));
}

#[test]
fn list_scenario() {
    let body = serde_json::to_vec(&serde_json::Value::Array(vec![widget()])).unwrap();
    let r = respond_with_product::<String>(Ok(body)).unwrap();
    assert_eq!(r.status, 200);
    assert_eq!(r.header("Content-Type"), Some("application/json".to_string()));
    assert_eq!(String::from_utf8(r.body).unwrap(), r#"[{"id":"1","name":"Widget"}]"#);
}

#[test]
fn query_error_is_passed_on() {
    let r = respond_with_product(Err(17u32));
    assert_eq!(r.err(), Some(17));
}

#[test]
fn create_scenario() {
    let body = br#"{"id":"7","name":"Gadget"}"#.to_vec();
    let r = respond_created::<String>("https://host/items", Ok(("7".to_string(), body.clone())))
        .unwrap();
    assert_eq!(r.status, 201);
    assert_eq!(r.header("Location"), Some("https://host/items/7".to_string()));
    assert_eq!(r.header("Content-Type"), Some("application/json".to_string()));
    assert_eq!(r.body, body);
}

#[test]
fn create_error_is_passed_on() {
    let r = respond_created("https://host/items", Err("invalid".to_string()));
    assert_eq!(r.err(), Some("invalid".to_string()));
}

#[test]
fn json_body_round_trips() {
    let original = serde_json::Value::Array(vec![widget()]);
    let body = serde_json::to_vec(&original).unwrap();
    let r = respond_with_product::<String>(Ok(body)).unwrap();
    let back: serde_json::Value = serde_json::from_slice(&r.body).unwrap();
    assert_eq!(back, original);
}

#[test]
fn response_headers_in_order() {
    let r = HttpResponse::json(200, vec![]).with_header("X-A".to_string(), "1".to_string());
    assert_eq!(r.headers.len(), 2);
    assert_eq!(r.header("X-A"), Some("1".to_string()));
    assert_eq!(r.header("X-B"), None);
    assert_eq!(HttpResponse::empty(404).status, 404);
}
