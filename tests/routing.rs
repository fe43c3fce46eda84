use cqrs_http::router::{split_path, match_pattern, Method, Params, Router};
use cqrs_http::service::{cqrs_router, handle_cqrs, Handler};

#[test]
fn split_path_segments() {
    assert_eq!(split_path("/items/42"), vec!["", "items", "42"]);
    assert_eq!(split_path(""), vec![""]);
    assert_eq!(split_path("/items/"), vec!["", "items", ""]);
}

#[test]
fn list_route() {
    let m = handle_cqrs(Method::Get, "/items").unwrap();
    assert_eq!(m.handler, Handler::ListProducts);
    assert_eq!(m.route, 0);
    assert!(m.params.entries.is_empty());
}

#[test]
fn get_by_id_route_binds_id() {
    let m = handle_cqrs(Method::Get, "/items/42").unwrap();
    assert_eq!(m.handler, Handler::GetProductById);
    assert_eq!(m.params.get("id"), Some("42".to_string()));
    assert_eq!(m.params.get("name"), None);
}

#[test]
fn create_route() {
    let m = handle_cqrs(Method::Post, "/items").unwrap();
    assert_eq!(m.handler, Handler::CreateProduct);
}

#[test]
fn update_route() {
    let m = handle_cqrs(Method::Put, "/items/abc").unwrap();
    assert_eq!(m.handler, Handler::UpdateProductById);
    assert_eq!(m.params.get("id"), Some("abc".to_string()));
}

#[test]
fn delete_route() {
    let m = handle_cqrs(Method::Delete, "/items/9").unwrap();
    assert_eq!(m.handler, Handler::DeleteProductById);
    assert_eq!(m.params.get("id"), Some("9".to_string()));
}

#[test]
fn unmatched_requests() {
    assert!(handle_cqrs(Method::Post, "/items/1").is_none());
    assert!(handle_cqrs(Method::Put, "/items").is_none());
    assert!(handle_cqrs(Method::Delete, "/items").is_none());
    assert!(handle_cqrs(Method::Patch, "/items/1").is_none());
    assert!(handle_cqrs(Method::Get, "/things").is_none());
    assert!(handle_cqrs(Method::Get, "/items/1/extra").is_none());
    assert!(handle_cqrs(Method::Get, "/items/").is_none());
}

#[test]
fn catalog_table_has_five_routes() {
    let r = cqrs_router();
    assert_eq!(r.routes.len(), 5);
    assert_eq!(r.routes[3].method, Method::Put);
    assert_eq!(r.routes[3].pattern, vec!["", "items", ":id"]);
}

#[test]
fn first_registered_route_wins() {
    let mut r: Router<u8> = Router::new();
    r.get("/a/:x", 1);
    r.get("/a/b", 2);
    let m = r.find(Method::Get, "/a/b").unwrap();
    assert_eq!(m.handler, 1);
    assert_eq!(m.route, 0);
    assert_eq!(m.params.get("x"), Some("b".to_string()));
}

#[test]
fn pattern_binds_several_params() {
    let pat = split_path("/u/:user/p/:post");
    let p = match_pattern(&pat, &split_path("/u/ann/p/3")).unwrap();
    assert_eq!(p.get("user"), Some("ann".to_string()));
    assert_eq!(p.get("post"), Some("3".to_string()));
    assert!(match_pattern(&pat, &split_path("/u/ann/q/3")).is_none());
}

#[test]
fn empty_params_lookup() {
    assert_eq!(Params::new().get("id"), None);
}
