use prustbowo::inject::register_route_and_docs;
use prustbowo::templates::{domain_template, project_template};
use prustbowo::tree::{instantiate_domain, instantiate_project};

fn chars(s: &str) -> Vec<char> {
    s.chars().collect()
}

fn string_of(v: &[char]) -> String {
    v.iter().collect()
}

#[test]
fn project_template_layout() {
    let tree = project_template();
    let paths: Vec<String> = tree.iter().map(|e| string_of(&e.path)).collect();
    assert_eq!(
        paths,
        vec!["src/app/route.rs", "cmd/main.rs", "cmd/migrate.rs", "cmd/export_openapi.rs"]
    );
    let route = string_of(&tree[0].contents);
    assert!(route.contains("// <prustbowo:imports>"));
    assert!(route.contains("// <prustbowo:routes>"));
    assert!(string_of(&tree[1].contents).contains("__CRATE_IDENT__"));
}

#[test]
fn generated_project_accepts_domain_injection() {
    let tree = instantiate_project(project_template(), &chars("my-shop"));
    let main_rs = string_of(&tree[1].contents);
    assert!(!main_rs.contains("__CRATE_IDENT__"));
    assert!(main_rs.contains("use my_shop::app::route::app_router;"));
    let injected = register_route_and_docs(&tree[0].contents, &chars("billing")).unwrap();
    let route = string_of(&injected);
    assert!(route.contains("use crate::app::domain::billing::handler::register_billing_routes;"));
    assert!(route.contains("router = register_billing_routes(router);"));
    assert!(route.contains("// <prustbowo:imports>"));
    assert!(route.contains("// <prustbowo:routes>"));
}

#[test]
fn domain_template_stamps_name() {
    let tree = instantiate_domain(domain_template(), &chars("orders"));
    assert_eq!(tree.len(), 1);
    assert_eq!(string_of(&tree[0].path), "handler.rs");
    let handler = string_of(&tree[0].contents);
    assert!(!handler.contains("__DOMAIN_NAME__"));
    assert!(handler.contains("pub fn register_orders_routes(router: Router) -> Router"));
    assert!(handler.contains("/orders/ping"));
}
