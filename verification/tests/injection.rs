use prustbowo::inject::{register_domain_mod, register_route_and_docs, InjectError};

fn chars(s: &str) -> Vec<char> {
    s.chars().collect()
}

fn string_of(v: &[char]) -> String {
    v.iter().collect()
}

const IMPORTS: &str = "// <prustbowo:imports>";
const ROUTES: &str = "// <prustbowo:routes>";

#[test]
fn injection_scenario_billing() {
    let content = format!("{IMPORTS}\n\n{ROUTES}\n");
    let out = register_route_and_docs(&chars(&content), &chars("billing")).unwrap();
    let expected = format!(
        "{IMPORTS}\nuse crate::app::domain::billing::handler::register_billing_routes;\n\n\n{ROUTES}\n    router = register_billing_routes(router);\n\n"
    );
    assert_eq!(string_of(&out), expected);
    // The import line stands strictly between the two original anchor
    // lines, the registration line strictly after the routes anchor, and
    // both anchors survive verbatim.
    let s = string_of(&out);
    let i_anchor = s.find(IMPORTS).unwrap();
    let r_anchor = s.find(ROUTES).unwrap();
    let i_line = s.find("use crate::app::domain::billing").unwrap();
    let r_line = s.find("router = register_billing_routes").unwrap();
    assert!(i_anchor < i_line && i_line < r_anchor && r_anchor < r_line);
}

#[test]
fn injection_keeps_anchors() {
    let content = format!("head\n{IMPORTS}\nmiddle\n{ROUTES}\ntail\n");
    let out = register_route_and_docs(&chars(&content), &chars("foo")).unwrap();
    let s = string_of(&out);
    assert!(s.contains(IMPORTS));
    assert!(s.contains(ROUTES));
    // Still a valid target: a second injection succeeds as well.
    assert!(register_route_and_docs(&out, &chars("foo")).is_ok());
}

#[test]
fn injection_twice_keeps_both_names() {
    let content = format!("{IMPORTS}\n\n{ROUTES}\n");
    let once = register_route_and_docs(&chars(&content), &chars("foo")).unwrap();
    let twice = register_route_and_docs(&once, &chars("bar")).unwrap();
    let s = string_of(&twice);
    let foo_import = "use crate::app::domain::foo::handler::register_foo_routes;";
    let bar_import = "use crate::app::domain::bar::handler::register_bar_routes;";
    assert!(s.contains(foo_import));
    assert!(s.contains(bar_import));
    assert!(s.contains("router = register_foo_routes(router);"));
    assert!(s.contains("router = register_bar_routes(router);"));
    // Each insertion lands immediately after its anchor, so the later
    // name's lines stand between the anchor and the earlier name's lines.
    assert!(s.find(bar_import).unwrap() < s.find(foo_import).unwrap());
}

#[test]
fn injection_missing_imports_anchor_fails() {
    let content = format!("no anchors here\n{ROUTES}\n");
    let r = register_route_and_docs(&chars(&content), &chars("foo"));
    assert_eq!(r.unwrap_err(), InjectError::MissingMarkers);
}

#[test]
fn injection_missing_routes_anchor_fails() {
    let content = format!("{IMPORTS}\nonly one anchor\n");
    let r = register_route_and_docs(&chars(&content), &chars("foo"));
    assert_eq!(r.unwrap_err(), InjectError::MissingMarkers);
}

#[test]
fn module_list_appends_once() {
    let (out, changed) = register_domain_mod(&chars(""), &chars("foo"));
    assert!(changed);
    assert_eq!(string_of(&out), "\npub mod foo;\n");
    let (again, changed2) = register_domain_mod(&out, &chars("foo"));
    assert!(!changed2);
    assert_eq!(string_of(&again), string_of(&out));
    assert_eq!(string_of(&again).matches("pub mod foo;").count(), 1);
}

#[test]
fn module_list_keeps_existing_lines() {
    let (out, changed) = register_domain_mod(&chars("pub mod users;\n"), &chars("orders"));
    assert!(changed);
    assert_eq!(string_of(&out), "pub mod users;\npub mod orders;\n");
}

#[test]
fn module_list_adds_missing_trailing_newline() {
    let (out, _) = register_domain_mod(&chars("pub mod users;"), &chars("orders"));
    assert_eq!(string_of(&out), "pub mod users;\npub mod orders;\n");
}
