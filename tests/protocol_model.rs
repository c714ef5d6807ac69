use cdpkit::parser::{normalize_domain_name, TypeRef};
use std::collections::HashMap;

fn simple(t: &str) -> TypeRef {
    TypeRef::Simple { type_: t.to_string(), items: None }
}

fn reference(r: &str) -> TypeRef {
    TypeRef::Ref { ref_: r.to_string() }
}

#[test]
fn primitive_types() {
    let m = HashMap::new();
    assert_eq!(simple("string").to_rust_type("Page", &m, false), "String");
    assert_eq!(simple("integer").to_rust_type("Page", &m, false), "i64");
    assert_eq!(simple("number").to_rust_type("Page", &m, true), "f64");
    assert_eq!(simple("boolean").to_rust_type("Page", &m, true), "bool");
    assert_eq!(simple("object").to_rust_type("Page", &m, true), "serde_json::Value");
    assert_eq!(simple("any").to_rust_type("Page", &m, true), "serde_json::Value");
    assert_eq!(simple("whatever").to_rust_type("Page", &m, true), "serde_json::Value");
}

#[test]
fn array_types() {
    let m = HashMap::new();
    assert_eq!(simple("array").to_rust_type("Page", &m, false), "Vec<serde_json::Value>");
    let nested = TypeRef::Simple {
        type_: "array".to_string(),
        items: Some(Box::new(TypeRef::Simple {
            type_: "array".to_string(),
            items: Some(Box::new(reference("FrameId"))),
        })),
    };
    assert_eq!(nested.to_rust_type("Page", &m, false), "Vec<Vec<types::FrameId>>");
    assert_eq!(nested.to_rust_type("Page", &m, true), "Vec<Vec<FrameId>>");
}

#[test]
fn reference_types() {
    let m = HashMap::new();
    assert_eq!(reference("FrameId").to_rust_type("Page", &m, true), "FrameId");
    assert_eq!(reference("FrameId").to_rust_type("Page", &m, false), "types::FrameId");
    assert_eq!(
        reference("Network.LoaderId").to_rust_type("Page", &m, false),
        "network::types::LoaderId"
    );
    assert_eq!(
        reference("ServiceWorker.RegistrationID").to_rust_type("Page", &m, true),
        "serviceworker::types::RegistrationID"
    );
    assert_eq!(
        reference("DOMDebugger.EventListener").to_rust_type("Page", &m, true),
        "dom_debugger::types::EventListener"
    );
    assert_eq!(reference("A.B.C").to_rust_type("Page", &m, true), "a::types::B");
}

#[test]
fn domain_names() {
    assert_eq!(normalize_domain_name("service_worker"), "serviceworker");
    assert_eq!(normalize_domain_name("x_d_o_m_y_d_o_m_z"), "x_dom_y_dom_z");
    assert_eq!(normalize_domain_name("page"), "page");
    assert_eq!(normalize_domain_name("service_worker_x"), "service_worker_x");
}
