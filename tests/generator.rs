use cdpkit::generator::{
    generate_code, generate_command, generate_domain, generate_event, generate_response, generate_type,
    utc_timestamp,
};
use cdpkit::parser::{Command, Domain, Event, Property, Protocol, TypeDef, TypeRef, Version};
use std::collections::HashMap;

fn prop(name: &str, optional: bool, experimental: bool, type_ref: TypeRef) -> Property {
    Property {
        name: name.to_string(),
        description: None,
        optional,
        experimental,
        deprecated: false,
        type_ref,
    }
}

fn simple(t: &str) -> TypeRef {
    TypeRef::Simple { type_: t.to_string(), items: None }
}

fn reference(r: &str) -> TypeRef {
    TypeRef::Ref { ref_: r.to_string() }
}

fn type_def(id: &str) -> TypeDef {
    TypeDef {
        id: id.to_string(),
        description: None,
        experimental: false,
        deprecated: false,
        type_: None,
        properties: vec![],
        enum_: vec![],
        items: None,
    }
}

#[test]
fn event_struct_and_subscribe() {
    let event = Event {
        name: "loadEventFired".to_string(),
        description: Some("Fired\nwhen  load".to_string()),
        experimental: false,
        deprecated: false,
        parameters: vec![
            prop("timestamp", false, false, reference("Network.MonotonicTime")),
            prop("URL", true, true, simple("string")),
        ],
    };
    let expected = [
        "        /// Fired when load\n",
        "        #[derive(Debug, Clone, Deserialize)]\n",
        "        #[serde(rename_all = \"camelCase\")]\n",
        "        pub struct LoadEventFired {\n",
        "            pub timestamp: network::types::MonotonicTime,\n",
        "            /// **EXPERIMENTAL**\n",
        "            #[serde(rename = \"URL\")]\n",
        "            pub url: Option<String>,\n",
        "        }\n\n",
        "        impl LoadEventFired {\n",
        "            pub fn subscribe(cdp: &CDP) -> std::pin::Pin<Box<dyn futures::stream::Stream<Item = Self> + Send>> {\n",
        "                cdp.inner.event_stream(\"Page.loadEventFired\")\n",
        "            }\n",
        "        }\n",
    ]
    .concat();
    assert_eq!(generate_event(&event, "Page", &HashMap::new()), expected);
}

#[test]
fn enum_type_with_impls() {
    let mut t = type_def("ResourceType");
    t.experimental = true;
    t.enum_ = vec!["Document".to_string(), "XHR".to_string()];
    let expected = [
        "        /// **EXPERIMENTAL**: This feature is experimental and may change or be removed.\n",
        "        #[derive(Debug, Clone, Serialize, Deserialize)]\n",
        "        pub enum ResourceType {\n",
        "            #[serde(rename = \"Document\")]\n",
        "            Document,\n",
        "            #[serde(rename = \"XHR\")]\n",
        "            Xhr,\n",
        "        }\n",
        "        impl AsRef<str> for ResourceType {\n",
        "            fn as_ref(&self) -> &str {\n",
        "                match self {\n",
        "                    Self::Document => \"Document\",\n",
        "                    Self::Xhr => \"XHR\",\n",
        "                }\n",
        "            }\n",
        "        }\n",
        "        impl std::str::FromStr for ResourceType {\n",
        "            type Err = String;\n",
        "            fn from_str(s: &str) -> Result<Self, Self::Err> {\n",
        "                match s {\n",
        "                    \"Document\" => Ok(Self::Document),\n",
        "                    \"XHR\" => Ok(Self::Xhr),\n",
        "                    _ => Err(s.to_string()),\n",
        "                }\n",
        "            }\n",
        "        }\n",
    ]
    .concat();
    assert_eq!(generate_type(&t, "Network", &HashMap::new()), expected);
}

#[test]
fn struct_type_boxes_itself() {
    let mut t = type_def("Node");
    t.deprecated = true;
    t.properties = vec![
        prop("nodeId", false, false, reference("NodeId")),
        prop(
            "children",
            true,
            false,
            TypeRef::Simple { type_: "array".to_string(), items: Some(Box::new(reference("Node"))) },
        ),
        prop("parent", true, false, reference("Node")),
    ];
    let expected = [
        "        #[deprecated]\n",
        "        #[derive(Debug, Clone, Serialize, Deserialize)]\n",
        "        #[serde(rename_all = \"camelCase\")]\n",
        "        pub struct Node {\n",
        "            pub node_id: NodeId,\n",
        "            #[serde(skip_serializing_if = \"Option::is_none\")]\n",
        "            pub children: Option<Vec<Node>>,\n",
        "            #[serde(skip_serializing_if = \"Option::is_none\")]\n",
        "            pub parent: Option<Box<Node>>,\n",
        "        }\n",
    ]
    .concat();
    assert_eq!(generate_type(&t, "DOM", &HashMap::new()), expected);
}

#[test]
fn alias_types() {
    let m = HashMap::new();
    let mut t = type_def("FrameId");
    t.type_ = Some("string".to_string());
    assert_eq!(generate_type(&t, "Page", &m), "        pub type FrameId = String;\n");
    t.type_ = Some("array".to_string());
    t.items = Some(Box::new(simple("integer")));
    assert_eq!(generate_type(&t, "Page", &m), "        pub type FrameId = Vec<i64>;\n");
    t.items = None;
    assert_eq!(generate_type(&t, "Page", &m), "        pub type FrameId = Vec<serde_json::Value>;\n");
    t.type_ = Some("any".to_string());
    assert_eq!(generate_type(&t, "Page", &m), "        pub type FrameId = serde_json::Value;\n");
    t.type_ = Some("weird".to_string());
    assert_eq!(generate_type(&t, "Page", &m), "        pub type FrameId = String;\n");
    t.type_ = None;
    t.description = Some("An id.".to_string());
    assert_eq!(generate_type(&t, "Page", &m), "        /// An id.\n        pub type FrameId = String;\n");
}

fn command(name: &str, parameters: Vec<Property>, returns: Vec<Property>) -> Command {
    Command {
        name: name.to_string(),
        description: None,
        experimental: false,
        deprecated: false,
        parameters,
        returns,
    }
}

#[test]
fn response_struct() {
    let mut js = prop("jsVersion", false, true, simple("string"));
    js.description = Some("V8\nversion".to_string());
    let c = command("getVersion", vec![], vec![prop("protocolVersion", false, false, simple("string")), js]);
    let expected = [
        "        #[derive(Debug, Clone, Deserialize)]\n",
        "        #[serde(rename_all = \"camelCase\")]\n",
        "        pub struct GetVersionResponse {\n",
        "            pub protocol_version: String,\n",
        "            /// V8 version\n",
        "            /// **EXPERIMENTAL**\n",
        "            pub js_version: Option<String>,\n",
        "        }\n",
    ]
    .concat();
    assert_eq!(generate_response(&c, "Browser", &HashMap::new()), expected);
}

#[test]
fn command_with_required_and_optional_parameters() {
    let mut c = command(
        "navigate",
        vec![
            prop("url", false, false, simple("string")),
            prop("type", false, false, reference("Network.ResourceType")),
            prop("referrer", true, false, simple("string")),
        ],
        vec![prop("frameId", false, false, reference("FrameId"))],
    );
    c.description = Some("Navigates".to_string());
    let expected = [
        "        /// Navigates\n",
        "        #[derive(Debug, Clone, Serialize)]\n",
        "        #[serde(rename_all = \"camelCase\")]\n",
        "        pub struct Navigate {\n",
        "            url: String,\n",
        "            type_: network::types::ResourceType,\n",
        "            #[serde(skip_serializing_if = \"Option::is_none\")]\n",
        "            referrer: Option<String>,\n",
        "        }\n\n",
        "        impl Navigate {\n",
        "            pub fn new(url: impl Into<String>, type_: impl Into<network::types::ResourceType>) -> Self {\n",
        "                Self {\n",
        "                    url: url.into(),\n",
        "                    type_: type_.into(),\n",
        "                    referrer: None,\n",
        "                }\n",
        "            }\n",
        "\n            pub fn with_referrer(mut self, referrer: impl Into<String>) -> Self {\n",
        "                self.referrer = Some(referrer.into());\n",
        "                self\n",
        "            }\n",
        "        }\n\n",
        "        impl Method for Navigate {\n",
        "            type Response = responses::NavigateResponse;\n",
        "            const METHOD: &'static str = \"Page.navigate\";\n",
        "        }\n",
    ]
    .concat();
    assert_eq!(generate_command(&c, "Page", &HashMap::new()), expected);
}

#[test]
fn command_without_parameters() {
    let c = command("enable", vec![], vec![]);
    let expected = [
        "        #[derive(Debug, Clone, Serialize)]\n",
        "        #[serde(rename_all = \"camelCase\")]\n",
        "        pub struct Enable {\n",
        "        }\n\n",
        "        impl Enable {\n",
        "            pub fn new() -> Self {\n",
        "                Self {\n",
        "                }\n",
        "            }\n",
        "        }\n\n",
        "        impl Method for Enable {\n",
        "            type Response = ();\n",
        "            const METHOD: &'static str = \"Page.enable\";\n",
        "        }\n",
    ]
    .concat();
    assert_eq!(generate_command(&c, "Page", &HashMap::new()), expected);
}

fn domain(name: &str) -> Domain {
    Domain {
        domain: name.to_string(),
        description: None,
        experimental: false,
        deprecated: false,
        dependencies: vec![],
        types: vec![],
        commands: vec![],
        events: vec![],
    }
}

#[test]
fn domain_with_events_only() {
    let m = HashMap::new();
    let mut d = domain("ServiceWorker");
    let event = Event {
        name: "workerCreated".to_string(),
        description: None,
        experimental: false,
        deprecated: false,
        parameters: vec![],
    };
    let event_text = generate_event(&event, "ServiceWorker", &m);
    d.events.push(event);
    let expected = [
        "pub mod serviceworker {\n",
        "    use super::*;\n\n",
        "    /// CDP events for this domain.\n",
        "    pub mod events {\n",
        "        use super::super::*;\n",
        "\n",
        event_text.as_str(),
        "\n",
        "    }\n\n",
        "}\n",
    ]
    .concat();
    assert_eq!(generate_domain(&d, &m), expected);
}

#[test]
fn domain_with_every_module() {
    let m = HashMap::new();
    let mut d = domain("DOMDebugger");
    let mut t = type_def("Id");
    t.type_ = Some("integer".to_string());
    d.types.push(t);
    d.commands.push(command("enable", vec![], vec![]));
    d.commands.push(command("get", vec![], vec![prop("id", false, false, reference("Id"))]));
    d.events.push(Event {
        name: "fired".to_string(),
        description: None,
        experimental: false,
        deprecated: false,
        parameters: vec![],
    });
    let text = generate_domain(&d, &m);
    let expected_start = [
        "pub mod dom_debugger {\n",
        "    use super::*;\n\n",
        "    /// CDP type definitions for this domain.\n",
        "    pub mod types {\n",
        "        use super::super::*;\n\n",
        "        pub type Id = i64;\n",
        "\n",
        "    }\n\n",
        "    /// Response types returned by methods in this domain.\n",
        "    pub mod responses {\n",
        "        use super::super::*;\n",
        "        use super::types;\n",
        "\n",
    ]
    .concat();
    assert!(text.starts_with(&expected_start));
    assert!(text.contains("        use super::types;\n        use super::responses;\n\n"));
    assert!(text.contains("pub struct GetResponse {\n            pub id: types::Id,\n"));
    assert!(!text.contains("EnableResponse"));
    assert!(text.ends_with("    }\n\n}\n"));
}

#[test]
fn timestamps() {
    assert_eq!(utc_timestamp(0), "1970-01-01 00:00:00 UTC");
    assert_eq!(utc_timestamp(951782400), "2000-02-29 00:00:00 UTC");
    assert_eq!(utc_timestamp(1700000000), "2023-11-14 22:13:20 UTC");
    assert_eq!(utc_timestamp(1767225599), "2025-12-31 23:59:59 UTC");
}

#[test]
fn whole_file() {
    let p = Protocol {
        version: Version { major: "1".to_string(), minor: "3".to_string() },
        domains: vec![domain("Page")],
    };
    let q = Protocol {
        version: Version { major: "9".to_string(), minor: "9".to_string() },
        domains: vec![domain("Runtime")],
    };
    let expected = [
        "// Auto-generated from Chrome DevTools Protocol\n",
        "// Generated at: 1970-01-01 00:00:00 UTC\n",
        "// DO NOT EDIT MANUALLY  OvO\n\n",
        "#![allow(dead_code, unused_imports, clippy::all)]\n\n",
        "use serde::{Deserialize, Serialize};\n",
        "use crate::{Method, CDP};\n\n",
        "/// CDP Protocol version (major.minor)\n",
        "pub const CDP_VERSION: &str = \"1.3\";\n\n",
        "pub mod page {\n    use super::*;\n\n}\n\n",
        "pub mod runtime {\n    use super::*;\n\n}\n\n",
    ]
    .concat();
    assert_eq!(generate_code(&[p, q], 0), expected);
    assert!(!generate_code(&[], 0).contains("CDP_VERSION"));
}
