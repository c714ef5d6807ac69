//! The protocol description that command and event bindings are generated
//! from: domains with their types, commands and events, and the Rust type
//! that a reference in it stands for.
use crate::text::{
    after_first, before_first, lemma_split_at_first, replace_all, replace_str,
    split_once_char, text_before,
};
use heck::ToSnakeCase;
use std::collections::HashMap;
use vstd::prelude::*;
use vstd::string::*;

verus! {

/// What `heck`'s `to_snake_case` makes of a name.
pub uninterp spec fn snake_case_of(s: Seq<char>) -> Seq<char>;

/// Relies on `heck::ToSnakeCase::to_snake_case` for `str`.
#[verifier::external_body]
pub(crate) fn snake_case(s: &str) -> (r: String)
    ensures
        r@ == snake_case_of(s@),
{
    s.to_snake_case()
}

/// A whole protocol description.
pub struct Protocol {
    pub version: Version,
    pub domains: Vec<Domain>,
}

/// The protocol's version.
pub struct Version {
    pub major: String,
    pub minor: String,
}

/// One domain: its types, commands and events.
pub struct Domain {
    pub domain: String,
    pub description: Option<String>,
    pub experimental: bool,
    pub deprecated: bool,
    pub dependencies: Vec<String>,
    pub types: Vec<TypeDef>,
    pub commands: Vec<Command>,
    pub events: Vec<Event>,
}

/// A named type of a domain.
pub struct TypeDef {
    pub id: String,
    pub description: Option<String>,
    pub experimental: bool,
    pub deprecated: bool,
    pub type_: Option<String>,
    pub properties: Vec<Property>,
    pub enum_: Vec<String>,
    pub items: Option<Box<TypeRef>>,
}

/// A command: its parameters and what it returns.
pub struct Command {
    pub name: String,
    pub description: Option<String>,
    pub experimental: bool,
    pub deprecated: bool,
    pub parameters: Vec<Property>,
    pub returns: Vec<Property>,
}

/// An event and its parameters.
pub struct Event {
    pub name: String,
    pub description: Option<String>,
    pub experimental: bool,
    pub deprecated: bool,
    pub parameters: Vec<Property>,
}

/// A named, typed member of a type, a command or an event.
pub struct Property {
    pub name: String,
    pub description: Option<String>,
    pub optional: bool,
    pub experimental: bool,
    pub deprecated: bool,
    pub type_ref: TypeRef,
}

/// The type of a property: a primitive (with its item type for arrays), or
/// a reference to a named type, `Domain.Type` or, within a domain, `Type`.
pub enum TypeRef {
    Simple { type_: String, items: Option<Box<TypeRef>> },
    Ref { ref_: String },
}

/// The module name of a domain, from the snake-case form of its name.
pub open spec fn normalized_domain(name: Seq<char>) -> Seq<char> {
    let s = replace_all(name, "_d_o_m_"@, "_dom_"@);
    if s == "service_worker"@ {
        "serviceworker"@
    } else {
        s
    }
}

/// Turns the snake-case form of a domain name into its module name.
pub fn normalize_domain_name(name: &str) -> (r: String)
    ensures
        r@ == normalized_domain(name@),
{
    proof {
        reveal_strlit("_d_o_m_");
    }
    let s = replace_str(name, "_d_o_m_", "_dom_");
    if s == String::from_str("service_worker") {
        String::from_str("serviceworker")
    } else {
        s
    }
}

/// The Rust type that a primitive protocol type name stands for.
pub open spec fn primitive_text(type_: Seq<char>) -> Seq<char> {
    if type_ == "string"@ {
        "String"@
    } else if type_ == "integer"@ {
        "i64"@
    } else if type_ == "number"@ {
        "f64"@
    } else if type_ == "boolean"@ {
        "bool"@
    } else {
        "serde_json::Value"@
    }
}

/// The Rust type for a type reference, seen from `domain`'s `types` module
/// (`from_types_submod`) or from its other modules.
pub open spec fn rust_type_text(t: TypeRef, from_types_submod: bool) -> Seq<char>
    decreases t,
{
    match t {
        TypeRef::Simple { type_, items } => if type_@ == "array"@ {
            match items {
                Some(b) => "Vec<"@ + rust_type_text(*b, from_types_submod) + ">"@,
                None => "Vec<serde_json::Value>"@,
            }
        } else {
            primitive_text(type_@)
        },
        TypeRef::Ref { ref_ } => if ref_@.contains('.') {
            normalized_domain(snake_case_of(before_first(ref_@, '.'))) + "::types::"@
                + before_first(after_first(ref_@, '.'), '.')
        } else if from_types_submod {
            ref_@
        } else {
            "types::"@ + ref_@
        },
    }
}

fn primitive_type(type_: &String) -> (r: String)
    ensures
        r@ == primitive_text(type_@),
{
    if *type_ == String::from_str("string") {
        String::from_str("String")
    } else if *type_ == String::from_str("integer") {
        String::from_str("i64")
    } else if *type_ == String::from_str("number") {
        String::from_str("f64")
    } else if *type_ == String::from_str("boolean") {
        String::from_str("bool")
    } else {
        String::from_str("serde_json::Value")
    }
}

impl TypeRef {
    /// The Rust type for this reference. `from_types_submod` is true for code
    /// inside a domain's `types` module, where a same-domain reference is a
    /// plain name; elsewhere it takes a `types::` prefix. A cross-domain
    /// reference is always `domain::types::Type`.
    pub fn to_rust_type(
        &self,
        domain: &str,
        all_types: &HashMap<String, String>,
        from_types_submod: bool,
    ) -> (r: String)
        ensures
            r@ == rust_type_text(*self, from_types_submod),
        decreases self,
    {
        match self {
            TypeRef::Simple { type_, items } => {
                if *type_ == String::from_str("array") {
                    match items {
                        Some(inner) => {
                            let t = inner.to_rust_type(domain, all_types, from_types_submod);
                            let mut out = String::from_str("Vec<");
                            out.append(t.as_str());
                            out.append(">");
                            out
                        },
                        None => String::from_str("Vec<serde_json::Value>"),
                    }
                } else {
                    primitive_type(type_)
                }
            },
            TypeRef::Ref { ref_ } => match split_once_char(ref_.as_str(), '.') {
                Some((head, rest)) => {
                    proof { lemma_split_at_first(head@, rest@, '.'); }
                    let member_type = text_before(rest, '.');
                    let snake = snake_case(head);
                    let mut out = normalize_domain_name(snake.as_str());
                    out.append("::types::");
                    out.append(member_type);
                    proof {
                        assert(ref_@.contains('.')) by {
                            assert(ref_@[head@.len() as int] == '.');
                        }
                    }
                    out
                },
                None => if from_types_submod {
                    ref_.clone()
                } else {
                    let mut out = String::from_str("types::");
                    out.append(ref_.as_str());
                    out
                },
            },
        }
    }
}

} // verus!
