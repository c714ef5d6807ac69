//! The Rust text of generated bindings for the types and events of a
//! protocol description.
use crate::naming::{escape_doc, escaped_doc, needs_serde_rename, rename_needed, sanitize_field_name, sanitized};
use crate::parser::{
    normalize_domain_name, normalized_domain, rust_type_text, snake_case, snake_case_of, Command, Domain,
    Event, Property, Protocol, TypeDef, TypeRef,
};
use crate::envelope::{decimal, decimal_text};
use crate::text::push_char;
use heck::ToPascalCase;
use std::collections::HashMap;
use std::hash::RandomState;
use vstd::prelude::*;
use vstd::std_specs::hash::{builds_valid_hashers, obeys_key_model};
use vstd::string::*;

verus! {

/// What `heck`'s `to_pascal_case` makes of a name.
pub uninterp spec fn pascal_case_of(s: Seq<char>) -> Seq<char>;

/// Relies on `heck::ToPascalCase::to_pascal_case` for `str`.
#[verifier::external_body]
fn pascal_case(s: &str) -> (r: String)
    ensures
        r@ == pascal_case_of(s@),
{
    s.to_pascal_case()
}

/// A documentation line at `indent`, when there is a description.
pub open spec fn doc_text(indent: Seq<char>, description: Option<String>) -> Seq<char> {
    match description {
        Some(d) => indent + "/// "@ + escaped_doc(d@) + "\n"@,
        None => Seq::empty(),
    }
}

/// `text` when `flag` holds, else nothing.
pub open spec fn when(flag: bool, text: Seq<char>) -> Seq<char> {
    if flag {
        text
    } else {
        Seq::empty()
    }
}

/// The field name of a property.
pub open spec fn field_of(name: Seq<char>) -> Seq<char> {
    sanitized(snake_case_of(name))
}

/// The rename attribute of a field, at `indent`, when camel case does not
/// give back the wire name.
pub open spec fn rename_text(indent: Seq<char>, name: Seq<char>) -> Seq<char> {
    when(
        rename_needed(name, field_of(name)),
        indent + "#[serde(rename = \""@ + name + "\")]\n"@,
    )
}

/// `Option<t>` for an optional property, else `t`.
pub open spec fn optional_text(optional: bool, t: Seq<char>) -> Seq<char> {
    if optional {
        "Option<"@ + t + ">"@
    } else {
        t
    }
}

/// The field of an event struct for one parameter.
pub open spec fn event_field_text(p: Property) -> Seq<char> {
    let indent = "            "@;
    doc_text(indent, p.description) + when(p.experimental, "            /// **EXPERIMENTAL**\n"@)
        + when(p.deprecated, "            #[deprecated]\n"@) + rename_text(indent, p.name@)
        + "            pub "@ + field_of(p.name@) + ": "@ + optional_text(
        p.optional,
        rust_type_text(p.type_ref, false),
    ) + ",\n"@
}

/// The fields of an event struct, one per parameter.
pub open spec fn event_fields_text(ps: Seq<Property>) -> Seq<char>
    decreases ps.len(),
{
    if ps.len() == 0 {
        Seq::empty()
    } else {
        event_fields_text(ps.drop_last()) + event_field_text(ps.last())
    }
}

/// The lines that mark an item as experimental or deprecated.
pub open spec fn status_text(experimental: bool, deprecated: bool) -> Seq<char> {
    when(
        experimental,
        "        /// **EXPERIMENTAL**: This feature is experimental and may change or be removed.\n"@,
    ) + when(deprecated, "        #[deprecated]\n"@)
}

/// The struct of an event and its `subscribe` function.
pub open spec fn event_text(e: Event, domain: Seq<char>) -> Seq<char> {
    let name = pascal_case_of(e.name@);
    doc_text("        "@, e.description) + status_text(e.experimental, e.deprecated)
        + "        #[derive(Debug, Clone, Deserialize)]\n"@
        + "        #[serde(rename_all = \"camelCase\")]\n"@ + "        pub struct "@ + name
        + " {\n"@ + event_fields_text(e.parameters@)
        + "        }\n\n"@ + "        impl "@ + name + " {\n"@
        + "            pub fn subscribe(cdp: &CDP) -> std::pin::Pin<Box<dyn futures::stream::Stream<Item = Self> + Send>> {\n"@
        + "                cdp.inner.event_stream(\""@ + domain + "."@ + e.name@ + "\")\n"@
        + "            }\n"@ + "        }\n"@
}

fn push_doc(out: &mut String, indent: &str, description: &Option<String>)
    ensures
        final(out)@ == old(out)@ + doc_text(indent@, *description),
{
    match description {
        Some(d) => {
            out.append(indent);
            out.append("/// ");
            let e = escape_doc(d.as_str());
            out.append(e.as_str());
            out.append("\n");
        },
        None => {
            assert(old(out)@ + Seq::<char>::empty() =~= old(out)@);
        },
    }
}

fn push_when(out: &mut String, flag: bool, text: &str)
    ensures
        final(out)@ == old(out)@ + when(flag, text@),
{
    if flag {
        out.append(text);
    } else {
        assert(old(out)@ + Seq::<char>::empty() =~= old(out)@);
    }
}

fn push_rename(out: &mut String, indent: &str, name: &String, field: &String)
    requires
        field@ == field_of(name@),
    ensures
        final(out)@ == old(out)@ + rename_text(indent@, name@),
{
    if needs_serde_rename(name.as_str(), field.as_str()) {
        out.append(indent);
        out.append("#[serde(rename = \"");
        out.append(name.as_str());
        out.append("\")]\n");
    } else {
        assert(old(out)@ + Seq::<char>::empty() =~= old(out)@);
    }
}

fn push_optional(out: &mut String, optional: bool, t: &String)
    ensures
        final(out)@ == old(out)@ + optional_text(optional, t@),
{
    if optional {
        out.append("Option<");
        out.append(t.as_str());
        out.append(">");
    } else {
        out.append(t.as_str());
    }
}

fn field_name(name: &String) -> (r: String)
    ensures
        r@ == field_of(name@),
{
    let snake = snake_case(name.as_str());
    sanitize_field_name(snake.as_str())
}

fn event_field(p: &Property, domain: &str, type_map: &HashMap<String, String>) -> (r: String)
    ensures
        r@ == event_field_text(*p),
{
    let mut out = String::new();
    push_doc(&mut out, "            ", &p.description);
    push_when(&mut out, p.experimental, "            /// **EXPERIMENTAL**\n");
    push_when(&mut out, p.deprecated, "            #[deprecated]\n");
    let field = field_name(&p.name);
    push_rename(&mut out, "            ", &p.name, &field);
    out.append("            pub ");
    out.append(field.as_str());
    out.append(": ");
    let t = p.type_ref.to_rust_type(domain, type_map, false);
    push_optional(&mut out, p.optional, &t);
    out.append(",\n");
    assert(out@ =~= event_field_text(*p));
    out
}

/// The Rust text of one event: a struct of its parameters, and a
/// `subscribe` function for its topic `domain.name`.
pub fn generate_event(event: &Event, domain: &str, type_map: &HashMap<String, String>) -> (r:
    String)
    ensures
        r@ == event_text(*event, domain@),
{
    let mut out = String::new();
    let name = pascal_case(event.name.as_str());
    push_doc(&mut out, "        ", &event.description);
    push_when(
        &mut out,
        event.experimental,
        "        /// **EXPERIMENTAL**: This feature is experimental and may change or be removed.\n",
    );
    push_when(&mut out, event.deprecated, "        #[deprecated]\n");
    out.append("        #[derive(Debug, Clone, Deserialize)]\n");
    out.append("        #[serde(rename_all = \"camelCase\")]\n");
    out.append("        pub struct ");
    out.append(name.as_str());
    out.append(" {\n");
    let ghost head = out@;
    let mut i: usize = 0;
    while i < event.parameters.len()
        invariant
            0 <= i <= event.parameters@.len(),
            out@ == head + event_fields_text(event.parameters@.take(i as int)),
        decreases event.parameters@.len() - i,
    {
        let field = event_field(&event.parameters[i], domain, type_map);
        out.append(field.as_str());
        proof {
            let ps = event.parameters@;
            assert(ps.take(i as int + 1).drop_last() =~= ps.take(i as int));
            assert(out@ =~= head + (event_fields_text(ps.take(i as int)) + field@));
        }
        i += 1;
    }
    assert(event.parameters@.take(event.parameters@.len() as int) =~= event.parameters@);
    out.append("        }\n\n");
    out.append("        impl ");
    out.append(name.as_str());
    out.append(" {\n");
    out.append(
        "            pub fn subscribe(cdp: &CDP) -> std::pin::Pin<Box<dyn futures::stream::Stream<Item = Self> + Send>> {\n",
    );
    out.append("                cdp.inner.event_stream(\"");
    out.append(domain);
    out.append(".");
    out.append(event.name.as_str());
    out.append("\")\n");
    out.append("            }\n");
    out.append("        }\n");
    out
}

/// The Rust name of an enum variant.
pub open spec fn variant_of(v: Seq<char>) -> Seq<char> {
    sanitized(pascal_case_of(v))
}

/// The variants of a generated enum, each renamed to its wire value.
pub open spec fn enum_variants_text(vs: Seq<String>) -> Seq<char>
    decreases vs.len(),
{
    if vs.len() == 0 {
        Seq::empty()
    } else {
        let v = vs.last()@;
        enum_variants_text(vs.drop_last()) + "            #[serde(rename = \""@ + v + "\")]\n"@
            + "            "@ + variant_of(v) + ",\n"@
    }
}

/// The arms of `as_ref`: each variant to its wire value.
pub open spec fn as_ref_arms_text(vs: Seq<String>) -> Seq<char>
    decreases vs.len(),
{
    if vs.len() == 0 {
        Seq::empty()
    } else {
        let v = vs.last()@;
        as_ref_arms_text(vs.drop_last()) + "                    Self::"@ + variant_of(v) + " => \""@
            + v + "\",\n"@
    }
}

/// The arms of `from_str`: each wire value to its variant.
pub open spec fn from_str_arms_text(vs: Seq<String>) -> Seq<char>
    decreases vs.len(),
{
    if vs.len() == 0 {
        Seq::empty()
    } else {
        let v = vs.last()@;
        from_str_arms_text(vs.drop_last()) + "                    \""@ + v + "\" => Ok(Self::"@
            + variant_of(v) + "),\n"@
    }
}

/// The field of a type's struct for one property; a field of the struct's
/// own type is boxed.
pub open spec fn struct_field_text(p: Property, type_id: Seq<char>) -> Seq<char> {
    let indent = "            "@;
    let t = rust_type_text(p.type_ref, true);
    let boxed = if t == type_id {
        "Box<"@ + t + ">"@
    } else {
        t
    };
    doc_text(indent, p.description) + when(p.experimental, "            /// **EXPERIMENTAL**\n"@)
        + when(p.deprecated, "            #[deprecated]\n"@) + when(
        p.optional,
        "            #[serde(skip_serializing_if = \"Option::is_none\")]\n"@,
    ) + rename_text(indent, p.name@) + "            pub "@ + field_of(p.name@) + ": "@
        + optional_text(p.optional, boxed) + ",\n"@
}

/// The fields of a type's struct, one per property.
pub open spec fn struct_fields_text(ps: Seq<Property>, type_id: Seq<char>) -> Seq<char>
    decreases ps.len(),
{
    if ps.len() == 0 {
        Seq::empty()
    } else {
        struct_fields_text(ps.drop_last(), type_id) + struct_field_text(ps.last(), type_id)
    }
}

/// What a type without variants or properties aliases.
pub open spec fn alias_text(base: Option<String>, items: Option<Box<TypeRef>>) -> Seq<char> {
    match base {
        Some(b) => if b@ == "string"@ {
            "String"@
        } else if b@ == "integer"@ {
            "i64"@
        } else if b@ == "number"@ {
            "f64"@
        } else if b@ == "boolean"@ {
            "bool"@
        } else if b@ == "object"@ || b@ == "any"@ {
            "serde_json::Value"@
        } else if b@ == "array"@ {
            match items {
                Some(it) => "Vec<"@ + rust_type_text(*it, true) + ">"@,
                None => "Vec<serde_json::Value>"@,
            }
        } else {
            "String"@
        },
        None => "String"@,
    }
}

/// A generated enum with its variants.
pub open spec fn enum_decl_text(id: Seq<char>, vs: Seq<String>) -> Seq<char> {
    "        #[derive(Debug, Clone, Serialize, Deserialize)]\n"@ + "        pub enum "@ + id + " {\n"@
        + enum_variants_text(vs) + "        }\n"@
}

/// The `AsRef<str>` impl of a generated enum.
pub open spec fn as_ref_impl_text(id: Seq<char>, vs: Seq<String>) -> Seq<char> {
    "        impl AsRef<str> for "@ + id + " {\n"@ + "            fn as_ref(&self) -> &str {\n"@
        + "                match self {\n"@ + as_ref_arms_text(vs) + "                }\n"@
        + "            }\n"@ + "        }\n"@
}

/// The `FromStr` impl of a generated enum.
pub open spec fn from_str_impl_text(id: Seq<char>, vs: Seq<String>) -> Seq<char> {
    "        impl std::str::FromStr for "@ + id + " {\n"@ + "            type Err = String;\n"@
        + "            fn from_str(s: &str) -> Result<Self, Self::Err> {\n"@
        + "                match s {\n"@ + from_str_arms_text(vs)
        + "                    _ => Err(s.to_string()),\n"@ + "                }\n"@
        + "            }\n"@ + "        }\n"@
}

/// A generated struct with one field per property.
pub open spec fn struct_decl_text(id: Seq<char>, ps: Seq<Property>) -> Seq<char> {
    "        #[derive(Debug, Clone, Serialize, Deserialize)]\n"@
        + "        #[serde(rename_all = \"camelCase\")]\n"@ + "        pub struct "@ + id + " {\n"@
        + struct_fields_text(ps, id) + "        }\n"@
}

/// A generated type alias.
pub open spec fn alias_decl_text(id: Seq<char>, base: Option<String>, items: Option<Box<TypeRef>>) -> Seq<char> {
    "        pub type "@ + id + " = "@ + alias_text(base, items) + ";\n"@
}

/// The Rust text of a named type: an enum with `AsRef<str>` and `FromStr`
/// when it lists values, a struct when it has properties, else an alias.
pub open spec fn type_text(t: TypeDef) -> Seq<char> {
    let id = t.id@;
    doc_text("        "@, t.description) + status_text(t.experimental, t.deprecated) + if t.enum_@.len() > 0 {
        enum_decl_text(id, t.enum_@) + as_ref_impl_text(id, t.enum_@) + from_str_impl_text(id, t.enum_@)
    } else if t.properties@.len() > 0 {
        struct_decl_text(id, t.properties@)
    } else {
        alias_decl_text(id, t.type_, t.items)
    }
}

fn variant_name(v: &String) -> (r: String)
    ensures
        r@ == variant_of(v@),
{
    let p = pascal_case(v.as_str());
    sanitize_field_name(p.as_str())
}

fn enum_variants(vs: &Vec<String>) -> (r: String)
    ensures
        r@ == enum_variants_text(vs@),
{
    let mut out = String::new();
    let mut i: usize = 0;
    while i < vs.len()
        invariant
            0 <= i <= vs@.len(),
            out@ == enum_variants_text(vs@.take(i as int)),
        decreases vs@.len() - i,
    {
        let name = variant_name(&vs[i]);
        out.append("            #[serde(rename = \"");
        out.append(vs[i].as_str());
        out.append("\")]\n");
        out.append("            ");
        out.append(name.as_str());
        out.append(",\n");
        proof {
            assert(vs@.take(i as int + 1).drop_last() =~= vs@.take(i as int));
            assert(out@ =~= enum_variants_text(vs@.take(i as int + 1)));
        }
        i += 1;
    }
    assert(vs@.take(vs@.len() as int) =~= vs@);
    out
}

fn as_ref_arms(vs: &Vec<String>) -> (r: String)
    ensures
        r@ == as_ref_arms_text(vs@),
{
    let mut out = String::new();
    let mut i: usize = 0;
    while i < vs.len()
        invariant
            0 <= i <= vs@.len(),
            out@ == as_ref_arms_text(vs@.take(i as int)),
        decreases vs@.len() - i,
    {
        let name = variant_name(&vs[i]);
        out.append("                    Self::");
        out.append(name.as_str());
        out.append(" => \"");
        out.append(vs[i].as_str());
        out.append("\",\n");
        proof {
            assert(vs@.take(i as int + 1).drop_last() =~= vs@.take(i as int));
            assert(out@ =~= as_ref_arms_text(vs@.take(i as int + 1)));
        }
        i += 1;
    }
    assert(vs@.take(vs@.len() as int) =~= vs@);
    out
}

fn from_str_arms(vs: &Vec<String>) -> (r: String)
    ensures
        r@ == from_str_arms_text(vs@),
{
    let mut out = String::new();
    let mut i: usize = 0;
    while i < vs.len()
        invariant
            0 <= i <= vs@.len(),
            out@ == from_str_arms_text(vs@.take(i as int)),
        decreases vs@.len() - i,
    {
        let name = variant_name(&vs[i]);
        out.append("                    \"");
        out.append(vs[i].as_str());
        out.append("\" => Ok(Self::");
        out.append(name.as_str());
        out.append("),\n");
        proof {
            assert(vs@.take(i as int + 1).drop_last() =~= vs@.take(i as int));
            assert(out@ =~= from_str_arms_text(vs@.take(i as int + 1)));
        }
        i += 1;
    }
    assert(vs@.take(vs@.len() as int) =~= vs@);
    out
}

fn struct_field(p: &Property, type_id: &String, domain: &str, type_map: &HashMap<String, String>) -> (r: String)
    ensures
        r@ == struct_field_text(*p, type_id@),
{
    let mut out = String::new();
    push_doc(&mut out, "            ", &p.description);
    push_when(&mut out, p.experimental, "            /// **EXPERIMENTAL**\n");
    push_when(&mut out, p.deprecated, "            #[deprecated]\n");
    push_when(
        &mut out,
        p.optional,
        "            #[serde(skip_serializing_if = \"Option::is_none\")]\n",
    );
    let field = field_name(&p.name);
    push_rename(&mut out, "            ", &p.name, &field);
    out.append("            pub ");
    out.append(field.as_str());
    out.append(": ");
    let t = p.type_ref.to_rust_type(domain, type_map, true);
    let boxed = if t == *type_id {
        let mut b = String::from_str("Box<");
        b.append(t.as_str());
        b.append(">");
        b
    } else {
        t
    };
    push_optional(&mut out, p.optional, &boxed);
    out.append(",\n");
    assert(out@ =~= struct_field_text(*p, type_id@));
    out
}

fn struct_fields(ps: &Vec<Property>, type_id: &String, domain: &str, type_map: &HashMap<String, String>) -> (r: String)
    ensures
        r@ == struct_fields_text(ps@, type_id@),
{
    let mut out = String::new();
    let mut i: usize = 0;
    while i < ps.len()
        invariant
            0 <= i <= ps@.len(),
            out@ == struct_fields_text(ps@.take(i as int), type_id@),
        decreases ps@.len() - i,
    {
        let field = struct_field(&ps[i], type_id, domain, type_map);
        out.append(field.as_str());
        proof {
            assert(ps@.take(i as int + 1).drop_last() =~= ps@.take(i as int));
        }
        i += 1;
    }
    assert(ps@.take(ps@.len() as int) =~= ps@);
    out
}

fn alias_target(
    base: &Option<String>,
    items: &Option<Box<TypeRef>>,
    domain: &str,
    type_map: &HashMap<String, String>,
) -> (r: String)
    ensures
        r@ == alias_text(*base, *items),
{
    match base {
        Some(b) => if *b == String::from_str("string") {
            String::from_str("String")
        } else if *b == String::from_str("integer") {
            String::from_str("i64")
        } else if *b == String::from_str("number") {
            String::from_str("f64")
        } else if *b == String::from_str("boolean") {
            String::from_str("bool")
        } else if *b == String::from_str("object") || *b == String::from_str("any") {
            String::from_str("serde_json::Value")
        } else if *b == String::from_str("array") {
            match items {
                Some(it) => {
                    let t = it.to_rust_type(domain, type_map, true);
                    let mut out = String::from_str("Vec<");
                    out.append(t.as_str());
                    out.append(">");
                    out
                },
                None => String::from_str("Vec<serde_json::Value>"),
            }
        } else {
            String::from_str("String")
        },
        None => String::from_str("String"),
    }
}

fn enum_decl(id: &String, vs: &Vec<String>) -> (r: String)
    ensures
        r@ == enum_decl_text(id@, vs@),
{
    let mut out = String::from_str("        #[derive(Debug, Clone, Serialize, Deserialize)]\n");
    out.append("        pub enum ");
    out.append(id.as_str());
    out.append(" {\n");
    let decl = enum_variants(vs);
    out.append(decl.as_str());
    out.append("        }\n");
    out
}

fn as_ref_impl(id: &String, vs: &Vec<String>) -> (r: String)
    ensures
        r@ == as_ref_impl_text(id@, vs@),
{
    let mut out = String::from_str("        impl AsRef<str> for ");
    out.append(id.as_str());
    out.append(" {\n");
    out.append("            fn as_ref(&self) -> &str {\n");
    out.append("                match self {\n");
    let arms = as_ref_arms(vs);
    out.append(arms.as_str());
    out.append("                }\n");
    out.append("            }\n");
    out.append("        }\n");
    out
}

fn from_str_impl(id: &String, vs: &Vec<String>) -> (r: String)
    ensures
        r@ == from_str_impl_text(id@, vs@),
{
    let mut out = String::from_str("        impl std::str::FromStr for ");
    out.append(id.as_str());
    out.append(" {\n");
    out.append("            type Err = String;\n");
    out.append("            fn from_str(s: &str) -> Result<Self, Self::Err> {\n");
    out.append("                match s {\n");
    let back = from_str_arms(vs);
    out.append(back.as_str());
    out.append("                    _ => Err(s.to_string()),\n");
    out.append("                }\n");
    out.append("            }\n");
    out.append("        }\n");
    out
}

fn struct_decl(id: &String, ps: &Vec<Property>, domain: &str, type_map: &HashMap<String, String>) -> (r: String)
    ensures
        r@ == struct_decl_text(id@, ps@),
{
    let mut out = String::from_str("        #[derive(Debug, Clone, Serialize, Deserialize)]\n");
    out.append("        #[serde(rename_all = \"camelCase\")]\n");
    out.append("        pub struct ");
    out.append(id.as_str());
    out.append(" {\n");
    let fields = struct_fields(ps, id, domain, type_map);
    out.append(fields.as_str());
    out.append("        }\n");
    out
}

fn alias_decl(
    id: &String,
    base: &Option<String>,
    items: &Option<Box<TypeRef>>,
    domain: &str,
    type_map: &HashMap<String, String>,
) -> (r: String)
    ensures
        r@ == alias_decl_text(id@, *base, *items),
{
    let mut out = String::from_str("        pub type ");
    out.append(id.as_str());
    out.append(" = ");
    let target = alias_target(base, items, domain, type_map);
    out.append(target.as_str());
    out.append(";\n");
    out
}

/// The Rust text of one named type of `domain`.
pub fn generate_type(type_def: &TypeDef, domain: &str, type_map: &HashMap<String, String>) -> (r:
    String)
    ensures
        r@ == type_text(*type_def),
{
    let mut out = String::new();
    push_doc(&mut out, "        ", &type_def.description);
    push_when(
        &mut out,
        type_def.experimental,
        "        /// **EXPERIMENTAL**: This feature is experimental and may change or be removed.\n",
    );
    push_when(&mut out, type_def.deprecated, "        #[deprecated]\n");
    let ghost head = out@;
    if type_def.enum_.len() > 0 {
        let a = enum_decl(&type_def.id, &type_def.enum_);
        let b = as_ref_impl(&type_def.id, &type_def.enum_);
        let c = from_str_impl(&type_def.id, &type_def.enum_);
        out.append(a.as_str());
        out.append(b.as_str());
        out.append(c.as_str());
        assert(out@ =~= head + (a@ + b@ + c@));
    } else if type_def.properties.len() > 0 {
        let a = struct_decl(&type_def.id, &type_def.properties, domain, type_map);
        out.append(a.as_str());
    } else {
        let a = alias_decl(&type_def.id, &type_def.type_, &type_def.items, domain, type_map);
        out.append(a.as_str());
    }
    out
}
/// The field of a response struct for one returned value; an experimental
/// value may be absent too.
pub open spec fn response_field_text(p: Property) -> Seq<char> {
    let indent = "            "@;
    doc_text(indent, p.description) + when(p.experimental, "            /// **EXPERIMENTAL**\n"@)
        + when(p.deprecated, "            #[deprecated]\n"@) + rename_text(indent, p.name@)
        + "            pub "@ + field_of(p.name@) + ": "@ + optional_text(
        p.optional || p.experimental,
        rust_type_text(p.type_ref, false),
    ) + ",\n"@
}

/// The fields of a response struct, one per returned value.
pub open spec fn response_fields_text(ps: Seq<Property>) -> Seq<char>
    decreases ps.len(),
{
    if ps.len() == 0 {
        Seq::empty()
    } else {
        response_fields_text(ps.drop_last()) + response_field_text(ps.last())
    }
}

/// The response struct of a command.
pub open spec fn response_text(c: Command) -> Seq<char> {
    "        #[derive(Debug, Clone, Deserialize)]\n"@ + "        #[serde(rename_all = \"camelCase\")]\n"@
        + "        pub struct "@ + pascal_case_of(c.name@) + "Response"@ + " {\n"@
        + response_fields_text(c.returns@) + "        }\n"@
}

fn response_field(p: &Property, domain: &str, type_map: &HashMap<String, String>) -> (r: String)
    ensures
        r@ == response_field_text(*p),
{
    let mut out = String::new();
    push_doc(&mut out, "            ", &p.description);
    push_when(&mut out, p.experimental, "            /// **EXPERIMENTAL**\n");
    push_when(&mut out, p.deprecated, "            #[deprecated]\n");
    let field = field_name(&p.name);
    push_rename(&mut out, "            ", &p.name, &field);
    out.append("            pub ");
    out.append(field.as_str());
    out.append(": ");
    let t = p.type_ref.to_rust_type(domain, type_map, false);
    push_optional(&mut out, p.optional || p.experimental, &t);
    out.append(",\n");
    assert(out@ =~= response_field_text(*p));
    out
}

/// The Rust text of the struct that a command of `domain` returns.
pub fn generate_response(command: &Command, domain: &str, type_map: &HashMap<String, String>) -> (r:
    String)
    ensures
        r@ == response_text(*command),
{
    let mut out = String::from_str("        #[derive(Debug, Clone, Deserialize)]\n");
    out.append("        #[serde(rename_all = \"camelCase\")]\n");
    out.append("        pub struct ");
    let name = pascal_case(command.name.as_str());
    out.append(name.as_str());
    out.append("Response");
    out.append(" {\n");
    let ghost head = out@;
    let ps = &command.returns;
    let mut i: usize = 0;
    while i < ps.len()
        invariant
            0 <= i <= ps@.len(),
            out@ == head + response_fields_text(ps@.take(i as int)),
        decreases ps@.len() - i,
    {
        let field = response_field(&ps[i], domain, type_map);
        out.append(field.as_str());
        proof {
            assert(ps@.take(i as int + 1).drop_last() =~= ps@.take(i as int));
            assert(out@ =~= head + (response_fields_text(ps@.take(i as int)) + field@));
        }
        i += 1;
    }
    assert(ps@.take(ps@.len() as int) =~= ps@);
    out.append("        }\n");
    out
}

/// A parameter field of a command struct.
pub open spec fn command_field_text(p: Property) -> Seq<char> {
    let indent = "            "@;
    doc_text(indent, p.description) + when(p.experimental, "            /// **EXPERIMENTAL**\n"@)
        + when(p.deprecated, "            #[deprecated]\n"@) + when(
        p.optional,
        "            #[serde(skip_serializing_if = \"Option::is_none\")]\n"@,
    ) + rename_text(indent, p.name@) + "            "@ + field_of(p.name@) + ": "@ + optional_text(
        p.optional,
        rust_type_text(p.type_ref, false),
    ) + ",\n"@
}

/// The fields of a command struct, one per parameter.
pub open spec fn command_fields_text(ps: Seq<Property>) -> Seq<char>
    decreases ps.len(),
{
    if ps.len() == 0 {
        Seq::empty()
    } else {
        command_fields_text(ps.drop_last()) + command_field_text(ps.last())
    }
}

/// The argument of `new` for a required parameter.
pub open spec fn new_arg_text(p: Property) -> Seq<char> {
    field_of(p.name@) + ": impl Into<"@ + rust_type_text(p.type_ref, false) + ">"@
}

/// The arguments of `new`: one per required parameter, comma-separated.
pub open spec fn new_args_text(ps: Seq<Property>) -> Seq<char>
    decreases ps.len(),
{
    if ps.len() == 0 {
        Seq::empty()
    } else {
        let prev = new_args_text(ps.drop_last());
        let p = ps.last();
        if p.optional {
            prev
        } else if prev.len() == 0 {
            new_arg_text(p)
        } else {
            prev + ", "@ + new_arg_text(p)
        }
    }
}

/// How `new` sets a field: from its argument, or to `None` when optional.
pub open spec fn init_text(p: Property) -> Seq<char> {
    let f = field_of(p.name@);
    if p.optional {
        "                    "@ + f + ": None,\n"@
    } else {
        "                    "@ + f + ": "@ + f + ".into(),\n"@
    }
}

pub open spec fn inits_text(ps: Seq<Property>) -> Seq<char>
    decreases ps.len(),
{
    if ps.len() == 0 {
        Seq::empty()
    } else {
        inits_text(ps.drop_last()) + init_text(ps.last())
    }
}

/// The `with_` builder of an optional parameter; nothing for a required one.
pub open spec fn builder_text(p: Property) -> Seq<char> {
    let f = field_of(p.name@);
    when(
        p.optional,
        "\n            pub fn with_"@ + f + "(mut self, "@ + f + ": impl Into<"@ + rust_type_text(
            p.type_ref,
            false,
        ) + ">) -> Self {\n"@ + "                self."@ + f + " = Some("@ + f + ".into());\n"@
            + "                self\n"@ + "            }\n"@,
    )
}

pub open spec fn builders_text(ps: Seq<Property>) -> Seq<char>
    decreases ps.len(),
{
    if ps.len() == 0 {
        Seq::empty()
    } else {
        builders_text(ps.drop_last()) + builder_text(ps.last())
    }
}

/// The struct of a command.
pub open spec fn command_struct_text(c: Command) -> Seq<char> {
    doc_text("        "@, c.description) + status_text(c.experimental, c.deprecated)
        + "        #[derive(Debug, Clone, Serialize)]\n"@ + "        #[serde(rename_all = \"camelCase\")]\n"@
        + "        pub struct "@ + pascal_case_of(c.name@) + " {\n"@ + command_fields_text(c.parameters@)
        + "        }\n\n"@
}

/// The constructor and builders of a command.
pub open spec fn command_impl_text(c: Command) -> Seq<char> {
    "        impl "@ + pascal_case_of(c.name@) + " {\n"@ + "            pub fn new("@ + new_args_text(
        c.parameters@,
    ) + ") -> Self {\n"@ + "                Self {\n"@ + inits_text(c.parameters@)
        + "                }\n"@ + "            }\n"@ + builders_text(c.parameters@) + "        }\n\n"@
}

/// The `Method` impl of a command: its response type and wire name.
pub open spec fn method_impl_text(c: Command, domain: Seq<char>) -> Seq<char> {
    let s = pascal_case_of(c.name@);
    "        impl Method for "@ + s + " {\n"@ + "            type Response = "@ + if c.returns@.len()
        == 0 {
        "()"@
    } else {
        "responses::"@ + s + "Response"@
    } + ";\n"@ + "            const METHOD: &'static str = \""@ + domain + "."@ + c.name@ + "\";\n"@
        + "        }\n"@
}

/// The Rust text of a command.
pub open spec fn command_text(c: Command, domain: Seq<char>) -> Seq<char> {
    command_struct_text(c) + command_impl_text(c) + method_impl_text(c, domain)
}

fn command_field(p: &Property, domain: &str, type_map: &HashMap<String, String>) -> (r: String)
    ensures
        r@ == command_field_text(*p),
{
    let mut out = String::new();
    push_doc(&mut out, "            ", &p.description);
    push_when(&mut out, p.experimental, "            /// **EXPERIMENTAL**\n");
    push_when(&mut out, p.deprecated, "            #[deprecated]\n");
    push_when(
        &mut out,
        p.optional,
        "            #[serde(skip_serializing_if = \"Option::is_none\")]\n",
    );
    let field = field_name(&p.name);
    push_rename(&mut out, "            ", &p.name, &field);
    out.append("            ");
    out.append(field.as_str());
    out.append(": ");
    let t = p.type_ref.to_rust_type(domain, type_map, false);
    push_optional(&mut out, p.optional, &t);
    out.append(",\n");
    assert(out@ =~= command_field_text(*p));
    out
}

fn command_struct(command: &Command, name: &String, domain: &str, type_map: &HashMap<String, String>) -> (r: String)
    requires
        name@ == pascal_case_of(command.name@),
    ensures
        r@ == command_struct_text(*command),
{
    let mut out = String::new();
    push_doc(&mut out, "        ", &command.description);
    push_when(
        &mut out,
        command.experimental,
        "        /// **EXPERIMENTAL**: This feature is experimental and may change or be removed.\n",
    );
    push_when(&mut out, command.deprecated, "        #[deprecated]\n");
    out.append("        #[derive(Debug, Clone, Serialize)]\n");
    out.append("        #[serde(rename_all = \"camelCase\")]\n");
    out.append("        pub struct ");
    out.append(name.as_str());
    out.append(" {\n");
    let ghost head = out@;
    let ps = &command.parameters;
    let mut i: usize = 0;
    while i < ps.len()
        invariant
            0 <= i <= ps@.len(),
            out@ == head + command_fields_text(ps@.take(i as int)),
        decreases ps@.len() - i,
    {
        let field = command_field(&ps[i], domain, type_map);
        out.append(field.as_str());
        proof {
            assert(ps@.take(i as int + 1).drop_last() =~= ps@.take(i as int));
            assert(out@ =~= head + (command_fields_text(ps@.take(i as int)) + field@));
        }
        i += 1;
    }
    assert(ps@.take(ps@.len() as int) =~= ps@);
    out.append("        }\n\n");
    out
}

fn new_args(ps: &Vec<Property>, domain: &str, type_map: &HashMap<String, String>) -> (r: String)
    ensures
        r@ == new_args_text(ps@),
{
    let mut out = String::new();
    let mut i: usize = 0;
    while i < ps.len()
        invariant
            0 <= i <= ps@.len(),
            out@ == new_args_text(ps@.take(i as int)),
        decreases ps@.len() - i,
    {
        proof {
            assert(ps@.take(i as int + 1).drop_last() =~= ps@.take(i as int));
        }
        let p = &ps[i];
        if !p.optional {
            let ghost prev = out@;
            if out.as_str().unicode_len() > 0 {
                out.append(", ");
            }
            let field = field_name(&p.name);
            out.append(field.as_str());
            out.append(": impl Into<");
            let t = p.type_ref.to_rust_type(domain, type_map, false);
            out.append(t.as_str());
            out.append(">");
            proof {
                if prev.len() == 0 {
                    assert(out@ =~= new_arg_text(*p));
                } else {
                    assert(out@ =~= prev + ", "@ + new_arg_text(*p));
                }
            }
        }
        i += 1;
    }
    assert(ps@.take(ps@.len() as int) =~= ps@);
    out
}

fn inits(ps: &Vec<Property>) -> (r: String)
    ensures
        r@ == inits_text(ps@),
{
    let mut out = String::new();
    let mut i: usize = 0;
    while i < ps.len()
        invariant
            0 <= i <= ps@.len(),
            out@ == inits_text(ps@.take(i as int)),
        decreases ps@.len() - i,
    {
        let ghost prev = out@;
        let p = &ps[i];
        let field = field_name(&p.name);
        out.append("                    ");
        out.append(field.as_str());
        if p.optional {
            out.append(": None,\n");
        } else {
            out.append(": ");
            out.append(field.as_str());
            out.append(".into(),\n");
        }
        proof {
            assert(ps@.take(i as int + 1).drop_last() =~= ps@.take(i as int));
            assert(out@ =~= prev + init_text(*p));
        }
        i += 1;
    }
    assert(ps@.take(ps@.len() as int) =~= ps@);
    out
}

fn builders(ps: &Vec<Property>, domain: &str, type_map: &HashMap<String, String>) -> (r: String)
    ensures
        r@ == builders_text(ps@),
{
    let mut out = String::new();
    let mut i: usize = 0;
    while i < ps.len()
        invariant
            0 <= i <= ps@.len(),
            out@ == builders_text(ps@.take(i as int)),
        decreases ps@.len() - i,
    {
        let ghost prev = out@;
        let p = &ps[i];
        if p.optional {
            let field = field_name(&p.name);
            let t = p.type_ref.to_rust_type(domain, type_map, false);
            out.append("\n            pub fn with_");
            out.append(field.as_str());
            out.append("(mut self, ");
            out.append(field.as_str());
            out.append(": impl Into<");
            out.append(t.as_str());
            out.append(">) -> Self {\n");
            out.append("                self.");
            out.append(field.as_str());
            out.append(" = Some(");
            out.append(field.as_str());
            out.append(".into());\n");
            out.append("                self\n");
            out.append("            }\n");
        }
        proof {
            assert(ps@.take(i as int + 1).drop_last() =~= ps@.take(i as int));
            assert(out@ =~= prev + builder_text(*p));
        }
        i += 1;
    }
    assert(ps@.take(ps@.len() as int) =~= ps@);
    out
}

fn command_impl(command: &Command, name: &String, domain: &str, type_map: &HashMap<String, String>) -> (r: String)
    requires
        name@ == pascal_case_of(command.name@),
    ensures
        r@ == command_impl_text(*command),
{
    let mut out = String::from_str("        impl ");
    out.append(name.as_str());
    out.append(" {\n");
    out.append("            pub fn new(");
    let args = new_args(&command.parameters, domain, type_map);
    out.append(args.as_str());
    out.append(") -> Self {\n");
    out.append("                Self {\n");
    let fields = inits(&command.parameters);
    out.append(fields.as_str());
    out.append("                }\n");
    out.append("            }\n");
    let with = builders(&command.parameters, domain, type_map);
    out.append(with.as_str());
    out.append("        }\n\n");
    out
}

fn method_impl(command: &Command, name: &String, domain: &str) -> (r: String)
    requires
        name@ == pascal_case_of(command.name@),
    ensures
        r@ == method_impl_text(*command, domain@),
{
    let mut out = String::from_str("        impl Method for ");
    out.append(name.as_str());
    out.append(" {\n");
    out.append("            type Response = ");
    if command.returns.len() == 0 {
        out.append("()");
    } else {
        out.append("responses::");
        out.append(name.as_str());
        out.append("Response");
    }
    out.append(";\n");
    out.append("            const METHOD: &'static str = \"");
    out.append(domain);
    out.append(".");
    out.append(command.name.as_str());
    out.append("\";\n");
    out.append("        }\n");
    out
}

/// The Rust text of one command of `domain`: its struct, a constructor
/// taking the required parameters, a `with_` builder per optional one, and
/// its `Method` impl.
pub fn generate_command(command: &Command, domain: &str, type_map: &HashMap<String, String>) -> (r:
    String)
    ensures
        r@ == command_text(*command, domain@),
{
    let name = pascal_case(command.name.as_str());
    let a = command_struct(command, &name, domain, type_map);
    let b = command_impl(command, &name, domain, type_map);
    let c = method_impl(command, &name, domain);
    let mut out = a;
    out.append(b.as_str());
    out.append(c.as_str());
    out
}

/// Some command of the list returns something.
pub open spec fn has_responses(cs: Seq<Command>) -> bool {
    exists|i: int| 0 <= i < cs.len() && cs[i].returns@.len() > 0
}

pub open spec fn types_block_text(ts: Seq<TypeDef>) -> Seq<char>
    decreases ts.len(),
{
    if ts.len() == 0 {
        Seq::empty()
    } else {
        types_block_text(ts.drop_last()) + type_text(ts.last()) + "\n"@
    }
}

pub open spec fn responses_block_text(cs: Seq<Command>) -> Seq<char>
    decreases cs.len(),
{
    if cs.len() == 0 {
        Seq::empty()
    } else {
        responses_block_text(cs.drop_last()) + when(
            cs.last().returns@.len() > 0,
            response_text(cs.last()) + "\n"@,
        )
    }
}

pub open spec fn commands_block_text(cs: Seq<Command>, domain: Seq<char>) -> Seq<char>
    decreases cs.len(),
{
    if cs.len() == 0 {
        Seq::empty()
    } else {
        commands_block_text(cs.drop_last(), domain) + command_text(cs.last(), domain) + "\n"@
    }
}

pub open spec fn events_block_text(es: Seq<Event>, domain: Seq<char>) -> Seq<char>
    decreases es.len(),
{
    if es.len() == 0 {
        Seq::empty()
    } else {
        events_block_text(es.drop_last(), domain) + event_text(es.last(), domain) + "\n"@
    }
}

/// The `types` module of a domain.
pub open spec fn types_mod_text(d: Domain) -> Seq<char> {
    when(
        d.types@.len() > 0,
        "    /// CDP type definitions for this domain.\n"@ + "    pub mod types {\n"@
            + "        use super::super::*;\n\n"@ + types_block_text(d.types@) + "    }\n\n"@,
    )
}

/// The `responses` module of a domain.
pub open spec fn responses_mod_text(d: Domain) -> Seq<char> {
    when(
        has_responses(d.commands@),
        "    /// Response types returned by methods in this domain.\n"@ + "    pub mod responses {\n"@
            + "        use super::super::*;\n"@ + when(d.types@.len() > 0, "        use super::types;\n"@)
            + "\n"@ + responses_block_text(d.commands@) + "    }\n\n"@,
    )
}

/// The `methods` module of a domain.
pub open spec fn methods_mod_text(d: Domain) -> Seq<char> {
    when(
        d.commands@.len() > 0,
        "    /// CDP methods (commands) for this domain.\n"@ + "    pub mod methods {\n"@
            + "        use super::super::*;\n"@ + when(d.types@.len() > 0, "        use super::types;\n"@)
            + when(has_responses(d.commands@), "        use super::responses;\n"@) + "\n"@
            + commands_block_text(d.commands@, d.domain@) + "    }\n\n"@,
    )
}

/// The `events` module of a domain.
pub open spec fn events_mod_text(d: Domain) -> Seq<char> {
    when(
        d.events@.len() > 0,
        "    /// CDP events for this domain.\n"@ + "    pub mod events {\n"@
            + "        use super::super::*;\n"@ + when(d.types@.len() > 0, "        use super::types;\n"@)
            + "\n"@ + events_block_text(d.events@, d.domain@) + "    }\n\n"@,
    )
}

/// The module of a domain, named after it, with a submodule for each kind
/// of item that it has.
#[verifier::opaque]
pub open spec fn domain_text(d: Domain) -> Seq<char> {
    "pub mod "@ + normalized_domain(snake_case_of(d.domain@)) + " {\n"@ + "    use super::*;\n\n"@
        + types_mod_text(d) + responses_mod_text(d) + methods_mod_text(d) + events_mod_text(d)
        + "}\n"@
}

fn any_returns(cs: &Vec<Command>) -> (r: bool)
    ensures
        r == has_responses(cs@),
{
    let mut i: usize = 0;
    while i < cs.len()
        invariant
            0 <= i <= cs@.len(),
            forall|j: int| 0 <= j < i ==> cs@[j].returns@.len() == 0,
        decreases cs@.len() - i,
    {
        if cs[i].returns.len() > 0 {
            return true;
        }
        i += 1;
    }
    false
}

fn types_mod(d: &Domain, type_map: &HashMap<String, String>) -> (r: String)
    ensures
        r@ == types_mod_text(*d),
{
    let mut out = String::new();
    if d.types.len() == 0 {
        return out;
    }
    out.append("    /// CDP type definitions for this domain.\n");
    out.append("    pub mod types {\n");
    out.append("        use super::super::*;\n\n");
    let ghost head = out@;
    let ts = &d.types;
    let mut i: usize = 0;
    while i < ts.len()
        invariant
            0 <= i <= ts@.len(),
            out@ == head + types_block_text(ts@.take(i as int)),
        decreases ts@.len() - i,
    {
        let t = generate_type(&ts[i], d.domain.as_str(), type_map);
        out.append(t.as_str());
        out.append("\n");
        proof {
            assert(ts@.take(i as int + 1).drop_last() =~= ts@.take(i as int));
            assert(out@ =~= head + (types_block_text(ts@.take(i as int)) + t@ + "\n"@));
        }
        i += 1;
    }
    assert(ts@.take(ts@.len() as int) =~= ts@);
    out.append("    }\n\n");
    out
}

fn responses_mod(d: &Domain, has_types: bool, has_resp: bool, type_map: &HashMap<String, String>) -> (r: String)
    requires
        has_types == (d.types@.len() > 0),
        has_resp == has_responses(d.commands@),
    ensures
        r@ == responses_mod_text(*d),
{
    let mut out = String::new();
    if !has_resp {
        return out;
    }
    out.append("    /// Response types returned by methods in this domain.\n");
    out.append("    pub mod responses {\n");
    out.append("        use super::super::*;\n");
    push_when(&mut out, has_types, "        use super::types;\n");
    out.append("\n");
    let ghost head = out@;
    let cs = &d.commands;
    let mut i: usize = 0;
    while i < cs.len()
        invariant
            0 <= i <= cs@.len(),
            out@ == head + responses_block_text(cs@.take(i as int)),
        decreases cs@.len() - i,
    {
        let ghost prev = out@;
        if cs[i].returns.len() > 0 {
            let t = generate_response(&cs[i], d.domain.as_str(), type_map);
            out.append(t.as_str());
            out.append("\n");
        }
        proof {
            assert(cs@.take(i as int + 1).drop_last() =~= cs@.take(i as int));
            assert(out@ =~= prev + when(cs@[i as int].returns@.len() > 0, response_text(cs@[i as int]) + "\n"@));
        }
        i += 1;
    }
    assert(cs@.take(cs@.len() as int) =~= cs@);
    out.append("    }\n\n");
    out
}

fn methods_mod(d: &Domain, has_types: bool, has_resp: bool, type_map: &HashMap<String, String>) -> (r: String)
    requires
        has_types == (d.types@.len() > 0),
        has_resp == has_responses(d.commands@),
    ensures
        r@ == methods_mod_text(*d),
{
    let mut out = String::new();
    if d.commands.len() == 0 {
        return out;
    }
    out.append("    /// CDP methods (commands) for this domain.\n");
    out.append("    pub mod methods {\n");
    out.append("        use super::super::*;\n");
    push_when(&mut out, has_types, "        use super::types;\n");
    push_when(&mut out, has_resp, "        use super::responses;\n");
    out.append("\n");
    let ghost head = out@;
    let cs = &d.commands;
    let mut i: usize = 0;
    while i < cs.len()
        invariant
            0 <= i <= cs@.len(),
            out@ == head + commands_block_text(cs@.take(i as int), d.domain@),
        decreases cs@.len() - i,
    {
        let t = generate_command(&cs[i], d.domain.as_str(), type_map);
        out.append(t.as_str());
        out.append("\n");
        proof {
            assert(cs@.take(i as int + 1).drop_last() =~= cs@.take(i as int));
            assert(out@ =~= head + (commands_block_text(cs@.take(i as int), d.domain@) + t@ + "\n"@));
        }
        i += 1;
    }
    assert(cs@.take(cs@.len() as int) =~= cs@);
    out.append("    }\n\n");
    out
}

fn events_mod(d: &Domain, has_types: bool, type_map: &HashMap<String, String>) -> (r: String)
    requires
        has_types == (d.types@.len() > 0),
    ensures
        r@ == events_mod_text(*d),
{
    let mut out = String::new();
    if d.events.len() == 0 {
        return out;
    }
    out.append("    /// CDP events for this domain.\n");
    out.append("    pub mod events {\n");
    out.append("        use super::super::*;\n");
    push_when(&mut out, has_types, "        use super::types;\n");
    out.append("\n");
    let ghost head = out@;
    let es = &d.events;
    let mut i: usize = 0;
    while i < es.len()
        invariant
            0 <= i <= es@.len(),
            out@ == head + events_block_text(es@.take(i as int), d.domain@),
        decreases es@.len() - i,
    {
        let t = generate_event(&es[i], d.domain.as_str(), type_map);
        out.append(t.as_str());
        out.append("\n");
        proof {
            assert(es@.take(i as int + 1).drop_last() =~= es@.take(i as int));
            assert(out@ =~= head + (events_block_text(es@.take(i as int), d.domain@) + t@ + "\n"@));
        }
        i += 1;
    }
    assert(es@.take(es@.len() as int) =~= es@);
    out.append("    }\n\n");
    out
}

/// The Rust text of one domain's module.
pub fn generate_domain(domain: &Domain, type_map: &HashMap<String, String>) -> (r: String)
    ensures
        r@ == domain_text(*domain),
{
    proof {
        reveal(domain_text);
    }
    let snake = snake_case(domain.domain.as_str());
    let module_name = normalize_domain_name(snake.as_str());
    let has_types = domain.types.len() > 0;
    let has_resp = any_returns(&domain.commands);
    let mut out = String::from_str("pub mod ");
    out.append(module_name.as_str());
    out.append(" {\n");
    out.append("    use super::*;\n\n");
    let a = types_mod(domain, type_map);
    let b = responses_mod(domain, has_types, has_resp, type_map);
    let c = methods_mod(domain, has_types, has_resp, type_map);
    let e = events_mod(domain, has_types, type_map);
    out.append(a.as_str());
    out.append(b.as_str());
    out.append(c.as_str());
    out.append(e.as_str());
    out.append("}\n");
    out
}

pub open spec fn is_leap(y: int) -> bool {
    y % 4 == 0 && (y % 100 != 0 || y % 400 == 0)
}

pub open spec fn year_days(y: int) -> int {
    if is_leap(y) {
        366
    } else {
        365
    }
}

/// The year holding day `rem` counted from January 1 of year `y`, with the
/// day's index within that year.
pub open spec fn year_of(y: int, rem: int) -> (int, int)
    decreases rem,
{
    if rem < year_days(y) {
        (y, rem)
    } else {
        year_of(y + 1, rem - year_days(y))
    }
}

/// The length of month `m` (0 for January).
pub open spec fn month_days(m: int, leap: bool) -> int {
    if m == 1 {
        if leap {
            29
        } else {
            28
        }
    } else if m == 3 || m == 5 || m == 8 || m == 10 {
        30
    } else {
        31
    }
}

/// The month holding day `rem` counted from the start of month `m`, with
/// the day's index within that month.
pub open spec fn month_of(m: int, rem: int, leap: bool) -> (int, int)
    decreases 12 - m,
{
    if m >= 12 || rem < month_days(m, leap) {
        (m, rem)
    } else {
        month_of(m + 1, rem - month_days(m, leap), leap)
    }
}

/// The decimal text of `n`, with leading zeros up to `width` digits.
pub open spec fn padded(n: nat, width: nat) -> Seq<char> {
    let d = decimal(n);
    if d.len() < width {
        Seq::new((width - d.len()) as nat, |i: int| '0') + d
    } else {
        d
    }
}

/// `YYYY-MM-DD hh:mm:ss UTC` for a count of seconds since 1970-01-01 UTC.
pub open spec fn utc_text(secs: nat) -> Seq<char> {
    let days = secs / 86400;
    let tod = secs % 86400;
    let (y, rem) = year_of(1970, days as int);
    let (m, d) = month_of(0, rem, is_leap(y));
    padded(y as nat, 4) + "-"@ + padded((m + 1) as nat, 2) + "-"@ + padded((d + 1) as nat, 2) + " "@
        + padded(tod / 3600, 2) + ":"@ + padded((tod % 3600) / 60, 2) + ":"@ + padded(tod % 60, 2)
        + " UTC"@
}

fn padded_text(n: u64, width: usize) -> (r: String)
    ensures
        r@ == padded(n as nat, width as nat),
{
    let digits = decimal_text(n);
    let len = digits.as_str().unicode_len();
    let mut out = String::new();
    if len < width {
        let mut i: usize = 0;
        while i < width - len
            invariant
                len < width,
                0 <= i <= width - len,
                out@ == Seq::new(i as nat, |k: int| '0'),
            decreases width - len - i,
        {
            push_char(&mut out, '0');
            assert(out@ =~= Seq::new((i + 1) as nat, |k: int| '0'));
            i += 1;
        }
    }
    out.append(digits.as_str());
    assert(len < width ==> out@ =~= Seq::new((width - len) as nat, |k: int| '0') + digits@);
    assert(len >= width ==> out@ =~= digits@);
    out
}

fn leap(y: i64) -> (r: bool)
    ensures
        r == is_leap(y as int),
{
    y % 4 == 0 && (y % 100 != 0 || y % 400 == 0)
}

fn year_len(y: i64) -> (r: i64)
    ensures
        r == year_days(y as int),
{
    if leap(y) {
        366
    } else {
        365
    }
}

fn month_len(m: i64, is_leap_year: bool) -> (r: i64)
    ensures
        r == month_days(m as int, is_leap_year),
{
    if m == 1 {
        if is_leap_year {
            29
        } else {
            28
        }
    } else if m == 3 || m == 5 || m == 8 || m == 10 {
        30
    } else {
        31
    }
}

/// The UTC date and time of a count of seconds since 1970-01-01 UTC.
pub fn utc_timestamp(secs: u64) -> (r: String)
    ensures
        r@ == utc_text(secs as nat),
{
    let days = secs / 86400;
    let time_of_day = secs % 86400;
    let hours = time_of_day / 3600;
    let minutes = (time_of_day % 3600) / 60;
    let seconds = time_of_day % 60;
    let mut y: i64 = 1970;
    let mut remaining: i64 = days as i64;
    while remaining >= year_len(y)
        invariant
            0 <= remaining <= days,
            1970 <= y <= 1970 + (days - remaining),
            days <= u64::MAX / 86400,
            year_of(y as int, remaining as int) == year_of(1970, days as int),
        decreases remaining,
    {
        remaining -= year_len(y);
        y += 1;
    }
    assert(year_of(y as int, remaining as int) == (y as int, remaining as int));
    let is_leap_year = leap(y);
    let mut m: i64 = 0;
    while m < 12 && remaining >= month_len(m, is_leap_year)
        invariant
            0 <= m <= 12,
            0 <= remaining < 366,
            year_of(1970, days as int).0 == y,
            month_of(m as int, remaining as int, is_leap_year) == month_of(0, year_of(1970, days as int).1, is_leap_year),
        decreases 12 - m,
    {
        let md = month_len(m, is_leap_year);
        remaining -= md;
        m += 1;
    }
    assert(month_of(m as int, remaining as int, is_leap_year) == (m as int, remaining as int));
    let ghost ym = year_of(1970, days as int);
    assert(ym.0 == y);
    assert(month_of(0, ym.1, is_leap(ym.0)) == (m as int, remaining as int));
    let mut out = padded_text(y as u64, 4);
    out.append("-");
    let mm = padded_text((m + 1) as u64, 2);
    out.append(mm.as_str());
    out.append("-");
    let dd = padded_text((remaining + 1) as u64, 2);
    out.append(dd.as_str());
    out.append(" ");
    let hh = padded_text(hours, 2);
    out.append(hh.as_str());
    out.append(":");
    let mi = padded_text(minutes, 2);
    out.append(mi.as_str());
    out.append(":");
    let ss = padded_text(seconds, 2);
    out.append(ss.as_str());
    out.append(" UTC");
    assert(out@ =~= utc_text(secs as nat));
    out
}

/// Every domain of the protocols, in order.
pub open spec fn all_domains(ps: Seq<Protocol>) -> Seq<Domain>
    decreases ps.len(),
{
    if ps.len() == 0 {
        Seq::empty()
    } else {
        all_domains(ps.drop_last()) + ps.last().domains@
    }
}

pub open spec fn domains_text(ds: Seq<Domain>) -> Seq<char>
    decreases ds.len(),
{
    if ds.len() == 0 {
        Seq::empty()
    } else {
        domains_text(ds.drop_last()) + domain_text(ds.last()) + "\n"@
    }
}

/// The head of a generated file: when it was made, and the version of the
/// first protocol.
pub open spec fn code_head_text(ps: Seq<Protocol>, now: Seq<char>) -> Seq<char> {
    "// Auto-generated from Chrome DevTools Protocol\n"@ + "// Generated at: "@ + now + "\n"@
        + "// DO NOT EDIT MANUALLY  OvO\n\n"@ + "#![allow(dead_code, unused_imports, clippy::all)]\n\n"@
        + "use serde::{Deserialize, Serialize};\n"@ + "use crate::{Method, CDP};\n\n"@ + when(
        ps.len() > 0,
        "/// CDP Protocol version (major.minor)\n"@ + "pub const CDP_VERSION: &str = \""@
            + ps[0].version.major@ + "."@ + ps[0].version.minor@ + "\";\n\n"@,
    )
}

/// A whole generated file for the protocols, made at `unix_secs`.
pub open spec fn code_text(ps: Seq<Protocol>, unix_secs: nat) -> Seq<char> {
    code_head_text(ps, utc_text(unix_secs)) + domains_text(all_domains(ps))
}

/// A key of the type map names a type `Domain.Type` of one of the
/// protocols, and its value is the type's id.
pub open spec fn is_type_entry(ps: Seq<Protocol>, key: Seq<char>, value: Seq<char>) -> bool {
    exists|i: int, j: int, k: int|
        0 <= i < ps.len() && 0 <= j < ps[i].domains@.len() && 0 <= k < ps[i].domains@[j].types@.len()
            && key == ps[i].domains@[j].domain@ + "."@ + ps[i].domains@[j].types@[k].id@ && value
            == ps[i].domains@[j].types@[k].id@
}

/// Maps each type `Domain.Type` of the protocols to its id.
fn build_type_map(protocols: &[Protocol]) -> (m: HashMap<String, String>)
    ensures
        obeys_key_model::<String>() && builds_valid_hashers::<RandomState>() ==> forall|k: String|
            #[trigger] m@.contains_key(k) ==> is_type_entry(protocols@, k@, m@[k]@),
{
    let mut map: HashMap<String, String> = HashMap::new();
    let mut i: usize = 0;
    while i < protocols.len()
        invariant
            0 <= i <= protocols@.len(),
            obeys_key_model::<String>() && builds_valid_hashers::<RandomState>() ==> forall|k: String|
                #[trigger] map@.contains_key(k) ==> is_type_entry(protocols@, k@, map@[k]@),
        decreases protocols@.len() - i,
    {
        let ds = &protocols[i].domains;
        let mut j: usize = 0;
        while j < ds.len()
            invariant
                0 <= i < protocols@.len(),
                ds@ == protocols@[i as int].domains@,
                0 <= j <= ds@.len(),
                obeys_key_model::<String>() && builds_valid_hashers::<RandomState>() ==> forall|k: String|
                    #[trigger] map@.contains_key(k) ==> is_type_entry(protocols@, k@, map@[k]@),
            decreases ds@.len() - j,
        {
            let ts = &ds[j].types;
            let mut t: usize = 0;
            while t < ts.len()
                invariant
                    0 <= i < protocols@.len(),
                    ds@ == protocols@[i as int].domains@,
                    0 <= j < ds@.len(),
                    ts@ == ds@[j as int].types@,
                    0 <= t <= ts@.len(),
                    obeys_key_model::<String>() && builds_valid_hashers::<RandomState>() ==> forall|k: String|
                        #[trigger] map@.contains_key(k) ==> is_type_entry(protocols@, k@, map@[k]@),
                decreases ts@.len() - t,
            {
                let mut key = ds[j].domain.clone();
                key.append(".");
                key.append(ts[t].id.as_str());
                let value = ts[t].id.clone();
                proof {
                    assert(is_type_entry(protocols@, key@, value@)) by {
                        assert(0 <= i < protocols@.len() && 0 <= j < protocols@[i as int].domains@.len() && 0 <= t < protocols@[i as int].domains@[j as int].types@.len());
                    }
                }
                map.insert(key, value);
                t += 1;
            }
            j += 1;
        }
        i += 1;
    }
    map
}

/// The Rust text of the bindings for the protocols, stamped with the time
/// `unix_secs` (seconds since 1970-01-01 UTC).
pub fn generate_code(protocols: &[Protocol], unix_secs: u64) -> (r: String)
    ensures
        r@ == code_text(protocols@, unix_secs as nat),
{
    let now = utc_timestamp(unix_secs);
    let mut out = String::from_str("// Auto-generated from Chrome DevTools Protocol\n");
    out.append("// Generated at: ");
    out.append(now.as_str());
    out.append("\n");
    out.append("// DO NOT EDIT MANUALLY  OvO\n\n");
    out.append("#![allow(dead_code, unused_imports, clippy::all)]\n\n");
    out.append("use serde::{Deserialize, Serialize};\n");
    out.append("use crate::{Method, CDP};\n\n");
    if protocols.len() > 0 {
        out.append("/// CDP Protocol version (major.minor)\n");
        out.append("pub const CDP_VERSION: &str = \"");
        out.append(protocols[0].version.major.as_str());
        out.append(".");
        out.append(protocols[0].version.minor.as_str());
        out.append("\";\n\n");
    }
    let ghost head = out@;
    assert(head == code_head_text(protocols@, now@));
    let type_map = build_type_map(protocols);
    let mut i: usize = 0;
    while i < protocols.len()
        invariant
            0 <= i <= protocols@.len(),
            out@ == head + domains_text(all_domains(protocols@.take(i as int))),
        decreases protocols@.len() - i,
    {
        let ds = &protocols[i].domains;
        let ghost before = all_domains(protocols@.take(i as int));
        let mut j: usize = 0;
        while j < ds.len()
            invariant
                0 <= i < protocols@.len(),
                ds@ == protocols@[i as int].domains@,
                0 <= j <= ds@.len(),
                before == all_domains(protocols@.take(i as int)),
                out@ == head + domains_text(before + ds@.take(j as int)),
            decreases ds@.len() - j,
        {
            let d = generate_domain(&ds[j], &type_map);
            out.append(d.as_str());
            out.append("\n");
            proof {
                assert((before + ds@.take(j as int + 1)).drop_last() =~= before + ds@.take(j as int));
                assert((before + ds@.take(j as int + 1)).last() == ds@[j as int]);
                assert(out@ =~= head + domains_text(before + ds@.take(j as int + 1)));
            }
            j += 1;
        }
        proof {
            assert(ds@.take(ds@.len() as int) =~= ds@);
            assert(protocols@.take(i as int + 1).drop_last() =~= protocols@.take(i as int));
            assert(all_domains(protocols@.take(i as int + 1)) == before + ds@);
        }
        i += 1;
    }
    assert(protocols@.take(protocols@.len() as int) =~= protocols@);
    out
}

} // verus!
