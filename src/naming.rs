//! How protocol names become Rust names in generated bindings.
use crate::text::{push_char, replace_all, replace_str};
use vstd::prelude::*;
use vstd::string::*;

verus! {

/// What `char::to_uppercase` yields for `c`, collected.
pub uninterp spec fn upper_of(c: char) -> Seq<char>;

/// Relies on `char::to_uppercase`, collected into a `String`.
#[verifier::external_body]
fn uppercase_char(c: char) -> (r: String)
    ensures
        r@ == upper_of(c),
{
    c.to_uppercase().collect()
}

/// Names that cannot be Rust field names as they stand.
pub open spec fn is_reserved(name: Seq<char>) -> bool {
    ||| name == "type"@
    ||| name == "ref"@
    ||| name == "mod"@
    ||| name == "use"@
    ||| name == "loop"@
    ||| name == "move"@
    ||| name == "match"@
    ||| name == "self"@
    ||| name == "Self"@
    ||| name == "override"@
}

/// A usable field name: a reserved name gets a trailing underscore.
pub open spec fn sanitized(name: Seq<char>) -> Seq<char> {
    if is_reserved(name) {
        name + "_"@
    } else {
        name
    }
}

/// Appends an underscore to a name that cannot be a Rust field name.
pub fn sanitize_field_name(name: &str) -> (r: String)
    ensures
        r@ == sanitized(name@),
{
    let n = name.to_owned();
    let reserved = n == String::from_str("type") || n == String::from_str("ref") || n
        == String::from_str("mod") || n == String::from_str("use") || n == String::from_str("loop")
        || n == String::from_str("move") || n == String::from_str("match") || n == String::from_str(
        "self",
    ) || n == String::from_str("Self") || n == String::from_str("override");
    if reserved {
        let mut out = n;
        out.append("_");
        out
    } else {
        n
    }
}

/// Documentation text on one line: each newline becomes a space, then each
/// pair of spaces, left to right, becomes one.
pub open spec fn escaped_doc(s: Seq<char>) -> Seq<char> {
    replace_all(replace_all(s, "\n"@, " "@), "  "@, " "@)
}

/// Puts documentation text on one line.
pub fn escape_doc(s: &str) -> (r: String)
    ensures
        r@ == escaped_doc(s@),
{
    proof {
        reveal_strlit("\n");
        reveal_strlit("  ");
    }
    let one_line = replace_str(s, "\n", " ");
    replace_str(one_line.as_str(), "  ", " ")
}

/// The camel-case form of a snake-case name, with whether the next
/// character is to be capitalized: each `_` is dropped and the character
/// after it is upper-cased.
pub open spec fn camel_state(s: Seq<char>) -> (Seq<char>, bool)
    decreases s.len(),
{
    if s.len() == 0 {
        (Seq::empty(), false)
    } else {
        let (out, cap) = camel_state(s.drop_last());
        let ch = s.last();
        if ch == '_' {
            (out, true)
        } else if cap {
            (out + upper_of(ch), false)
        } else {
            (out.push(ch), false)
        }
    }
}

/// Whether a field needs an explicit rename: the camel-case form of its
/// snake-case name differs from the name on the wire.
pub open spec fn rename_needed(original_name: Seq<char>, field_name: Seq<char>) -> bool {
    field_name != original_name && camel_state(field_name).0 != original_name
}

/// Whether a generated field needs an explicit serde rename, given that its
/// struct renames all fields to camel case.
pub fn needs_serde_rename(original_name: &str, field_name: &str) -> (r: bool)
    ensures
        r == rename_needed(original_name@, field_name@),
{
    let original = original_name.to_owned();
    let field = field_name.to_owned();
    if field == original {
        return false;
    }
    let n = field_name.unicode_len();
    let mut camel = String::new();
    let mut capitalize_next = false;
    let mut i: usize = 0;
    while i < n
        invariant
            n == field_name@.len(),
            0 <= i <= n,
            (camel@, capitalize_next) == camel_state(field_name@.take(i as int)),
        decreases n - i,
    {
        let ch = field_name.get_char(i);
        proof {
            assert(field_name@.take(i as int + 1).drop_last() =~= field_name@.take(i as int));
        }
        if ch == '_' {
            capitalize_next = true;
        } else if capitalize_next {
            let up = uppercase_char(ch);
            camel.append(up.as_str());
            capitalize_next = false;
        } else {
            proof {
                assert(field_name@.take(i as int + 1).last() == ch);
            }
            push_char(&mut camel, ch);
            capitalize_next = false;
        }
        i += 1;
    }
    proof {
        assert(field_name@.take(n as int) =~= field_name@);
    }
    !(camel == original)
}

} // verus!
