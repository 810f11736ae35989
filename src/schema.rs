//! Where a schema comes from, and checking values against it.
use crate::config::{has_prefix, starts_with};
use crate::error::{concat_text, FrontmatterError};
use crate::outside::{compile, compile_error_text, json_accepts, json_value, parse_json, schema_compiles, violation_texts, violations};
use vstd::prelude::*;
use vstd::string::StringSliceAdditionalSpecFns;
use vstd::utf8::*;

verus! {

broadcast use group_utf8_lib;

/// Where to read a schema from.
#[derive(Debug)]
pub enum SchemaLocation {
    /// Fetch the address over HTTP(S).
    Http(String),
    /// Read the file at this path.
    File(String),
}

/// The address is fetched over the network.
pub open spec fn is_http_url(b: Seq<u8>) -> bool {
    starts_with(b, "http://".spec_bytes()) || starts_with(b, "https://".spec_bytes())
}

/// The length in bytes of `file://`.
pub const FILE_SCHEME_LEN: usize = 7;

/// Decides how to load the schema at `uri` from its scheme: `http://` and
/// `https://` addresses are fetched, a `file://` address is read from the path
/// after the scheme, and any other address is refused before any I/O.
pub fn schema_location(uri: &str) -> (r: Result<SchemaLocation, FrontmatterError>)
    ensures
        match r {
            Ok(SchemaLocation::Http(u)) => is_http_url(uri.spec_bytes()) && u@ == uri@,
            Ok(SchemaLocation::File(p)) => !is_http_url(uri.spec_bytes()) && starts_with(
                uri.spec_bytes(),
                "file://".spec_bytes(),
            ) && encode_utf8(p@) == uri.spec_bytes().subrange(7, uri.spec_bytes().len() as int),
            Err(e) => !is_http_url(uri.spec_bytes()) && !starts_with(
                uri.spec_bytes(),
                "file://".spec_bytes(),
            ) && (e matches FrontmatterError::InvalidSchemaUrl(m) && m@ == uri@),
        },
{
    if has_prefix(uri, "http://") || has_prefix(uri, "https://") {
        Ok(SchemaLocation::Http(uri.to_owned()))
    } else if has_prefix(uri, "file://") {
        proof {
            reveal_strlit("file://");
            assert(is_ascii_chars("file://"@));
            is_ascii_chars_encode_utf8("file://"@);
            let b = uri.spec_bytes();
            assert(b.subrange(0, 7) == "file://".spec_bytes());
            assert forall|k: int| 0 <= k < 7 implies b[k] < 128 by {
                assert(b[k] == b.subrange(0, 7)[k]);
                assert(("file://"@[k] as u8) < 128);
            }
            lemma_ascii_prefix_boundary(b, 7);
        }
        let (_, path) = uri.split_at(FILE_SCHEME_LEN);
        Ok(SchemaLocation::File(path.to_owned()))
    } else {
        Err(FrontmatterError::InvalidSchemaUrl(uri.to_owned()))
    }
}

/// Any offset reached through ASCII bytes alone starts a character.
proof fn lemma_ascii_prefix_boundary(b: Seq<u8>, n: int)
    requires
        valid_utf8(b),
        0 <= n <= b.len(),
        forall|k: int| 0 <= k < n ==> b[k] < 128,
    ensures
        is_char_boundary(b, n),
    decreases n,
{
    if n == 0 {
    } else {
        reveal_with_fuel(valid_utf8, 2);
        reveal_with_fuel(is_char_boundary, 2);
        let rest = pop_first_scalar(b);
        assert(rest =~= b.subrange(1, b.len() as int));
        assert forall|k: int| 0 <= k < n - 1 implies rest[k] < 128 by {
            assert(rest[k] == b[k + 1]);
        }
        lemma_ascii_prefix_boundary(rest, n - 1);
    }
}

/// Reads schema text as JSON. Fails with `SchemaParseJson` exactly when the
/// text is not JSON.
pub fn parse_schema(text: &str) -> (r: Result<serde_json::Value, FrontmatterError>)
    ensures
        r is Ok <==> json_accepts(text@),
        r matches Ok(v) ==> v == json_value(text@),
        r matches Err(e) ==> e is SchemaParseJson,
{
    match parse_json(text) {
        Ok(v) => Ok(v),
        Err(source) => Err(FrontmatterError::SchemaParseJson { source }),
    }
}

/// Compiles a schema for validation; a schema that is itself malformed gives
/// `InvalidSchema`.
pub fn compile_schema(schema: &serde_json::Value) -> (r: Result<
    jsonschema::JSONSchema,
    FrontmatterError,
>)
    ensures
        r is Ok <==> schema_compiles(*schema),
        r matches Err(e) ==> (e matches FrontmatterError::InvalidSchema(m) && m@ == compile_error_text(
            *schema,
        )),
{
    match compile(schema) {
        Ok(c) => Ok(c),
        Err(m) => Err(FrontmatterError::InvalidSchema(m)),
    }
}

/// The marker in front of each reported violation.
pub open spec fn bullet() -> Seq<char> {
    seq![' ', ' ', '-', ' ']
}

/// Each violation as a line of a list: `  - ` and then its description, in
/// the same order.
pub fn format_violations(raw: &Vec<String>) -> (r: Vec<String>)
    ensures
        r@.len() == raw@.len(),
        forall|i: int| 0 <= i < raw@.len() ==> #[trigger] r@[i]@ == bullet() + raw@[i]@,
{
    let mut r: Vec<String> = Vec::new();
    let mut i: usize = 0;
    while i < raw.len()
        invariant
            i <= raw@.len(),
            r@.len() == i,
            forall|k: int| 0 <= k < i ==> #[trigger] r@[k]@ == bullet() + raw@[k]@,
        decreases raw.len() - i,
    {
        let line = concat_text("  - ", raw[i].as_str());
        proof {
            reveal_strlit("  - ");
        }
        r.push(line);
        i = i + 1;
    }
    r
}

/// A value conforms to a compiled schema: the validator reports nothing.
pub open spec fn conforms(schema: jsonschema::JSONSchema, v: serde_json::Value) -> bool {
    violation_texts(schema, v).len() == 0
}

/// The violations of `value` against `schema`, each as a line of a list;
/// empty exactly when the value conforms.
pub fn validate(schema: &jsonschema::JSONSchema, value: &serde_json::Value) -> (r: Vec<String>)
    ensures
        r@.len() == violation_texts(*schema, *value).len(),
        r@.len() == 0 <==> conforms(*schema, *value),
        forall|i: int|
            0 <= i < r@.len() ==> #[trigger] r@[i]@ == bullet() + violation_texts(*schema, *value)[i],
{
    let raw = violations(schema, value);
    let r = format_violations(&raw);
    assert forall|i: int| 0 <= i < r@.len() implies #[trigger] r@[i]@ == bullet()
        + violation_texts(*schema, *value)[i] by {
        assert(raw@.map_values(|s: String| s@)[i] == raw@[i]@);
    }
    r
}

} // verus!
