//! The outside types and calls that the library relies on. Each item here is
//! taken on trust: its contract states what the outside crate documents.
use vstd::prelude::*;

verus! {

#[verifier::external_type_specification]
#[verifier::external_body]
pub struct ExValue(serde_json::Value);

#[verifier::external_type_specification]
#[verifier::external_body]
#[verifier::reject_recursive_types(K)]
#[verifier::reject_recursive_types(V)]
pub struct ExMap<K, V>(serde_json::Map<K, V>);

#[verifier::external_type_specification]
#[verifier::external_body]
pub struct ExJsonError(serde_json::Error);

#[verifier::external_type_specification]
#[verifier::external_body]
pub struct ExYamlError(serde_yaml::Error);

#[verifier::external_type_specification]
#[verifier::external_body]
pub struct ExJSONSchema(jsonschema::JSONSchema);

/// The keys of a JSON mapping.
pub uninterp spec fn object_keys(m: serde_json::Map<String, serde_json::Value>) -> Set<Seq<char>>;

/// The entry of a JSON mapping under a key.
pub uninterp spec fn object_entry(m: serde_json::Map<String, serde_json::Value>, k: Seq<char>) -> Option<serde_json::Value>;

/// The mapping inside a JSON value that is a mapping; `None` for any other value.
pub uninterp spec fn mapping_of(v: serde_json::Value) -> Option<serde_json::Map<String, serde_json::Value>>;

/// The entry of a JSON value under a key, as `serde_json::Value::get` finds it.
pub uninterp spec fn value_field(v: serde_json::Value, k: Seq<char>) -> Option<serde_json::Value>;

/// The items of a JSON value that is a sequence.
pub uninterp spec fn value_items(v: serde_json::Value) -> Option<Seq<serde_json::Value>>;

/// The text of a JSON value that is a string.
pub uninterp spec fn value_text(v: serde_json::Value) -> Option<Seq<char>>;

/// Whether a JSON value is a number.
pub uninterp spec fn value_is_number(v: serde_json::Value) -> bool;

/// Whether a JSON value is a number that fits an `i64`.
pub uninterp spec fn value_is_i64(v: serde_json::Value) -> bool;

/// Whether a JSON value is a number that fits a `u64`.
pub uninterp spec fn value_is_u64(v: serde_json::Value) -> bool;

/// A character with the Unicode property White_Space.
pub open spec fn is_white_space(c: char) -> bool {
    ||| '\u{9}' <= c <= '\u{d}'
    ||| c == ' '
    ||| c == '\u{85}'
    ||| c == '\u{a0}'
    ||| c == '\u{1680}'
    ||| '\u{2000}' <= c <= '\u{200a}'
    ||| c == '\u{2028}'
    ||| c == '\u{2029}'
    ||| c == '\u{202f}'
    ||| c == '\u{205f}'
    ||| c == '\u{3000}'
}

/// `s` without its leading white space.
pub open spec fn trim_start(s: Seq<char>) -> Seq<char>
    decreases s.len(),
{
    if s.len() > 0 && is_white_space(s[0]) {
        trim_start(s.drop_first())
    } else {
        s
    }
}

/// `s` without its trailing white space.
pub open spec fn trim_end(s: Seq<char>) -> Seq<char>
    decreases s.len(),
{
    if s.len() > 0 && is_white_space(s.last()) {
        trim_end(s.drop_last())
    } else {
        s
    }
}

/// `s` without its leading and trailing white space.
pub open spec fn trimmed(s: Seq<char>) -> Seq<char> {
    trim_end(trim_start(s))
}

/// Whether serde_yaml reads `s` as a structured value.
pub uninterp spec fn yaml_accepts(s: Seq<char>) -> bool;

/// The structured value that serde_yaml reads from `s`.
pub uninterp spec fn yaml_value(s: Seq<char>) -> serde_json::Value;

/// Whether serde_yaml writes `v` as text.
pub uninterp spec fn yaml_writes(v: serde_json::Value) -> bool;

/// The YAML text that serde_yaml writes for `v`.
pub uninterp spec fn yaml_text(v: serde_json::Value) -> Seq<char>;

/// The description of a serde_yaml error.
pub uninterp spec fn yaml_error_text(e: serde_yaml::Error) -> Seq<char>;

/// The description of a serde_json error.
pub uninterp spec fn json_error_text(e: serde_json::Error) -> Seq<char>;

/// Whether serde_json reads `s` as a structured value.
pub uninterp spec fn json_accepts(s: Seq<char>) -> bool;

/// The structured value that serde_json reads from `s`.
pub uninterp spec fn json_value(s: Seq<char>) -> serde_json::Value;

/// Whether jsonschema compiles `s` as a schema.
pub uninterp spec fn schema_compiles(s: serde_json::Value) -> bool;

/// The description of why jsonschema does not compile `s` as a schema.
pub uninterp spec fn compile_error_text(s: serde_json::Value) -> Seq<char>;

/// The description of each violation of `v` against a compiled schema, in
/// the order the validator reports them.
pub uninterp spec fn violation_texts(schema: jsonschema::JSONSchema, v: serde_json::Value) -> Seq<Seq<char>>;

/// Relies on `str::trim`: documented to remove leading and trailing
/// characters with the Unicode property White_Space.
#[verifier::external_body]
pub(crate) fn trim(s: &str) -> (r: &str)
    ensures
        r@ == trimmed(s@),
{
    s.trim()
}

/// Relies on `serde_yaml::from_str`: the structured value read from YAML
/// text, which depends on the text alone.
#[verifier::external_body]
pub(crate) fn parse_yaml(s: &str) -> (r: Result<serde_json::Value, serde_yaml::Error>)
    ensures
        r is Ok <==> yaml_accepts(s@),
        r matches Ok(v) ==> v == yaml_value(s@),
{
    serde_yaml::from_str(s)
}

/// Relies on `Display` of `serde_yaml::Error`: its description.
#[verifier::external_body]
pub(crate) fn yaml_error_description(e: &serde_yaml::Error) -> (r: String)
    ensures
        r@ == yaml_error_text(*e),
{
    e.to_string()
}

/// Relies on `Display` of `serde_json::Error`: its description.
#[verifier::external_body]
pub(crate) fn json_error_description(e: &serde_json::Error) -> (r: String)
    ensures
        r@ == json_error_text(*e),
{
    e.to_string()
}

/// Relies on `serde_json::from_str`: the structured value read from JSON
/// text, which depends on the text alone.
#[verifier::external_body]
pub(crate) fn parse_json(s: &str) -> (r: Result<serde_json::Value, serde_json::Error>)
    ensures
        r is Ok <==> json_accepts(s@),
        r matches Ok(v) ==> v == json_value(s@),
{
    serde_json::from_str(s)
}

/// Relies on `serde_yaml::to_string`: the YAML text of a structured value,
/// which depends on the value alone.
#[verifier::external_body]
pub(crate) fn to_yaml(v: &serde_json::Value) -> (r: Result<String, serde_yaml::Error>)
    ensures
        r is Ok <==> yaml_writes(*v),
        r matches Ok(t) ==> t@ == yaml_text(*v),
{
    serde_yaml::to_string(v)
}

/// Relies on `jsonschema::JSONSchema::compile`, and on the error's `Display`
/// for its description: whether a schema compiles, and the description of why
/// it does not, depend on the schema alone.
#[verifier::external_body]
pub(crate) fn compile(schema: &serde_json::Value) -> (r: Result<jsonschema::JSONSchema, String>)
    ensures
        r is Ok <==> schema_compiles(*schema),
        r matches Err(m) ==> m@ == compile_error_text(*schema),
{
    jsonschema::JSONSchema::compile(schema).map_err(|e| e.to_string())
}

/// Relies on `jsonschema::JSONSchema::validate`: the description of each
/// violation, in the order the validator reports them; none exactly when the
/// value conforms.
#[verifier::external_body]
pub(crate) fn violations(schema: &jsonschema::JSONSchema, v: &serde_json::Value) -> (r: Vec<
    String,
>)
    ensures
        r@.map_values(|s: String| s@) == violation_texts(*schema, *v),
{
    match schema.validate(v) {
        Ok(()) => Vec::new(),
        Err(errors) => errors.map(|e| e.to_string()).collect(),
    }
}

/// Relies on `serde_json::Map::new`: a mapping with no entries.
#[verifier::external_body]
pub(crate) fn new_mapping() -> (r: serde_json::Map<String, serde_json::Value>)
    ensures
        object_keys(r) == Set::<Seq<char>>::empty(),
        forall|k: Seq<char>| #[trigger] object_entry(r, k) is None,
{
    serde_json::Map::new()
}

/// Relies on `serde_json::Map::contains_key`: whether the mapping has an
/// entry under `k`.
#[verifier::external_body]
pub(crate) fn has_key(m: &serde_json::Map<String, serde_json::Value>, k: &str) -> (r: bool)
    ensures
        r == object_keys(*m).contains(k@),
{
    m.contains_key(k)
}

/// Relies on `serde_json::Map::insert`: afterwards the mapping holds `v`
/// under `k`; its other keys and entries are those it had.
#[verifier::external_body]
pub(crate) fn insert_entry(
    m: &mut serde_json::Map<String, serde_json::Value>,
    k: String,
    v: serde_json::Value,
)
    ensures
        object_keys(*final(m)) == object_keys(*old(m)).insert(k@),
        object_entry(*final(m), k@) == Some(v),
        forall|j: Seq<char>| j != k@ ==> #[trigger] object_entry(*final(m), j) == object_entry(*old(m), j),
{
    m.insert(k, v);
}

/// Relies on `serde_json::Map::keys`: every key of the mapping, each once.
#[verifier::external_body]
pub(crate) fn key_list(m: &serde_json::Map<String, serde_json::Value>) -> (r: Vec<String>)
    ensures
        forall|i: int| 0 <= i < r@.len() ==> object_keys(*m).contains(#[trigger] r@[i]@),
        forall|k: Seq<char>|
            object_keys(*m).contains(k) ==> exists|i: int| 0 <= i < r@.len() && #[trigger] r@[i]@ == k,
        forall|i: int, j: int| 0 <= i < j < r@.len() ==> r@[i]@ != r@[j]@,
{
    m.keys().cloned().collect()
}

/// Relies on `serde_json::Map::get`: the entry under `k`, present exactly
/// when the mapping has that key.
#[verifier::external_body]
pub(crate) fn entry<'a>(m: &'a serde_json::Map<String, serde_json::Value>, k: &str) -> (r: Option<
    &'a serde_json::Value,
>)
    ensures
        r is Some <==> object_keys(*m).contains(k@),
        r matches Some(x) ==> object_entry(*m, k@) == Some(*x),
        r is None ==> object_entry(*m, k@) is None,
{
    m.get(k)
}

/// Relies on `serde_json::Value::is_number`.
#[verifier::external_body]
pub(crate) fn is_number(v: &serde_json::Value) -> (r: bool)
    ensures
        r == value_is_number(*v),
{
    v.is_number()
}

/// Relies on `serde_json::Value::is_i64`.
#[verifier::external_body]
pub(crate) fn is_i64(v: &serde_json::Value) -> (r: bool)
    ensures
        r == value_is_i64(*v),
{
    v.is_i64()
}

/// Relies on `serde_json::Value::is_u64`.
#[verifier::external_body]
pub(crate) fn is_u64(v: &serde_json::Value) -> (r: bool)
    ensures
        r == value_is_u64(*v),
{
    v.is_u64()
}

/// Relies on the variants of `serde_json::Value`: the entries of a mapping,
/// or any other value handed back as it is.
#[verifier::external_body]
pub(crate) fn into_mapping(v: serde_json::Value) -> (r: Result<
    serde_json::Map<String, serde_json::Value>,
    serde_json::Value,
>)
    ensures
        r matches Ok(m) ==> mapping_of(v) == Some(m),
        r matches Err(o) ==> mapping_of(v) is None && o == v,
{
    match v {
        serde_json::Value::Object(m) => Ok(m),
        other => Err(other),
    }
}

/// Relies on `serde_json::Value::Object`: the value of a mapping.
#[verifier::external_body]
pub(crate) fn from_mapping(m: serde_json::Map<String, serde_json::Value>) -> (r:
    serde_json::Value)
    ensures
        mapping_of(r) == Some(m),
{
    serde_json::Value::Object(m)
}

/// Relies on `serde_json::Value::get`: the entry of a mapping under `key`.
#[verifier::external_body]
pub(crate) fn field<'a>(v: &'a serde_json::Value, key: &str) -> (r: Option<&'a serde_json::Value>)
    ensures
        r matches Some(x) ==> value_field(*v, key@) == Some(*x),
        r is None ==> value_field(*v, key@) is None,
{
    v.get(key)
}

/// Relies on `serde_json::Value::as_array`: the items of a sequence.
#[verifier::external_body]
pub(crate) fn items(v: &serde_json::Value) -> (r: Option<&Vec<serde_json::Value>>)
    ensures
        r matches Some(a) ==> value_items(*v) == Some(a@),
        r is None ==> value_items(*v) is None,
{
    v.as_array()
}

/// Relies on `serde_json::Value::as_str`: the text of a string value.
#[verifier::external_body]
pub(crate) fn text(v: &serde_json::Value) -> (r: Option<&str>)
    ensures
        r matches Some(s) ==> value_text(*v) == Some(s@),
        r is None ==> value_text(*v) is None,
{
    v.as_str()
}

/// Relies on `Clone` of `serde_json::Value`: a copy equal to the original.
#[verifier::external_body]
pub(crate) fn copy_value(v: &serde_json::Value) -> (r: serde_json::Value)
    ensures
        r == *v,
{
    v.clone()
}

} // verus!
