//! Checking and fixing the frontmatter of chapters.
use crate::config::{Config, Mode};
use crate::error::{concat_text, message_text, FrontmatterError};
use crate::frontmatter::{
    assemble, assembled, block_bytes, body_bytes, has_block, split_frontmatter,
};
use crate::outside::{
    copy_value, entry, field, from_mapping, has_key, insert_entry, into_mapping, is_i64, is_number,
    is_u64, items, json_accepts, json_value, key_list, mapping_of, new_mapping, object_entry,
    object_keys, parse_json, parse_yaml, text, to_yaml, trim, trimmed, violation_texts, yaml_error_text, value_field, value_is_i64,
    value_is_number, value_is_u64, value_items, value_text, yaml_accepts, yaml_text, yaml_value,
    yaml_writes,
};
use crate::schema::{bullet, conforms, validate};
use vstd::prelude::*;
use vstd::string::{StringExecFns, StringSliceAdditionalSpecFns};
use vstd::utf8::*;

verus! {

broadcast use group_utf8_lib;

/// A chapter of a book: its name and its text.
#[derive(Debug, Clone)]
pub struct Chapter {
    pub name: String,
    pub content: String,
}

/// The preprocessor. It has no state of its own.
pub struct FrontmatterPreprocessor;

impl FrontmatterPreprocessor {
    pub fn new() -> (r: Self) {
        FrontmatterPreprocessor
    }

    /// The name under which the host knows the preprocessor.
    pub fn name(&self) -> (r: &'static str)
        ensures
            r@ == "frontmatter"@,
    {
        "frontmatter"
    }

    /// Whether the preprocessor runs for `renderer`: for every renderer but
    /// the one named `not-supported`.
    pub fn supports_renderer(&self, renderer: &str) -> (r: bool)
        ensures
            r == (renderer@ != "not-supported"@),
    {
        !same_text(renderer, "not-supported")
    }
}

impl Default for FrontmatterPreprocessor {
    fn default() -> (r: Self) {
        Self::new()
    }
}

/// Whether two texts are the same.
pub fn same_text(a: &str, b: &str) -> (r: bool)
    ensures
        r == (a@ == b@),
{
    let x = a.as_bytes();
    let y = b.as_bytes();
    proof {
        assert(decode_utf8(encode_utf8(a@)) == a@);
        assert(decode_utf8(encode_utf8(b@)) == b@);
    }
    if x.len() != y.len() {
        return false;
    }
    let mut i: usize = 0;
    while i < x.len()
        invariant
            x@ == a.spec_bytes(),
            y@ == b.spec_bytes(),
            x@.len() == y@.len(),
            i <= x@.len(),
            forall|k: int| 0 <= k < i ==> x@[k] == y@[k],
        decreases x.len() - i,
    {
        if x[i] != y[i] {
            return false;
        }
        i = i + 1;
    }
    assert(x@ =~= y@);
    true
}

/// The bytes of a text.
pub open spec fn bytes_of(s: Seq<char>) -> Seq<u8> {
    encode_utf8(s)
}

/// The text of the metadata block of a document, trimmed.
pub open spec fn block_text(content: Seq<char>) -> Seq<char> {
    trimmed(decode_utf8(block_bytes(bytes_of(content))))
}

/// The text of the body after the metadata block of a document.
pub open spec fn body_text(content: Seq<char>) -> Seq<char> {
    decode_utf8(body_bytes(bytes_of(content)))
}

/// The metadata block reads as a structured value: it is empty, or YAML.
pub open spec fn block_parses(content: Seq<char>) -> bool {
    block_text(content).len() == 0 || yaml_accepts(block_text(content))
}

/// What becomes of a chapter once its frontmatter has been checked.
#[derive(Debug, Clone, Copy, PartialEq, Eq, Structural)]
pub enum Step {
    /// Nothing to do: the frontmatter conforms.
    Keep,
    /// Report the violations, leave the chapter as it is.
    Report,
    /// Rewrite the frontmatter.
    Rewrite,
}

/// Decides what to do with a chapter from the mode and its violations: a
/// chapter without violations is kept as it is in either mode.
pub fn next_step(mode: Mode, violations: &Vec<String>) -> (r: Step)
    ensures
        violations@.len() == 0 ==> r == Step::Keep,
        violations@.len() > 0 && mode == Mode::Validate ==> r == Step::Report,
        violations@.len() > 0 && mode == Mode::Fix ==> r == Step::Rewrite,
{
    if violations.len() == 0 {
        Step::Keep
    } else {
        match mode {
            Mode::Validate => Step::Report,
            Mode::Fix => Step::Rewrite,
        }
    }
}

/// Lines joined by newlines.
pub open spec fn lines_joined(lines: Seq<Seq<char>>) -> Seq<char>
    decreases lines.len(),
{
    if lines.len() == 0 {
        Seq::empty()
    } else if lines.len() == 1 {
        lines[0]
    } else {
        lines_joined(lines.drop_last()) + seq!['\n'] + lines.last()
    }
}

/// The views of a list of texts.
pub open spec fn texts(v: Seq<String>) -> Seq<Seq<char>> {
    v.map_values(|s: String| s@)
}

/// Joins lines with a newline between each two.
pub fn join_lines(lines: &Vec<String>) -> (r: String)
    ensures
        r@ == lines_joined(texts(lines@)),
{
    let mut r = String::new();
    let mut i: usize = 0;
    while i < lines.len()
        invariant
            i <= lines@.len(),
            r@ == lines_joined(texts(lines@.subrange(0, i as int))),
        decreases lines.len() - i,
    {
        proof {
            assert(texts(lines@.subrange(0, i + 1)).drop_last() =~= texts(
                lines@.subrange(0, i as int),
            ));
        }
        if i > 0 {
            r.append("\n");
            proof {
                reveal_strlit("\n");
            }
        }
        r.append(lines[i].as_str());
        i = i + 1;
    }
    assert(lines@.subrange(0, lines@.len() as int) =~= lines@);
    r
}

/// The texts among JSON items, in order; other items are passed over.
pub open spec fn string_items(items: Seq<serde_json::Value>) -> Seq<Seq<char>>
    decreases items.len(),
{
    if items.len() == 0 {
        Seq::empty()
    } else {
        let rest = string_items(items.drop_last());
        match value_text(items.last()) {
            Some(t) => rest.push(t),
            None => rest,
        }
    }
}

/// The names that a schema lists under `required`.
pub open spec fn required_names(schema: serde_json::Value) -> Seq<Seq<char>> {
    match value_field(schema, "required"@) {
        Some(list) => match value_items(list) {
            Some(a) => string_items(a),
            None => Seq::empty(),
        },
        None => Seq::empty(),
    }
}

/// The entry `attr` of the schema's declaration of property `name`.
pub open spec fn property_attr(schema: serde_json::Value, name: Seq<char>, attr: Seq<char>) -> Option<
    serde_json::Value,
> {
    match value_field(schema, "properties"@) {
        Some(properties) => match value_field(properties, name) {
            Some(property) => value_field(property, attr),
            None => None,
        },
        None => None,
    }
}

/// The default that a schema declares for property `name`.
pub open spec fn declared_default(schema: serde_json::Value, name: Seq<char>) -> Option<serde_json::Value> {
    property_attr(schema, name, "default"@)
}

/// The type that a schema declares for property `name`, when it is a text.
pub open spec fn declared_kind(schema: serde_json::Value, name: Seq<char>) -> Option<Seq<char>> {
    match property_attr(schema, name, "type"@) {
        Some(t) => value_text(t),
        None => None,
    }
}

/// A value is of the numeric type `kind`.
pub open spec fn fits_kind(kind: Seq<char>, v: serde_json::Value) -> bool {
    ||| kind == "number"@ && value_is_number(v)
    ||| kind == "integer"@ && (value_is_i64(v) || value_is_u64(v))
}

/// The number that replaces the entry `current` of property `name`: where
/// the schema declares a numeric type and the entry is a string that reads
/// as a number of that type.
pub open spec fn replacement(schema: serde_json::Value, name: Seq<char>, current: Option<serde_json::Value>) -> Option<serde_json::Value> {
    match (declared_kind(schema, name), current) {
        (Some(kind), Some(c)) => match value_text(c) {
            Some(s) => if json_accepts(s) && fits_kind(kind, json_value(s)) {
                Some(json_value(s))
            } else {
                None
            },
            None => None,
        },
        _ => None,
    }
}

/// The entry of property `name` once coerced: its replacement, if any, else
/// as it was.
pub open spec fn coerced(schema: serde_json::Value, name: Seq<char>, current: Option<serde_json::Value>) -> Option<serde_json::Value> {
    match replacement(schema, name, current) {
        Some(v) => Some(v),
        None => current,
    }
}

/// The schema requires `k` and declares a default for it.
pub open spec fn is_filled(schema: serde_json::Value, k: Seq<char>) -> bool {
    required_names(schema).contains(k) && declared_default(schema, k) is Some
}

/// `after` is the mapping `before` fixed towards `schema`: its keys are the
/// old ones and each required key with a default; an old entry is kept,
/// or coerced to a number; a new entry is the declared default.
pub open spec fn fixed_mapping(
    before: serde_json::Map<String, serde_json::Value>,
    after: serde_json::Map<String, serde_json::Value>,
    schema: serde_json::Value,
) -> bool {
    &&& object_keys(after) == object_keys(before).union(Set::new(|k: Seq<char>| is_filled(schema, k)))
    &&& forall|k: Seq<char>|
        object_keys(before).contains(k) ==> #[trigger] object_entry(after, k) == coerced(
            schema,
            k,
            object_entry(before, k),
        )
    &&& forall|k: Seq<char>|
        !object_keys(before).contains(k) && is_filled(schema, k) ==> #[trigger] object_entry(after, k)
            == declared_default(schema, k)
}

/// `after` is the value `before` fixed towards `schema`: a mapping is fixed
/// as `fixed_mapping` says; any other value stays as it is.
pub open spec fn fixed_value(before: serde_json::Value, after: serde_json::Value, schema: serde_json::Value) -> bool {
    match mapping_of(before) {
        None => after == before,
        Some(m) => (mapping_of(after) matches Some(m2) && fixed_mapping(m, m2, schema)),
    }
}

/// The names of the properties that `schema` requires, in the order it
/// lists them; names that are not strings are passed over.
pub fn required_properties(schema: &serde_json::Value) -> (r: Vec<String>)
    ensures
        texts(r@) == required_names(*schema),
{
    let mut r: Vec<String> = Vec::new();
    if let Some(list) = field(schema, "required") {
        if let Some(names) = items(list) {
            let mut i: usize = 0;
            while i < names.len()
                invariant
                    i <= names@.len(),
                    texts(r@) == string_items(names@.subrange(0, i as int)),
                decreases names.len() - i,
            {
                proof {
                    assert(names@.subrange(0, i + 1).drop_last() =~= names@.subrange(0, i as int));
                    assert(names@.subrange(0, i + 1).last() == names@[i as int]);
                }
                if let Some(name) = text(&names[i]) {
                    let ghost before = r@;
                    r.push(name.to_owned());
                    assert(texts(r@) =~= texts(before).push(name@));
                }
                i = i + 1;
            }
            assert(names@.subrange(0, names@.len() as int) =~= names@);
        }
    }
    r
}

/// The default that `schema` declares for the property `name`, if any.
pub fn property_default(schema: &serde_json::Value, name: &str) -> (r: Option<
    serde_json::Value,
>)
    ensures
        r == declared_default(*schema, name@),
{
    match field(schema, "properties") {
        Some(properties) => match field(properties, name) {
            Some(property) => match field(property, "default") {
                Some(d) => Some(copy_value(d)),
                None => None,
            },
            None => None,
        },
        None => None,
    }
}

/// Some required name among the first `n` has a default and is `k`.
pub open spec fn filled_upto(required: Seq<String>, n: int, schema: serde_json::Value, k: Seq<char>) -> bool {
    exists|j: int| 0 <= j < n && #[trigger] required[j]@ == k && declared_default(schema, k) is Some
}

/// Adds each required property that the mapping lacks and for which the
/// schema declares a default, with that default. Keys already present keep
/// their entries.
pub fn fill_defaults(
    m: &mut serde_json::Map<String, serde_json::Value>,
    required: &Vec<String>,
    schema: &serde_json::Value,
)
    ensures
        object_keys(*final(m)) == object_keys(*old(m)).union(
            Set::new(|k: Seq<char>| filled_upto(required@, required@.len() as int, *schema, k)),
        ),
        forall|k: Seq<char>|
            object_keys(*old(m)).contains(k) ==> #[trigger] object_entry(*final(m), k) == object_entry(*old(m), k),
        forall|k: Seq<char>|
            !object_keys(*old(m)).contains(k) && filled_upto(required@, required@.len() as int, *schema, k)
                ==> #[trigger] object_entry(*final(m), k) == declared_default(*schema, k),
{
    let ghost start = *m;
    let mut i: usize = 0;
    while i < required.len()
        invariant
            i <= required@.len(),
            object_keys(*m) == object_keys(start).union(
                Set::new(|k: Seq<char>| filled_upto(required@, i as int, *schema, k)),
            ),
            forall|k: Seq<char>|
                object_keys(start).contains(k) ==> #[trigger] object_entry(*m, k) == object_entry(start, k),
            forall|k: Seq<char>|
                !object_keys(start).contains(k) && filled_upto(required@, i as int, *schema, k)
                    ==> #[trigger] object_entry(*m, k) == declared_default(*schema, k),
        decreases required.len() - i,
    {
        let ghost before = *m;
        let ghost n = required@[i as int]@;
        let present = has_key(m, required[i].as_str());
        if !present {
            if let Some(v) = property_default(schema, required[i].as_str()) {
                insert_entry(m, required[i].clone(), v);
            }
        }
        proof {
            assert forall|k: Seq<char>|
                filled_upto(required@, i + 1, *schema, k) <==> filled_upto(required@, i as int, *schema, k)
                    || (k == n && declared_default(*schema, k) is Some) by {
                if filled_upto(required@, i + 1, *schema, k) && !(k == n) {
                    let j = choose|j: int| 0 <= j < i + 1 && #[trigger] required@[j]@ == k && declared_default(*schema, k) is Some;
                    assert(j < i);
                }
                if k == n && declared_default(*schema, k) is Some {
                    assert(required@[i as int]@ == k);
                }
                if filled_upto(required@, i as int, *schema, k) {
                    let j = choose|j: int| 0 <= j < i && #[trigger] required@[j]@ == k && declared_default(*schema, k) is Some;
                    assert(required@[j]@ == k);
                }
            }
            assert(object_keys(*m) =~= object_keys(start).union(
                Set::new(|k: Seq<char>| filled_upto(required@, i + 1, *schema, k)),
            ));
        }
        i = i + 1;
    }
}

/// The type that `schema` declares for the property `name`, if it names one.
pub fn declared_type<'a>(schema: &'a serde_json::Value, name: &str) -> (r: Option<&'a str>)
    ensures
        r matches Some(t) ==> declared_kind(*schema, name@) == Some(t@),
        r is None ==> declared_kind(*schema, name@) is None,
{
    match field(schema, "properties") {
        Some(properties) => match field(properties, name) {
            Some(property) => match field(property, "type") {
                Some(t) => text(t),
                None => None,
            },
            None => None,
        },
        None => None,
    }
}

/// Whether `parsed` is a value of the declared numeric type `kind`:
/// any number for `number`, a whole number for `integer`.
pub fn fits_numeric_type(kind: &str, parsed: &serde_json::Value) -> (r: bool)
    ensures
        r == fits_kind(kind@, *parsed),
{
    proof {
        reveal_strlit("number");
        reveal_strlit("integer");
        assert("number"@[0] != "integer"@[0]);
    }
    if same_text(kind, "number") {
        is_number(parsed)
    } else if same_text(kind, "integer") {
        is_i64(parsed) || is_u64(parsed)
    } else {
        false
    }
}

/// The number that the string under `key` reads as, where the schema
/// declares a numeric type for `key` and the string is exactly such a number.
pub fn numeric_replacement(
    m: &serde_json::Map<String, serde_json::Value>,
    schema: &serde_json::Value,
    key: &str,
) -> (r: Option<serde_json::Value>)
    ensures
        r == replacement(*schema, key@, object_entry(*m, key@)),
{
    let kind = match declared_type(schema, key) {
        Some(k) => k,
        None => return None,
    };
    let current = match entry(m, key) {
        Some(v) => v,
        None => return None,
    };
    let s = match text(current) {
        Some(s) => s,
        None => return None,
    };
    match parse_json(s) {
        Ok(v) => {
            if fits_numeric_type(kind, &v) {
                Some(v)
            } else {
                None
            }
        },
        Err(_) => None,
    }
}

/// Some key among the first `n` is `k`.
pub open spec fn seen(keys: Seq<String>, n: int, k: Seq<char>) -> bool {
    exists|j: int| 0 <= j < n && #[trigger] keys[j]@ == k
}

/// Replaces each string whose property the schema declares numeric, and
/// which reads as a number of that type, by that number. The keys stay the
/// same, and every other entry is kept.
pub fn coerce_numbers(m: &mut serde_json::Map<String, serde_json::Value>, schema: &serde_json::Value)
    ensures
        object_keys(*final(m)) == object_keys(*old(m)),
        forall|k: Seq<char>|
            object_keys(*old(m)).contains(k) ==> #[trigger] object_entry(*final(m), k) == coerced(
                *schema,
                k,
                object_entry(*old(m), k),
            ),
        forall|k: Seq<char>|
            !object_keys(*old(m)).contains(k) ==> #[trigger] object_entry(*final(m), k) == object_entry(*old(m), k),
{
    let ghost start = *m;
    let keys = key_list(m);
    let mut i: usize = 0;
    while i < keys.len()
        invariant
            i <= keys@.len(),
            object_keys(*m) == object_keys(start),
            forall|j: int| 0 <= j < keys@.len() ==> object_keys(start).contains(#[trigger] keys@[j]@),
            forall|k: Seq<char>|
                object_keys(start).contains(k) ==> exists|j: int| 0 <= j < keys@.len() && #[trigger] keys@[j]@ == k,
            forall|a: int, b: int| 0 <= a < b < keys@.len() ==> keys@[a]@ != keys@[b]@,
            forall|k: Seq<char>|
                seen(keys@, i as int, k) ==> #[trigger] object_entry(*m, k) == coerced(*schema, k, object_entry(start, k)),
            forall|k: Seq<char>|
                !seen(keys@, i as int, k) ==> #[trigger] object_entry(*m, k) == object_entry(start, k),
        decreases keys.len() - i,
    {
        let ghost before = *m;
        let ghost n = keys@[i as int]@;
        proof {
            if seen(keys@, i as int, n) {
                let j = choose|j: int| 0 <= j < i && #[trigger] keys@[j]@ == n;
                assert(false);
            }
        }
        match numeric_replacement(m, schema, keys[i].as_str()) {
            Some(v) => {
                insert_entry(m, keys[i].clone(), v);
                assert(object_keys(*m) =~= object_keys(start));
            },
            None => {},
        }
        proof {
            assert forall|k: Seq<char>| seen(keys@, i + 1, k) <==> seen(keys@, i as int, k) || k == n by {
                if seen(keys@, i + 1, k) && k != n {
                    let j = choose|j: int| 0 <= j < i + 1 && #[trigger] keys@[j]@ == k;
                    assert(j < i);
                }
                if k == n {
                    assert(keys@[i as int]@ == k);
                }
                if seen(keys@, i as int, k) {
                    let j = choose|j: int| 0 <= j < i && #[trigger] keys@[j]@ == k;
                    assert(keys@[j]@ == k);
                }
            }
        }
        i = i + 1;
    }
    proof {
        assert forall|k: Seq<char>| object_keys(start).contains(k) implies seen(keys@, keys@.len() as int, k) by {
            let j = choose|j: int| 0 <= j < keys@.len() && #[trigger] keys@[j]@ == k;
        }
    }
}

/// Fixes frontmatter towards the schema: in a mapping, a string under a
/// property that the schema declares numeric becomes that number where it
/// reads as one; then the mapping gains each property that the schema
/// requires, that it lacks, and for which the schema declares a default, with
/// that default. Anything else is left as it was, and whatever this cannot
/// mend still violates the schema. The fix goes by the types and defaults that
/// the schema declares, whether or not the validator reported a violation
/// under that property.
pub fn fix_frontmatter(frontmatter: &serde_json::Value, schema: &serde_json::Value) -> (r:
    serde_json::Value)
    ensures
        fixed_value(*frontmatter, r, *schema),
{
    match into_mapping(copy_value(frontmatter)) {
        Err(other) => other,
        Ok(m) => {
            let ghost m0 = m;
            let mut m = m;
            coerce_numbers(&mut m, schema);
            let ghost m1 = m;
            let required = required_properties(schema);
            fill_defaults(&mut m, &required, schema);
            proof {
                assert forall|k: Seq<char>|
                    filled_upto(required@, required@.len() as int, *schema, k) <==> is_filled(*schema, k) by {
                    if filled_upto(required@, required@.len() as int, *schema, k) {
                        let j = choose|j: int| 0 <= j < required@.len() && #[trigger] required@[j]@ == k && declared_default(*schema, k) is Some;
                        assert(texts(required@)[j] == k);
                    }
                    if is_filled(*schema, k) {
                        let j = choose|j: int| 0 <= j < texts(required@).len() && texts(required@)[j] == k;
                        assert(required@[j]@ == k);
                    }
                }
                assert(object_keys(m) =~= object_keys(m0).union(Set::new(|k: Seq<char>| is_filled(*schema, k))));
            }
            from_mapping(m)
        },
    }
}

/// `v` is the value of the metadata block of `content`: an empty mapping for
/// an empty block, else what serde_yaml reads from it.
pub open spec fn block_value(content: Seq<char>, v: serde_json::Value) -> bool {
    if block_text(content).len() == 0 {
        mapping_of(v) matches Some(m) && object_keys(m) == Set::<Seq<char>>::empty() && forall|k: Seq<char>|
            #[trigger] object_entry(m, k) is None
    } else {
        v == yaml_value(block_text(content))
    }
}

/// Each violation as a line of a list.
pub open spec fn bulleted(lines: Seq<Seq<char>>) -> Seq<Seq<char>> {
    lines.map_values(|t: Seq<char>| bullet() + t)
}

/// How a chapter whose frontmatter is `frontmatter`, with the `violations`,
/// is concluded: kept when there are none; reported in validate mode; in fix
/// mode written back as the YAML of the fixed value in front of `body`, or
/// failed with `FrontmatterSerialize` where that value has no YAML text.
pub open spec fn settled(
    before: Chapter,
    after: Chapter,
    r: Result<(), FrontmatterError>,
    frontmatter: serde_json::Value,
    body: Seq<char>,
    violations: Seq<Seq<char>>,
    source: serde_json::Value,
    mode: Mode,
) -> bool {
    &&& after.name == before.name
    &&& violations.len() == 0 ==> r is Ok && after.content@ == before.content@
    &&& violations.len() > 0 && mode == Mode::Validate ==> after.content@ == before.content@ && (r matches Err(
        FrontmatterError::ValidationFailed { chapter: n, errors },
    ) && n == before.name && errors@ == lines_joined(violations))
    &&& violations.len() > 0 && mode == Mode::Fix ==> exists|f: serde_json::Value|
        fixed_value(frontmatter, f, source) && (yaml_writes(f) ==> r is Ok && after.content@
            == assembled(yaml_text(f), body)) && (!yaml_writes(f) ==> after.content@
            == before.content@ && r matches Err(FrontmatterError::FrontmatterSerialize { .. }))
}

/// What processing does to one chapter: no block leaves it alone; a block
/// that does not parse fails it with `FrontmatterParse`; otherwise it is
/// settled on the block's value and its violations against the schema.
pub open spec fn chapter_post(
    before: Chapter,
    after: Chapter,
    r: Result<(), FrontmatterError>,
    schema: jsonschema::JSONSchema,
    source: serde_json::Value,
    mode: Mode,
) -> bool {
    &&& after.name == before.name
    &&& !has_block(bytes_of(before.content@)) ==> r is Ok && after.content@ == before.content@
    &&& has_block(bytes_of(before.content@)) && !block_parses(before.content@) ==> after.content@
        == before.content@ && (r matches Err(FrontmatterError::FrontmatterParse { chapter: n, .. })
        && n == before.name)
    &&& has_block(bytes_of(before.content@)) && block_parses(before.content@) ==> exists|
        v: serde_json::Value,
    |
        block_value(before.content@, v) && #[trigger] settled(
            before,
            after,
            r,
            v,
            body_text(before.content@),
            bulleted(violation_texts(schema, v)),
            source,
            mode,
        )
}

/// Checks the frontmatter of one chapter and, in fix mode, rewrites it.
///
/// A chapter without a metadata block (no opening `---`, or no closing one)
/// is left alone. A block that is not YAML fails the chapter with
/// `FrontmatterParse`; an empty block stands for an empty mapping. A block
/// that conforms is left alone. One that does not fails the chapter with
/// `ValidationFailed` in validate mode; in fix mode it is fixed and written
/// back in front of the body, which stays as it was. In fix mode, violations
/// that the fix leaves unresolved are not reported: the chapter counts as
/// processed, and a later validation shows what remains.
pub fn process_chapter(
    chapter: &mut Chapter,
    schema: &jsonschema::JSONSchema,
    source: &serde_json::Value,
    config: &Config,
) -> (r: Result<(), FrontmatterError>)
    ensures
        chapter_post(*old(chapter), *final(chapter), r, *schema, *source, config.mode),
        !has_block(bytes_of(old(chapter).content@)) ==> r is Ok && final(chapter).content@ == old(
            chapter,
        ).content@,
        r is Err || config.mode == Mode::Validate ==> final(chapter).content@ == old(
            chapter,
        ).content@,
        r matches Err(e) ==> e.is_chapter_error(),
{
    let parts = split_frontmatter(chapter.content.as_str());
    let (block, body) = match parts {
        None => return Ok(()),
        Some(p) => p,
    };
    proof {
        assert(decode_utf8(encode_utf8(block@)) == block@);
        assert(decode_utf8(encode_utf8(body@)) == body@);
    }
    let metadata = trim(block.as_str());
    let frontmatter = if metadata.is_empty() {
        from_mapping(new_mapping())
    } else {
        match parse_yaml(metadata) {
            Ok(v) => v,
            Err(e) => {
                return Err(FrontmatterError::FrontmatterParse { chapter: chapter.name.clone(), source: e });
            },
        }
    };
    let violations = validate(schema, &frontmatter);
    let ghost before = *chapter;
    let r = settle_chapter(chapter, &frontmatter, body.as_str(), &violations, source, config);
    proof {
        assert(body@ == body_text(old(chapter).content@));
        assert(texts(violations@) =~= bulleted(violation_texts(*schema, frontmatter)));
        assert(block_value(before.content@, frontmatter));
        assert(settled(before, *chapter, r, frontmatter, body_text(before.content@), bulleted(violation_texts(*schema, frontmatter)), *source, config.mode));
    }
    r
}

/// Concludes a chapter whose frontmatter parsed to `frontmatter`, from its
/// violations: none leaves the chapter as it is in either mode; in validate
/// mode they fail it with `ValidationFailed`, one line each; in fix mode the
/// fixed frontmatter is written back in front of `body`, and whatever
/// violations the fix leaves are not reported.
pub fn settle_chapter(
    chapter: &mut Chapter,
    frontmatter: &serde_json::Value,
    body: &str,
    violations: &Vec<String>,
    source: &serde_json::Value,
    config: &Config,
) -> (r: Result<(), FrontmatterError>)
    ensures
        settled(*old(chapter), *final(chapter), r, *frontmatter, body@, texts(violations@), *source, config.mode),
{
    match next_step(config.mode, violations) {
        Step::Keep => Ok(()),
        Step::Report => Err(
            FrontmatterError::ValidationFailed {
                chapter: chapter.name.clone(),
                errors: join_lines(violations),
            },
        ),
        Step::Rewrite => {
            let fixed = fix_frontmatter(frontmatter, source);
            match to_yaml(&fixed) {
                Ok(y) => {
                    chapter.content = assemble(y.as_str(), body);
                    assert(chapter.content@ == assembled(yaml_text(fixed), body@));
                    Ok(())
                },
                Err(e) => Err(FrontmatterError::FrontmatterSerialize { source: e }),
            }
        },
    }
}

/// The message of a failed run: a heading, then one line or more for each
/// chapter error, in order.
pub open spec fn failure_text(errors: Seq<Seq<char>>) -> Seq<char> {
    "Frontmatter validation errors:\n"@ + lines_joined(errors)
}

/// Decides a run from the errors of its chapters: it fails when there are
/// errors and `fail_on_error` is set, with every message; otherwise it
/// succeeds.
pub fn conclude(errors: &Vec<String>, fail_on_error: bool) -> (r: Result<(), String>)
    ensures
        r is Err <==> errors@.len() > 0 && fail_on_error,
        r matches Err(m) ==> m@ == failure_text(texts(errors@)),
{
    if errors.len() > 0 && fail_on_error {
        let all = join_lines(errors);
        Err(concat_text("Frontmatter validation errors:\n", all.as_str()))
    } else {
        Ok(())
    }
}

/// The messages of the failed outcomes, in order.
pub open spec fn error_messages(outs: Seq<Result<(), FrontmatterError>>) -> Seq<Seq<char>>
    decreases outs.len(),
{
    if outs.len() == 0 {
        Seq::empty()
    } else {
        let rest = error_messages(outs.drop_last());
        match outs.last() {
            Err(e) => rest.push(message_text(e)),
            Ok(()) => rest,
        }
    }
}

/// There are messages exactly when some outcome failed.
pub proof fn lemma_error_messages_empty(outs: Seq<Result<(), FrontmatterError>>)
    ensures
        error_messages(outs).len() == 0 <==> forall|i: int| 0 <= i < outs.len() ==> #[trigger] outs[i] is Ok,
    decreases outs.len(),
{
    if outs.len() > 0 {
        lemma_error_messages_empty(outs.drop_last());
        if error_messages(outs).len() == 0 {
            assert forall|i: int| 0 <= i < outs.len() implies #[trigger] outs[i] is Ok by {
                if i < outs.len() - 1 {
                    assert(outs.drop_last()[i] == outs[i]);
                }
            }
        } else if forall|i: int| 0 <= i < outs.len() ==> #[trigger] outs[i] is Ok {
            assert(outs.last() is Ok);
            assert forall|i: int| 0 <= i < outs.drop_last().len() implies #[trigger] outs.drop_last()[i] is Ok by {
                assert(outs[i] is Ok);
            }
        }
    }
}

/// Every chapter was processed on its own: each outcome is what
/// `process_chapter` gives for that chapter alone.
pub open spec fn each_processed(
    before: Seq<Chapter>,
    after: Seq<Chapter>,
    outs: Seq<Result<(), FrontmatterError>>,
    schema: jsonschema::JSONSchema,
    source: serde_json::Value,
    mode: Mode,
) -> bool {
    &&& before.len() == after.len()
    &&& outs.len() == before.len()
    &&& forall|i: int|
        0 <= i < before.len() ==> #[trigger] chapter_post(before[i], after[i], outs[i], schema, source, mode)
}

/// Processes every chapter once, in order, each on its own, and collects the
/// message of every chapter that failed, in order.
pub fn process_chapters(
    chapters: &mut Vec<Chapter>,
    schema: &jsonschema::JSONSchema,
    source: &serde_json::Value,
    config: &Config,
) -> (errors: Vec<String>)
    ensures
        exists|outs: Seq<Result<(), FrontmatterError>>|
            each_processed(old(chapters)@, final(chapters)@, outs, *schema, *source, config.mode)
                && #[trigger] error_messages(outs) == texts(errors@),
{
    let ghost start = chapters@;
    let ghost mut outs: Seq<Result<(), FrontmatterError>> = Seq::empty();
    let mut errors: Vec<String> = Vec::new();
    let mut i: usize = 0;
    while i < chapters.len()
        invariant
            chapters@.len() == start.len(),
            i <= start.len(),
            outs.len() == i,
            forall|k: int| i <= k < start.len() ==> #[trigger] chapters@[k] == start[k],
            forall|k: int|
                0 <= k < i ==> #[trigger] chapter_post(start[k], chapters@[k], outs[k], *schema, *source, config.mode),
            error_messages(outs) == texts(errors@),
        decreases start.len() - i,
    {
        let outcome = process_chapter(&mut chapters[i], schema, source, config);
        let ghost prev_outs = outs;
        proof {
            outs = outs.push(outcome);
            assert(outs.drop_last() =~= prev_outs);
        }
        match outcome {
            Err(e) => {
                let m = e.message();
                let ghost prev = errors@;
                errors.push(m);
                assert(texts(errors@) =~= texts(prev).push(m@));
            },
            Ok(()) => {},
        }
        i = i + 1;
    }
    assert(each_processed(start, chapters@, outs, *schema, *source, config.mode));
    errors
}

/// Runs the preprocessor over a book's chapters: processes each on its own,
/// then fails, with the message of every chapter that failed, exactly when
/// `fail_on_error` is set and some chapter failed.
pub fn run_chapters(
    chapters: &mut Vec<Chapter>,
    schema: &jsonschema::JSONSchema,
    source: &serde_json::Value,
    config: &Config,
) -> (r: Result<(), String>)
    ensures
        exists|outs: Seq<Result<(), FrontmatterError>>|
            #[trigger] each_processed(old(chapters)@, final(chapters)@, outs, *schema, *source, config.mode)
                && (r is Err <==> config.fail_on_error && exists|i: int| 0 <= i < outs.len() && #[trigger] outs[i] is Err)
                && (r matches Err(m) ==> m@ == failure_text(error_messages(outs))),
        (forall|i: int| 0 <= i < old(chapters)@.len() ==> !has_block(bytes_of(#[trigger] old(chapters)@[i].content@)))
            ==> r is Ok,
        !config.fail_on_error ==> r is Ok,
{
    let errors = process_chapters(chapters, schema, source, config);
    let r = conclude(&errors, config.fail_on_error);
    proof {
        let outs = choose|outs: Seq<Result<(), FrontmatterError>>|
            each_processed(old(chapters)@, chapters@, outs, *schema, *source, config.mode)
                && #[trigger] error_messages(outs) == texts(errors@);
        lemma_error_messages_empty(outs);
        assert(texts(errors@).len() == errors@.len());
        if forall|i: int| 0 <= i < old(chapters)@.len() ==> !has_block(bytes_of(#[trigger] old(chapters)@[i].content@)) {
            assert forall|i: int| 0 <= i < outs.len() implies #[trigger] outs[i] is Ok by {
                assert(chapter_post(old(chapters)@[i], chapters@[i], outs[i], *schema, *source, config.mode));
            }
        }
    }
    r
}

/// The message of every failed outcome stands among the messages of the run.
pub proof fn lemma_error_message_kept(outs: Seq<Result<(), FrontmatterError>>, i: int)
    requires
        0 <= i < outs.len(),
        outs[i] is Err,
    ensures
        error_messages(outs).contains(message_text(outs[i]->Err_0)),
    decreases outs.len(),
{
    let rest = outs.drop_last();
    if i == outs.len() - 1 {
        assert(error_messages(outs) == error_messages(rest).push(message_text(outs[i]->Err_0)));
        assert(error_messages(outs)[error_messages(rest).len() as int] == message_text(outs[i]->Err_0));
    } else {
        assert(rest[i] == outs[i]);
        lemma_error_message_kept(rest, i);
        let j = choose|j: int| 0 <= j < error_messages(rest).len() && error_messages(rest)[j] == message_text(outs[i]->Err_0);
        match outs.last() {
            Err(e) => {
                assert(error_messages(outs) == error_messages(rest).push(message_text(e)));
                assert(error_messages(outs)[j] == error_messages(rest)[j]);
            },
            Ok(()) => {},
        }
    }
}

/// The chapter came through with no error and its text as it was.
pub open spec fn kept(before: Chapter, after: Chapter, out: Result<(), FrontmatterError>) -> bool {
    out is Ok && after.content@ == before.content@
}

/// In a run over chapters, a chapter whose metadata block is not YAML fails
/// with a message that names it, and that message is among the run's
/// messages; a chapter without a block, or whose block conforms, comes back
/// as it was and adds no message.
pub proof fn lemma_unparsable_chapter_reported(
    before: Seq<Chapter>,
    after: Seq<Chapter>,
    outs: Seq<Result<(), FrontmatterError>>,
    schema: jsonschema::JSONSchema,
    source: serde_json::Value,
    mode: Mode,
    i: int,
)
    requires
        each_processed(before, after, outs, schema, source, mode),
        0 <= i < before.len(),
        has_block(bytes_of(before[i].content@)),
        !block_parses(before[i].content@),
    ensures
        outs[i] is Err,
        error_messages(outs).contains(message_text(outs[i]->Err_0)),
        exists|cause: Seq<char>|
            message_text(outs[i]->Err_0) == "Failed to parse frontmatter as YAML in "@ + before[i].name@
                + ": "@ + cause,
        forall|j: int|
            0 <= j < before.len() && !has_block(bytes_of(before[j].content@)) ==> #[trigger] kept(before[j], after[j], outs[j]),
        forall|j: int|
            0 <= j < before.len() && has_block(bytes_of(before[j].content@)) && block_parses(
                before[j].content@,
            ) && (forall|v: serde_json::Value|
                block_value(before[j].content@, v) ==> conforms(schema, v)) ==> #[trigger] kept(before[j], after[j], outs[j]),
{
    assert(chapter_post(before[i], after[i], outs[i], schema, source, mode));
    lemma_error_message_kept(outs, i);
    match outs[i] {
        Err(FrontmatterError::FrontmatterParse { chapter, source: e }) => {
            let cause = yaml_error_text(e);
            assert(message_text(outs[i]->Err_0) == "Failed to parse frontmatter as YAML in "@ + before[i].name@
                + ": "@ + cause);
        },
        _ => {},
    }
    assert forall|j: int|
        0 <= j < before.len() && has_block(bytes_of(before[j].content@)) && block_parses(
            before[j].content@,
        ) && (forall|v: serde_json::Value|
            block_value(before[j].content@, v) ==> conforms(schema, v)) implies #[trigger] kept(before[j], after[j], outs[j]) by {
        assert(chapter_post(before[j], after[j], outs[j], schema, source, mode));
        let v = choose|v: serde_json::Value|
            block_value(before[j].content@, v) && #[trigger] settled(
                before[j],
                after[j],
                outs[j],
                v,
                body_text(before[j].content@),
                bulleted(violation_texts(schema, v)),
                source,
                mode,
            );
        assert(conforms(schema, v));
        assert(bulleted(violation_texts(schema, v)).len() == 0);
    }
    assert forall|j: int|
        0 <= j < before.len() && !has_block(bytes_of(before[j].content@)) implies #[trigger] kept(before[j], after[j], outs[j]) by {
        assert(chapter_post(before[j], after[j], outs[j], schema, source, mode));
    }
}

} // verus!
