//! Configuration of the frontmatter preprocessor.
use crate::error::{concat_text, FrontmatterError};
use vstd::prelude::*;
use vstd::string::StringSliceAdditionalSpecFns;
use vstd::utf8::encode_utf8;

verus! {

/// What to do with frontmatter that does not conform to the schema.
#[derive(Debug, Clone, Copy, PartialEq, Eq, Structural)]
pub enum Mode {
    /// Report violations, leave the chapter as it is.
    Validate,
    /// Rewrite the frontmatter towards the schema.
    Fix,
}

impl Default for Mode {
    fn default() -> (r: Mode)
        ensures
            r == Mode::Validate,
    {
        Mode::Validate
    }
}

/// Whether `p` is a prefix of `b`.
pub open spec fn starts_with(b: Seq<u8>, p: Seq<u8>) -> bool {
    p.len() <= b.len() && b.subrange(0, p.len() as int) == p
}

/// Whether the text of `s` begins with the text of `p`.
pub fn has_prefix(s: &str, p: &str) -> (r: bool)
    ensures
        r == starts_with(s.spec_bytes(), p.spec_bytes()),
{
    let a = s.as_bytes();
    let b = p.as_bytes();
    if b.len() > a.len() {
        return false;
    }
    let mut i: usize = 0;
    while i < b.len()
        invariant
            a@ == s.spec_bytes(),
            b@ == p.spec_bytes(),
            b@.len() <= a@.len(),
            i <= b@.len(),
            forall|k: int| 0 <= k < i ==> a@[k] == b@[k],
        decreases b.len() - i,
    {
        if a[i] != b[i] {
            proof {
                assert(a@.subrange(0, b@.len() as int)[i as int] != b@[i as int]);
            }
            return false;
        }
        i = i + 1;
    }
    assert(a@.subrange(0, b@.len() as int) =~= b@);
    true
}

/// A schema address names one of the accepted schemes.
pub open spec fn is_schema_url(s: Seq<char>) -> bool {
    ||| starts_with(encode_utf8(s), "http://".spec_bytes())
    ||| starts_with(encode_utf8(s), "https://".spec_bytes())
    ||| starts_with(encode_utf8(s), "file://".spec_bytes())
}

/// The message for a schema address with no accepted scheme.
pub open spec fn bad_scheme_text(schema: Seq<char>) -> Seq<char> {
    "Schema must be a URL (http://, https://, or file://): "@ + schema
}

/// The settings of one run.
#[derive(Debug, Clone)]
pub struct Config {
    /// Where the schema is: an `http://`, `https://` or `file://` address.
    pub schema: String,
    /// Validate or fix.
    pub mode: Mode,
    /// Whether chapter errors fail the run.
    pub fail_on_error: bool,
    /// The renderers to run for, if restricted.
    pub renderers: Option<Vec<String>>,
}

/// `fail_on_error` when the settings do not give it.
pub fn default_fail_on_error() -> (r: bool)
    ensures
        r,
{
    true
}

impl Config {
    /// The settings, once the schema address is known to name an accepted
    /// scheme.
    pub fn new(schema: String, mode: Mode, fail_on_error: bool, renderers: Option<
        Vec<String>,
    >) -> (r: Result<Config, FrontmatterError>)
        ensures
            r is Ok <==> is_schema_url(schema@),
            r matches Ok(c) ==> c.schema == schema && c.mode == mode && c.fail_on_error
                == fail_on_error && c.renderers == renderers,
            r matches Err(e) ==> e matches FrontmatterError::InvalidSchemaUrl(m) && m@
                == bad_scheme_text(schema@),
    {
        if !has_prefix(schema.as_str(), "http://") && !has_prefix(schema.as_str(), "https://")
            && !has_prefix(schema.as_str(), "file://") {
            let m = concat_text(
                "Schema must be a URL (http://, https://, or file://): ",
                schema.as_str(),
            );
            return Err(FrontmatterError::InvalidSchemaUrl(m));
        }
        Ok(Config { schema, mode, fail_on_error, renderers })
    }
}

} // verus!
