//! The errors of the preprocessor.
use vstd::prelude::*;
use crate::outside::{json_error_description, json_error_text, yaml_error_description, yaml_error_text};
use vstd::string::StringExecFns;

verus! {

/// What went wrong. Schema and configuration errors stop a run before any
/// chapter is read; the frontmatter errors belong to one chapter each.
#[derive(Debug)]
pub enum FrontmatterError {
    SchemaFetch { url: String, message: String },
    SchemaRead { path: String, message: String },
    InvalidSchemaUrl(String),
    SchemaParseJson { source: serde_json::Error },
    InvalidSchema(String),
    FrontmatterParse { chapter: String, source: serde_yaml::Error },
    ValidationFailed { chapter: String, errors: String },
    FrontmatterSerialize { source: serde_yaml::Error },
    MdBook(String),
    Config(String),
}

/// The message of `ValidationFailed` for a chapter and its violations.
pub open spec fn validation_failed_text(chapter: Seq<char>, errors: Seq<char>) -> Seq<char> {
    "Frontmatter validation failed in "@ + chapter + ":\n"@ + errors
}

/// The message of `InvalidSchemaUrl` for a detail.
pub open spec fn invalid_url_text(detail: Seq<char>) -> Seq<char> {
    "Invalid schema URL: "@ + detail
}

/// `a` followed by `b`.
pub fn concat_text(a: &str, b: &str) -> (r: String)
    ensures
        r@ == a@ + b@,
{
    let mut r = String::from_str(a);
    r.append(b);
    r
}

/// The message that describes an error to a user.
pub open spec fn message_text(e: FrontmatterError) -> Seq<char> {
    match e {
        FrontmatterError::SchemaFetch { url, message } => "Failed to fetch schema from "@ + url@ + ": "@
            + message@,
        FrontmatterError::SchemaRead { path, message } => "Failed to read schema from file "@ + path@
            + ": "@ + message@,
        FrontmatterError::InvalidSchemaUrl(d) => invalid_url_text(d@),
        FrontmatterError::SchemaParseJson { source } => "Failed to parse schema as JSON: "@
            + json_error_text(source),
        FrontmatterError::InvalidSchema(d) => "Invalid JSON schema: "@ + d@,
        FrontmatterError::FrontmatterParse { chapter, source } =>
            "Failed to parse frontmatter as YAML in "@ + chapter@ + ": "@ + yaml_error_text(source),
        FrontmatterError::ValidationFailed { chapter, errors } => validation_failed_text(
            chapter@,
            errors@,
        ),
        FrontmatterError::FrontmatterSerialize { source } => "Failed to serialize fixed frontmatter: "@
            + yaml_error_text(source),
        FrontmatterError::MdBook(d) => "MDBook error: "@ + d@,
        FrontmatterError::Config(d) => "Configuration error: "@ + d@,
    }
}

impl FrontmatterError {
    /// Whether this error belongs to a single chapter.
    pub open spec fn is_chapter_error(&self) -> bool {
        ||| self is FrontmatterParse
        ||| self is ValidationFailed
        ||| self is FrontmatterSerialize
    }

    /// The message that describes this error to a user.
    pub fn message(&self) -> (r: String)
        ensures
            r@ == message_text(*self),
    {
        let r = match self {
            FrontmatterError::SchemaFetch { url, message } => {
                let mut r = String::from_str("Failed to fetch schema from ");
                r.append(url.as_str());
                r.append(": ");
                r.append(message.as_str());
                r
            },
            FrontmatterError::SchemaRead { path, message } => {
                let mut r = String::from_str("Failed to read schema from file ");
                r.append(path.as_str());
                r.append(": ");
                r.append(message.as_str());
                r
            },
            FrontmatterError::InvalidSchemaUrl(d) => concat_text("Invalid schema URL: ", d.as_str()),
            FrontmatterError::SchemaParseJson { source } => {
                let cause = json_error_description(source);
                concat_text("Failed to parse schema as JSON: ", cause.as_str())
            },
            FrontmatterError::InvalidSchema(d) => concat_text("Invalid JSON schema: ", d.as_str()),
            FrontmatterError::FrontmatterParse { chapter, source } => {
                let cause = yaml_error_description(source);
                let mut r = String::from_str("Failed to parse frontmatter as YAML in ");
                r.append(chapter.as_str());
                r.append(": ");
                r.append(cause.as_str());
                r
            },
            FrontmatterError::ValidationFailed { chapter, errors } => {
                let mut r = String::from_str("Frontmatter validation failed in ");
                r.append(chapter.as_str());
                r.append(":\n");
                r.append(errors.as_str());
                r
            },
            FrontmatterError::FrontmatterSerialize { source } => {
                let cause = yaml_error_description(source);
                concat_text("Failed to serialize fixed frontmatter: ", cause.as_str())
            },
            FrontmatterError::MdBook(d) => concat_text("MDBook error: ", d.as_str()),
            FrontmatterError::Config(d) => concat_text("Configuration error: ", d.as_str()),
        };
        assert(r@ =~= message_text(*self));
        r
    }
}

} // verus!
