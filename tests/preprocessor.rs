use mdbook_frontmatter::config::Mode;
use mdbook_frontmatter::error::concat_text;
use mdbook_frontmatter::frontmatter::{assemble, split_frontmatter};
use mdbook_frontmatter::preprocessor::{
    conclude, declared_type, fits_numeric_type, fix_frontmatter, join_lines, next_step, process_chapter, process_chapters,
    property_default, required_properties, run_chapters, same_text, Chapter, Step,
};
use mdbook_frontmatter::schema::{compile_schema, validate};
use mdbook_frontmatter::{Config, FrontmatterError, FrontmatterPreprocessor};

const TITLE_SCHEMA: &str =
    r#"{"type": "object", "properties": {"title": {"type": "string"}}, "required": ["title"]}"#;
const TITLE_DEFAULT_SCHEMA: &str = r#"{"type": "object", "properties": {"title": {"type": "string", "default": "Untitled"}}, "required": ["title"]}"#;

fn json(text: &str) -> serde_json::Value {
    serde_json::from_str(text).unwrap()
}

fn config(mode: Mode, fail_on_error: bool) -> Config {
    Config::new("file:///schema.json".to_string(), mode, fail_on_error, None).unwrap()
}

fn chapter(name: &str, content: &str) -> Chapter {
    Chapter { name: name.to_string(), content: content.to_string() }
}

fn revalidate(schema_text: &str, content: &str) -> Vec<String> {
    let compiled = compile_schema(&json(schema_text)).unwrap();
    let (block, _) = split_frontmatter(content).unwrap();
    let value: serde_json::Value = if block.trim().is_empty() {
        json("{}")
    } else {
        serde_yaml::from_str(block.trim()).unwrap()
    };
    validate(&compiled, &value)
}

#[test]
fn test_preprocessor_name() {
    let preprocessor = FrontmatterPreprocessor::new();
    assert_eq!(preprocessor.name(), "frontmatter");
}

#[test]
fn test_supports_renderer() {
    let preprocessor = FrontmatterPreprocessor::new();
    assert!(preprocessor.supports_renderer("html"));
    assert!(preprocessor.supports_renderer("epub"));
}

#[test]
fn one_renderer_is_not_supported() {
    let preprocessor = FrontmatterPreprocessor::default();
    assert!(!preprocessor.supports_renderer("not-supported"));
    assert!(preprocessor.supports_renderer("not-supported-either"));
    assert!(preprocessor.supports_renderer(""));
}

#[test]
fn texts_compare() {
    assert!(same_text("abc", "abc"));
    assert!(!same_text("abc", "abd"));
    assert!(!same_text("ab", "abc"));
    assert!(same_text("", ""));
}

#[test]
fn split_finds_block_and_body() {
    let (block, body) = split_frontmatter("---\ntitle: x\n---\n# Body\n").unwrap();
    assert_eq!(block, "\ntitle: x\n");
    assert_eq!(body, "\n# Body\n");
}

#[test]
fn split_takes_first_closing_delimiter() {
    let (block, body) = split_frontmatter("---a---b---c").unwrap();
    assert_eq!(block, "a");
    assert_eq!(body, "b---c");
}

#[test]
fn split_with_empty_block() {
    let (block, body) = split_frontmatter("------").unwrap();
    assert_eq!(block, "");
    assert_eq!(body, "");
}

#[test]
fn split_keeps_non_ascii_text() {
    let (block, body) = split_frontmatter("---\ntitle: été\n---é").unwrap();
    assert_eq!(block, "\ntitle: été\n");
    assert_eq!(body, "é");
}

#[test]
fn split_without_block() {
    assert!(split_frontmatter("").is_none());
    assert!(split_frontmatter("--").is_none());
    assert!(split_frontmatter("# Title\n---\nx---").is_none());
    assert!(split_frontmatter("---\ntitle: x\n").is_none());
    assert!(split_frontmatter("----").is_none());
    assert!(split_frontmatter("-----").is_none());
}

#[test]
fn assemble_puts_delimiters_around_block() {
    assert_eq!(assemble("title: x\n", "\nbody"), "---\ntitle: x\n---\nbody");
    assert_eq!(assemble("", ""), "---\n---");
}

#[test]
fn steps_by_mode_and_violations() {
    let none: Vec<String> = Vec::new();
    let some = vec!["  - v".to_string()];
    assert_eq!(next_step(Mode::Validate, &none), Step::Keep);
    assert_eq!(next_step(Mode::Fix, &none), Step::Keep);
    assert_eq!(next_step(Mode::Validate, &some), Step::Report);
    assert_eq!(next_step(Mode::Fix, &some), Step::Rewrite);
}

#[test]
fn lines_are_joined() {
    assert_eq!(join_lines(&Vec::new()), "");
    assert_eq!(join_lines(&vec!["a".to_string()]), "a");
    assert_eq!(join_lines(&vec!["a".to_string(), "b".to_string(), "".to_string()]), "a\nb\n");
}

#[test]
fn texts_are_concatenated() {
    assert_eq!(concat_text("ab", "cd"), "abcd");
}

#[test]
fn run_concludes_by_policy() {
    let errors = vec!["one".to_string(), "two".to_string()];
    assert_eq!(conclude(&errors, true), Err("Frontmatter validation errors:\none\ntwo".to_string()));
    assert_eq!(conclude(&errors, false), Ok(()));
    assert_eq!(conclude(&Vec::new(), true), Ok(()));
}

#[test]
fn no_opening_delimiter_leaves_chapter() {
    let compiled = compile_schema(&json(TITLE_SCHEMA)).unwrap();
    for mode in [Mode::Validate, Mode::Fix] {
        let mut c = chapter("a", "# Title\n\n---\ntitle: 1\n---\n");
        assert!(process_chapter(&mut c, &compiled, &json(TITLE_SCHEMA), &config(mode, true)).is_ok());
        assert_eq!(c.content, "# Title\n\n---\ntitle: 1\n---\n");
    }
}

#[test]
fn no_closing_delimiter_leaves_chapter() {
    let compiled = compile_schema(&json(TITLE_SCHEMA)).unwrap();
    for mode in [Mode::Validate, Mode::Fix] {
        let mut c = chapter("a", "---\ndescription: x\n# Body\n");
        assert!(process_chapter(&mut c, &compiled, &json(TITLE_SCHEMA), &config(mode, true)).is_ok());
        assert_eq!(c.content, "---\ndescription: x\n# Body\n");
    }
}

#[test]
fn conformant_chapter_is_left_in_both_modes() {
    let compiled = compile_schema(&json(TITLE_SCHEMA)).unwrap();
    let text = "---\ntitle:   Hello\n---\n# Body\n";
    assert!(revalidate(TITLE_SCHEMA, text).is_empty());
    for mode in [Mode::Validate, Mode::Fix] {
        let mut c = chapter("a", text);
        assert!(process_chapter(&mut c, &compiled, &json(TITLE_SCHEMA), &config(mode, true)).is_ok());
        assert_eq!(c.content, text);
    }
}

#[test]
fn missing_title_is_reported_in_validate_mode() {
    let compiled = compile_schema(&json(TITLE_SCHEMA)).unwrap();
    let mut c = chapter("intro.md", "------\nbody");
    let result = process_chapter(&mut c, &compiled, &json(TITLE_SCHEMA), &config(Mode::Validate, true));
    match result {
        Err(FrontmatterError::ValidationFailed { chapter, errors }) => {
            assert_eq!(chapter, "intro.md");
            assert_eq!(errors.lines().count(), 1);
            assert!(errors.contains("title"));
        }
        _ => panic!("expected a validation failure"),
    }
    assert_eq!(c.content, "------\nbody");
}

#[test]
fn missing_title_gets_its_default_in_fix_mode() {
    let compiled = compile_schema(&json(TITLE_DEFAULT_SCHEMA)).unwrap();
    let mut c = chapter("intro.md", "---\n---\n# Body\n");
    let result =
        process_chapter(&mut c, &compiled, &json(TITLE_DEFAULT_SCHEMA), &config(Mode::Fix, true));
    assert!(result.is_ok());
    assert_eq!(c.content, "---\ntitle: Untitled\n---\n# Body\n");
    assert!(revalidate(TITLE_DEFAULT_SCHEMA, &c.content).is_empty());
}

#[test]
fn missing_title_without_default_persists_in_fix_mode() {
    let compiled = compile_schema(&json(TITLE_SCHEMA)).unwrap();
    let mut c = chapter("intro.md", "---\ndescription: d\n---\nbody");
    let result = process_chapter(&mut c, &compiled, &json(TITLE_SCHEMA), &config(Mode::Fix, true));
    assert!(result.is_ok());
    assert!(c.content.ends_with("---\nbody"));
    assert!(c.content.starts_with("---\n"));
    assert_eq!(revalidate(TITLE_SCHEMA, &c.content).len(), 1);
}

#[test]
fn fixed_frontmatter_reads_back_as_same_value() {
    let compiled = compile_schema(&json(TITLE_SCHEMA)).unwrap();
    let mut c = chapter("a", "---\ndescription: d\ntags: [a, b]\ncount: 3\nflag: true\nnothing: null\n---\nbody");
    process_chapter(&mut c, &compiled, &json(TITLE_SCHEMA), &config(Mode::Fix, true)).unwrap();
    let (block, body) = split_frontmatter(&c.content).unwrap();
    assert_eq!(body, "\nbody");
    let value: serde_json::Value = serde_yaml::from_str(&block).unwrap();
    assert_eq!(
        value,
        json(r#"{"description": "d", "tags": ["a", "b"], "count": 3, "flag": true, "nothing": null}"#)
    );
}

#[test]
fn invalid_yaml_fails_the_chapter() {
    let compiled = compile_schema(&json(TITLE_SCHEMA)).unwrap();
    let mut c = chapter("bad.md", "---\ntitle: [unclosed\n---\nbody");
    let result = process_chapter(&mut c, &compiled, &json(TITLE_SCHEMA), &config(Mode::Fix, true));
    match result {
        Err(e) => {
            assert!(matches!(e, FrontmatterError::FrontmatterParse { .. }));
            assert!(e.message().starts_with("Failed to parse frontmatter as YAML in bad.md: "));
        }
        Ok(()) => panic!("expected a parse error"),
    }
    assert_eq!(c.content, "---\ntitle: [unclosed\n---\nbody");
}

#[test]
fn batch_with_invalid_second_chapter_fails() {
    let compiled = compile_schema(&json(TITLE_SCHEMA)).unwrap();
    let first = "---\ntitle: One\n---\nfirst";
    let third = "# no frontmatter\n";
    let mut chapters = vec![
        chapter("one.md", first),
        chapter("two.md", "---\ntitle: [oops\n---\nsecond"),
        chapter("three.md", third),
    ];
    let result = run_chapters(&mut chapters, &compiled, &json(TITLE_SCHEMA), &config(Mode::Validate, true));
    match result {
        Err(m) => {
            assert!(m.starts_with("Frontmatter validation errors:\n"));
            assert!(m.contains("two.md"));
            assert!(!m.contains("one.md"));
        }
        Ok(()) => panic!("expected the run to fail"),
    }
    assert_eq!(chapters[0].content, first);
    assert_eq!(chapters[2].content, third);
}

#[test]
fn batch_without_fail_on_error_succeeds() {
    let compiled = compile_schema(&json(TITLE_SCHEMA)).unwrap();
    let mut chapters = vec![chapter("one.md", "---\ndescription: d\n---\nbody")];
    let result = run_chapters(&mut chapters, &compiled, &json(TITLE_SCHEMA), &config(Mode::Fix, false));
    assert_eq!(result, Ok(()));
    assert!(chapters[0].content.ends_with("---\nbody"));
    assert!(!revalidate(TITLE_SCHEMA, &chapters[0].content).is_empty());
}

#[test]
fn batch_collects_every_error_in_order() {
    let compiled = compile_schema(&json(TITLE_SCHEMA)).unwrap();
    let mut chapters = vec![
        chapter("a.md", "---\ndescription: d\n---\n"),
        chapter("b.md", "---\ntitle: ok\n---\n"),
        chapter("c.md", "---\n[x\n---\n"),
    ];
    let errors = process_chapters(&mut chapters, &compiled, &json(TITLE_SCHEMA), &config(Mode::Validate, true));
    assert_eq!(errors.len(), 2);
    assert!(errors[0].starts_with("Frontmatter validation failed in a.md:\n  - "));
    assert!(errors[1].starts_with("Failed to parse frontmatter as YAML in c.md"));
}

#[test]
fn required_names_and_defaults_of_schema() {
    let schema = json(r#"{"properties": {"a": {"default": 1}, "b": {}}, "required": ["a", "b", 3]}"#);
    assert_eq!(required_properties(&schema), vec!["a".to_string(), "b".to_string()]);
    assert_eq!(property_default(&schema, "a"), Some(json("1")));
    assert_eq!(property_default(&schema, "b"), None);
    assert_eq!(property_default(&schema, "c"), None);
    assert!(required_properties(&json("{}")).is_empty());
}

#[test]
fn fix_adds_defaults_only_where_missing() {
    let schema = json(r#"{"properties": {"a": {"default": 1}, "b": {"default": 2}, "c": {}}, "required": ["a", "b", "c"]}"#);
    let fixed = fix_frontmatter(&json(r#"{"b": 5}"#), &schema);
    assert_eq!(fixed, json(r#"{"a": 1, "b": 5}"#));
    assert_eq!(fix_frontmatter(&json("[1]"), &schema), json("[1]"));
}

#[test]
fn validation_failed_message() {
    let e = FrontmatterError::ValidationFailed { chapter: "c.md".to_string(), errors: "  - x".to_string() };
    assert_eq!(e.message(), "Frontmatter validation failed in c.md:\n  - x");
    assert_eq!(FrontmatterError::Config("bad".to_string()).message(), "Configuration error: bad");
    assert_eq!(FrontmatterError::InvalidSchemaUrl("u".to_string()).message(), "Invalid schema URL: u");
}

#[test]
fn fix_turns_numeric_strings_into_numbers() {
    let schema = json(r#"{"properties": {"n": {"type": "number"}, "k": {"type": "integer"}, "j": {"type": "integer"}, "s": {"type": "string"}, "w": {"type": "number"}}}"#);
    let data = json(r#"{"n": "2.5", "k": "7", "j": "7.5", "s": "3", "w": "many", "x": "4"}"#);
    let fixed = fix_frontmatter(&data, &schema);
    assert_eq!(
        fixed,
        json(r#"{"n": 2.5, "k": 7, "j": "7.5", "s": "3", "w": "many", "x": "4"}"#)
    );
}

#[test]
fn declared_types_and_numeric_fit() {
    let schema = json(r#"{"properties": {"n": {"type": "number"}, "o": {}}}"#);
    assert_eq!(declared_type(&schema, "n"), Some("number"));
    assert_eq!(declared_type(&schema, "o"), None);
    assert_eq!(declared_type(&schema, "p"), None);
    assert!(fits_numeric_type("number", &json("1.5")));
    assert!(fits_numeric_type("integer", &json("-3")));
    assert!(!fits_numeric_type("integer", &json("1.5")));
    assert!(!fits_numeric_type("string", &json("1")));
    assert!(!fits_numeric_type("number", &json("\"1\"")));
}

#[test]
fn fix_mode_coerces_and_conforms() {
    let schema_text = r#"{"type": "object", "properties": {"count": {"type": "integer"}}, "required": ["count"]}"#;
    let compiled = compile_schema(&json(schema_text)).unwrap();
    let mut c = chapter("n.md", "---\ncount: '3'\n---\ntext");
    process_chapter(&mut c, &compiled, &json(schema_text), &config(Mode::Fix, true)).unwrap();
    assert_eq!(c.content, "---\ncount: 3\n---\ntext");
    assert!(revalidate(schema_text, &c.content).is_empty());
}

#[test]
fn batch_without_blocks_succeeds_in_fix_mode() {
    let compiled = compile_schema(&json(TITLE_SCHEMA)).unwrap();
    let mut chapters = vec![chapter("a.md", "# A\n"), chapter("b.md", "---\nno closing\n")];
    let result = run_chapters(&mut chapters, &compiled, &json(TITLE_SCHEMA), &config(Mode::Fix, true));
    assert_eq!(result, Ok(()));
    assert_eq!(chapters[0].content, "# A\n");
    assert_eq!(chapters[1].content, "---\nno closing\n");
}

#[test]
fn conformant_chapters_stay_when_another_fails_in_fix_mode() {
    let compiled = compile_schema(&json(TITLE_SCHEMA)).unwrap();
    let first = "---\ntitle: One\n---\nfirst";
    let mut chapters = vec![
        chapter("one.md", first),
        chapter("two.md", "---\ntitle: [oops\n---\nsecond"),
    ];
    let result = run_chapters(&mut chapters, &compiled, &json(TITLE_SCHEMA), &config(Mode::Fix, true));
    let m = result.unwrap_err();
    assert!(m.starts_with("Frontmatter validation errors:\nFailed to parse frontmatter as YAML in two.md: "));
    assert_eq!(chapters[0].content, first);
}

#[test]
fn block_of_unicode_white_space_is_an_empty_mapping() {
    let schema_text = r#"{"type": "object"}"#;
    let compiled = compile_schema(&json(schema_text)).unwrap();
    let text = "---\u{3000}\n\u{a0}---\nbody";
    let mut c = chapter("w.md", text);
    let result = process_chapter(&mut c, &compiled, &json(schema_text), &config(Mode::Validate, true));
    assert!(result.is_ok());
    assert_eq!(c.content, text);
}

#[test]
fn compile_error_carries_a_description() {
    match compile_schema(&json(r#"{"type": 12}"#)) {
        Err(FrontmatterError::InvalidSchema(m)) => assert!(!m.is_empty()),
        _ => panic!("expected an invalid schema"),
    }
}
