use tpt_ai_agents::prompt_template::parse_would_panic;
use tpt_ai_agents::prompt_template::{TemplateError, PromptTemplate, TemplateParser};

fn names(v: &[String]) -> Vec<&str> {
    v.iter().map(|s| s.as_str()).collect()
}

#[test]
fn test_parse_variables() {
    let mut parser = TemplateParser::new();
    parser
        .parse("Hello {{name}}, your topic is {{topic}}")
        .unwrap();
    assert_eq!(names(parser.variables()), &["name", "topic"]);
}

#[test]
fn test_empty_template() {
    let mut parser = TemplateParser::new();
    parser.parse("Hello world").unwrap();
    assert!(parser.variables().is_empty());
}

#[test]
fn test_empty_string_template() {
    let mut parser = TemplateParser::new();
    parser.parse("").unwrap();
    assert!(parser.variables().is_empty());
}

#[test]
fn test_empty_variable_name_errors() {
    let mut parser = TemplateParser::new();
    let err = parser.parse("Hello {{}}").unwrap_err();
    assert!(matches!(err, TemplateError::UnclosedVariable { .. }));
}

#[test]
fn test_invalid_variable_name_errors() {
    let mut parser = TemplateParser::new();
    let err = parser.parse("Hello {{first name}}").unwrap_err();
    assert!(matches!(err, TemplateError::InvalidVariableName(_)));
}

#[test]
fn test_variable_name_with_underscore_is_valid() {
    let mut parser = TemplateParser::new();
    parser.parse("{{first_name}}").unwrap();
    assert_eq!(names(parser.variables()), &["first_name"]);
}

#[test]
fn test_adjacent_variables() {
    let mut parser = TemplateParser::new();
    parser.parse("{{a}}{{b}}").unwrap();
    assert_eq!(names(parser.variables()), &["a", "b"]);
}

#[test]
fn test_repeated_variable_is_captured_each_time() {
    let mut parser = TemplateParser::new();
    parser.parse("{{name}} and {{name}} again").unwrap();
    assert_eq!(names(parser.variables()), &["name", "name"]);
}

#[test]
fn test_single_unmatched_brace_is_not_a_variable() {
    let mut parser = TemplateParser::new();
    parser.parse("just a { brace").unwrap();
    assert!(parser.variables().is_empty());
}

#[test]
fn test_unicode_around_variable() {
    let mut parser = TemplateParser::new();
    parser.parse("こんにちは {{name}} さん 😀").unwrap();
    assert_eq!(names(parser.variables()), &["name"]);
}

#[test]
fn test_render_substitutes_all_variables() {
    let template = PromptTemplate::new("Hello, {{name}}! Topic: {{topic}}.").unwrap();
    let rendered = template.render(&[("name", "Ada"), ("topic", "Rust")]);
    assert_eq!(rendered, "Hello, Ada! Topic: Rust.");
}

#[test]
fn test_render_leaves_missing_variable_unresolved() {
    let template = PromptTemplate::new("Hello, {{name}}!").unwrap();
    let rendered = template.render(&[]);
    assert_eq!(rendered, "Hello, {{name}}!");
}

#[test]
fn test_render_ignores_unknown_extra_vars() {
    let template = PromptTemplate::new("Hello, {{name}}!").unwrap();
    let rendered = template.render(&[("name", "Ada"), ("unused", "x")]);
    assert_eq!(rendered, "Hello, Ada!");
}

#[test]
fn test_render_with_no_variables_returns_template_unchanged() {
    let template = PromptTemplate::new("Just plain text.").unwrap();
    assert_eq!(template.render(&[]), "Just plain text.");
}

#[test]
fn test_new_rejects_malformed_template() {
    assert!(PromptTemplate::new("Hello {{}}").is_err());
}

#[test]
fn test_variables_reports_declared_names() {
    let template = PromptTemplate::new("{{a}} and {{b}}").unwrap();
    assert_eq!(names(template.variables()), &["a", "b"]);
}

#[test]
fn test_render_substitutes_unicode_values() {
    let template = PromptTemplate::new("Hi {{name}}").unwrap();
    let rendered = template.render(&[("name", "日本語 😀")]);
    assert_eq!(rendered, "Hi 日本語 😀");
}

// Further cases.

#[test]
fn unclosed_variable_reports_byte_position_after_braces() {
    let mut parser = TemplateParser::new();
    match parser.parse("é {{}}") {
        Err(TemplateError::UnclosedVariable { position }) => assert_eq!(position, 5),
        _ => panic!("expected an unclosed variable"),
    }
}

#[test]
fn variables_before_an_error_stay_in_the_parser() {
    let mut parser = TemplateParser::new();
    assert!(parser.parse("{{a}} {{b c}}").is_err());
    assert_eq!(names(parser.variables()), &["a"]);
}

#[test]
fn parse_replaces_previous_variables() {
    let mut parser = TemplateParser::new();
    parser.parse("{{a}}").unwrap();
    parser.parse("{{b}}").unwrap();
    assert_eq!(names(parser.variables()), &["b"]);
}

#[test]
fn never_closed_variable_is_not_an_error() {
    let mut parser = TemplateParser::new();
    parser.parse("Hello {{name").unwrap();
    assert!(parser.variables().is_empty());
}

#[test]
fn lone_closing_brace_keeps_it_in_the_name() {
    let mut parser = TemplateParser::new();
    match parser.parse("{{a}b}}") {
        Err(TemplateError::InvalidVariableName(name)) => assert_eq!(name, "a}"),
        _ => panic!("expected an invalid name"),
    }
}

#[test]
fn unicode_letters_are_valid_in_names() {
    let mut parser = TemplateParser::new();
    parser.parse("{{éa}}").unwrap();
    assert_eq!(names(parser.variables()), &["éa"]);
}

#[test]
fn render_replaces_every_occurrence_in_order() {
    let template = PromptTemplate::new("{{a}}{{a}}-{{b}}").unwrap();
    assert_eq!(template.render(&[("a", "{{b}}"), ("b", "x")]), "xx-x");
    assert_eq!(template.as_str(), "{{a}}{{a}}-{{b}}");
}

#[test]
fn error_messages() {
    assert_eq!(
        TemplateError::UnclosedVariable { position: 12 }.message(),
        "unclosed variable at position 12"
    );
    assert_eq!(
        TemplateError::InvalidVariableName("a b".to_string()).message(),
        "invalid variable name: a b"
    );
}

#[test]
fn values_of_unused_variables_change_nothing() {
    let template = tpt_ai_agents::prompt_template::PromptTemplate::new("Hi {{a}}").unwrap();
    assert_eq!(template.render(&[("b", "x"), ("c", "y")]), "Hi {{a}}");
    assert_eq!(template.render(&[("a", "{{b}}"), ("b", "z")]), "Hi z");
}

#[test]
fn parse_would_panic_only_on_names_ending_in_multibyte_characters() {
    assert!(!parse_would_panic("{{a}}"));
    assert!(!parse_would_panic("héllo {{name}} wörld"));
    assert!(!parse_would_panic("{{né_x}}"));
    assert!(parse_would_panic("{{nameé}}"));
    assert!(!parse_would_panic("{{}}"));
}
