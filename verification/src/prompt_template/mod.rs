//! Safe, typed templating for prompts: `{{name}}` placeholders are checked
//! when a template is built and substituted when it is rendered.
mod error;
mod parser;
mod template;

pub use error::TemplateError;
pub use parser::{
    all_placed, is_name_char, is_valid_name, lemma_parsed_variables_occur, parse_outcome_holds,
    parse_spec, parse_would_panic, scan_text, scan_var, ParseSpec, TemplateParser,
};
pub use template::{lemma_render_ignores_absent, placeholder, render_spec, PromptTemplate};
