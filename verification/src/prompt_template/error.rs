use vstd::prelude::*;

verus! {

/// Errors of template parsing.
#[derive(Debug)]
pub enum TemplateError {
    /// Unclosed variable delimiter (also reported for an empty `{{}}`),
    /// at the given byte position.
    UnclosedVariable { position: usize },
    /// Invalid variable name.
    InvalidVariableName(String),
    /// Missing required variable.
    MissingVariable(String),
    /// Template parsing error.
    ParseError(String),
}

impl TemplateError {
    /// The message that describes this error.
    pub fn message(&self) -> (r: String)
        ensures
            match self {
                TemplateError::UnclosedVariable { position } => r@ == "unclosed variable at position "@
                    + crate::text::decimal_spec(*position as nat),
                TemplateError::InvalidVariableName(name) => r@ == "invalid variable name: "@ + name@,
                TemplateError::MissingVariable(name) => r@ == "missing variable: "@ + name@,
                TemplateError::ParseError(msg) => r@ == "parse error: "@ + msg@,
            },
    {
        let mut r = String::new();
        assert(r@ =~= Seq::<char>::empty());
        match self {
            TemplateError::UnclosedVariable { position } => {
                r.append("unclosed variable at position ");
                r.append(crate::text::decimal(*position as u64).as_str());
            },
            TemplateError::InvalidVariableName(name) => {
                r.append("invalid variable name: ");
                r.append(name.as_str());
            },
            TemplateError::MissingVariable(name) => {
                r.append("missing variable: ");
                r.append(name.as_str());
            },
            TemplateError::ParseError(msg) => {
                r.append("parse error: ");
                r.append(msg.as_str());
            },
        }
        r
    }
}

}
