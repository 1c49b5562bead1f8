use vstd::prelude::*;

use super::error::TemplateError;
use super::parser::{parse_outcome_holds, parse_spec, ParseSpec, TemplateParser};
use crate::text::{
    chars_of, contains_seq, lemma_replace_absent, owned, replace_all, replace_chars, string_from_chars,
    strings_view,
};

verus! {

/// The placeholder `{{key}}` of a variable.
pub open spec fn placeholder(key: Seq<char>) -> Seq<char> {
    seq!['{', '{'] + key + seq!['}', '}']
}

/// The result of substituting `vars`, in order, into `s`: for each pair
/// `(key, value)`, every occurrence of `{{key}}` in the text so far is
/// replaced by `value`.
pub open spec fn render_spec(s: Seq<char>, vars: Seq<(Seq<char>, Seq<char>)>) -> Seq<char>
    decreases vars.len(),
{
    if vars.len() == 0 {
        s
    } else {
        replace_all(
            render_spec(s, vars.drop_last()),
            placeholder(vars.last().0),
            vars.last().1,
        )
    }
}

/// Law: a variable whose placeholder does not occur in the text rendered
/// so far changes nothing; in particular values of variables that the
/// template does not use are ignored, and rendering without values leaves
/// the template as it is.
pub proof fn lemma_render_ignores_absent(
    s: Seq<char>,
    vars: Seq<(Seq<char>, Seq<char>)>,
    key: Seq<char>,
    value: Seq<char>,
)
    requires
        !contains_seq(render_spec(s, vars), placeholder(key)),
    ensures
        render_spec(s, vars.push((key, value))) == render_spec(s, vars),
        render_spec(s, Seq::empty()) == s,
{
    assert(vars.push((key, value)).drop_last() =~= vars);
    lemma_replace_absent(render_spec(s, vars), placeholder(key), value);
}

/// The views of a slice of `(key, value)` pairs.
pub open spec fn pairs_view(vars: Seq<(&str, &str)>) -> Seq<(Seq<char>, Seq<char>)> {
    vars.map_values(|p: (&str, &str)| (p.0@, p.1@))
}

/// A validated prompt template.
pub struct PromptTemplate {
    template: String,
    variables: Vec<String>,
}

impl PromptTemplate {
    /// The template text.
    pub closed spec fn text(&self) -> Seq<char> {
        self.template@
    }

    /// The variables declared by the template, in order.
    pub closed spec fn declared(&self) -> Seq<Seq<char>> {
        strings_view(self.variables@)
    }

    /// Parses `template`; on success the template keeps its text and the
    /// variables that the parse found, otherwise the parse error is returned.
    pub fn new(template: &str) -> (r: Result<Self, TemplateError>)
        requires
            !(parse_spec(template@) is Panics),
        ensures
            match parse_spec(template@) {
                ParseSpec::Complete(vars) => r matches Ok(pt) && pt.text() == template@
                    && pt.declared() == vars,
                _ => r matches Err(e) && parse_outcome_holds(
                    parse_spec(template@),
                    Err(e),
                    parse_outcome_vars(parse_spec(template@)),
                    template@,
                ),
            },
    {
        let mut parser = TemplateParser::new();
        match parser.parse(template) {
            Ok(()) => {},
            Err(e) => {
                return Err(e);
            },
        }
        let vars = parser.into_variables();
        Ok(PromptTemplate { template: owned(template), variables: vars })
    }

    /// Substitutes each `(key, value)` pair, in order, for the occurrences of
    /// `{{key}}`. Keys that the template does not use change nothing and
    /// placeholders without a value stay as they are.
    pub fn render(&self, vars: &[(&str, &str)]) -> (r: String)
        ensures
            r@ == render_spec(self.text(), pairs_view(vars@)),
    {
        let mut cur = chars_of(self.template.as_str());
        let mut i: usize = 0;
        while i < vars.len()
            invariant
                i <= vars@.len(),
                cur@ == render_spec(self.text(), pairs_view(vars@).take(i as int)),
            decreases vars.len() - i,
        {
            let (key, value) = vars[i];
            let mut pat: Vec<char> = Vec::new();
            pat.push('{');
            pat.push('{');
            let k = chars_of(key);
            let mut j: usize = 0;
            while j < k.len()
                invariant
                    j <= k@.len(),
                    pat@ == seq!['{', '{'] + k@.take(j as int),
                decreases k.len() - j,
            {
                pat.push(k[j]);
                j = j + 1;
                assert(pat@ =~= seq!['{', '{'] + k@.take(j as int));
            }
            pat.push('}');
            pat.push('}');
            assert(k@.take(k@.len() as int) =~= k@);
            assert(pat@ =~= placeholder(key@));
            let v = chars_of(value);
            cur = replace_chars(&cur, &pat, &v);
            proof {
                let pv = pairs_view(vars@);
                assert(pv.take(i + 1).drop_last() =~= pv.take(i as int));
                assert(pv.take(i + 1).last() == pv[i as int]);
            }
            i = i + 1;
        }
        assert(pairs_view(vars@).take(vars@.len() as int) =~= pairs_view(vars@));
        string_from_chars(&cur)
    }

    /// The variables declared by the template, in order of appearance.
    pub fn variables(&self) -> (r: &[String])
        ensures
            strings_view(r@) == self.declared(),
    {
        self.variables.as_slice()
    }

    /// The template text.
    pub fn as_str(&self) -> (r: &str)
        ensures
            r@ == self.text(),
    {
        self.template.as_str()
    }
}

/// The variables that a parse leaves behind, for each outcome.
pub open spec fn parse_outcome_vars(outcome: ParseSpec) -> Seq<Seq<char>> {
    match outcome {
        ParseSpec::Complete(v) => v,
        ParseSpec::Unclosed(v, _) => v,
        ParseSpec::Invalid(v, _) => v,
        ParseSpec::Panics => Seq::empty(),
    }
}

}
