use vstd::prelude::*;
use vstd::utf8::encode_utf8;

use super::error::TemplateError;
use crate::text::{
    byte_offset, byte_position, chars_of, contains_seq, is_alphanumeric, is_ascii_alnum,
    is_ascii_char, occurs_at, string_from_range, strings_view, unicode_alphanumeric,
};

verus! {

/// A character allowed in a variable name: `_` or an alphanumeric (among
/// ASCII characters, the letters and digits).
pub open spec fn is_name_char(c: char) -> bool {
    c == '_' || if is_ascii_char(c) {
        is_ascii_alnum(c)
    } else {
        unicode_alphanumeric(c)
    }
}

/// Every character of `n` is allowed in a variable name.
pub open spec fn is_valid_name(n: Seq<char>) -> bool {
    forall|i: int| 0 <= i < n.len() ==> is_name_char(#[trigger] n[i])
}

/// The outcome of scanning a template for `{{name}}` variables.
pub enum ParseSpec {
    /// The scan reached the end; the variables found, in order.
    Complete(Seq<Seq<char>>),
    /// An empty `{{}}`; the variables found before it, and the character
    /// index just after its opening `{{`.
    Unclosed(Seq<Seq<char>>, int),
    /// A name with a character that is not allowed; the variables found
    /// before it, and the name.
    Invalid(Seq<Seq<char>>, Seq<char>),
    /// The scan slices the template inside a multi-byte character: a name
    /// whose last character is not ASCII.
    Panics,
}

/// Scanning text outside a variable, at character index `k`.
pub open spec fn scan_text(t: Seq<char>, k: int, vars: Seq<Seq<char>>) -> ParseSpec
    decreases t.len() - k, 1int,
{
    if k < 0 || k >= t.len() {
        ParseSpec::Complete(vars)
    } else if t[k] == '{' && k + 1 < t.len() && t[k + 1] == '{' {
        scan_var(t, k + 2, k + 2, k + 2, vars)
    } else {
        scan_text(t, k + 1, vars)
    }
}

/// Scanning inside a variable opened just before index `s`: `p` is the next
/// character to look at and `t[s..e]` the name read so far. A `}` that is
/// not followed by a second `}` is kept in the name, and the character after
/// it is skipped without being looked at.
pub open spec fn scan_var(t: Seq<char>, p: int, s: int, e: int, vars: Seq<Seq<char>>) -> ParseSpec
    decreases t.len() - p, 0int,
{
    if p < 0 || p >= t.len() {
        ParseSpec::Complete(vars)
    } else if t[p] == '}' {
        if p + 1 < t.len() && t[p + 1] == '}' {
            let name = t.subrange(s, e);
            if e > s && !is_ascii_char(t[e - 1]) {
                ParseSpec::Panics
            } else if e <= s {
                ParseSpec::Unclosed(vars, s)
            } else if !is_valid_name(name) {
                ParseSpec::Invalid(vars, name)
            } else {
                scan_text(t, p + 2, vars.push(name))
            }
        } else if p + 1 < t.len() {
            scan_var(t, p + 2, s, p + 1, vars)
        } else {
            ParseSpec::Complete(vars)
        }
    } else {
        scan_var(t, p + 1, s, p + 1, vars)
    }
}

/// The outcome of parsing the whole template `t`.
pub open spec fn parse_spec(t: Seq<char>) -> ParseSpec {
    scan_text(t, 0, Seq::empty())
}

/// What `TemplateParser::parse` returns and leaves in the parser, for each
/// outcome of the scan of `t`.
pub open spec fn parse_outcome_holds(
    outcome: ParseSpec,
    r: Result<(), TemplateError>,
    vars: Seq<Seq<char>>,
    t: Seq<char>,
) -> bool {
    match outcome {
        ParseSpec::Complete(v) => r is Ok && vars == v,
        ParseSpec::Unclosed(v, s) => vars == v && (r matches Err(
            TemplateError::UnclosedVariable { position },
        ) && position == byte_offset(t, s)),
        ParseSpec::Invalid(v, name) => vars == v && (r matches Err(TemplateError::InvalidVariableName(n))
            && n@ == name),
        ParseSpec::Panics => true,
    }
}

/// Template parser that extracts variables from template strings.
pub struct TemplateParser {
    variables: Vec<String>,
}

impl View for TemplateParser {
    type V = Seq<Seq<char>>;

    /// The variables found by the last parse, in order.
    closed spec fn view(&self) -> Seq<Seq<char>> {
        strings_view(self.variables@)
    }
}

impl TemplateParser {
    /// A parser that has found no variables.
    pub fn new() -> (r: Self)
        ensures
            r@ == Seq::<Seq<char>>::empty(),
    {
        let r = TemplateParser { variables: Vec::new() };
        assert(r@ =~= Seq::<Seq<char>>::empty());
        r
    }

    /// The variables found by the last parse, one per `{{name}}`, in order
    /// of appearance (repeated names are reported each time).
    pub fn variables(&self) -> (r: &[String])
        ensures
            strings_view(r@) == self@,
    {
        self.variables.as_slice()
    }

    /// Hands over the variables found by the last parse.
    pub(crate) fn into_variables(self) -> (r: Vec<String>)
        ensures
            strings_view(r@) == self@,
    {
        self.variables
    }

    /// Scans `template` for `{{name}}` variables. Replaces the variables of
    /// the parser by those found, in order. An empty `{{}}` is reported as
    /// `UnclosedVariable` at the byte position of its closing braces, a name
    /// with a character other than `_` and alphanumerics as
    /// `InvalidVariableName`; the variables found before an error stay in
    /// the parser. A `{{` that is never closed is not an error.
    pub fn parse(&mut self, template: &str) -> (r: Result<(), TemplateError>)
        requires
            !(parse_spec(template@) is Panics),
        ensures
            parse_outcome_holds(parse_spec(template@), r, final(self)@, template@),
    {
        self.variables.clear();
        assert(self@ =~= Seq::<Seq<char>>::empty());
        let bytes = template.as_bytes();
        let nbytes = bytes.len();
        assert(bytes@ == encode_utf8(template@));
        assert(nbytes == bytes@.len());
        let t = chars_of(template);
        let n = t.len();
        let mut k: usize = 0;
        while k < n
            invariant
                k <= n == t@.len(),
                t@ == template@,
                encode_utf8(template@).len() <= usize::MAX,
                scan_text(t@, k as int, self@) == parse_spec(template@),
                !(parse_spec(template@) is Panics),
            decreases n - k,
        {
            if t[k] == '{' && k + 1 < n && t[k + 1] == '{' {
                match self.scan_variable(template, &t, k + 2) {
                    Ok(Some(next)) => {
                        k = next;
                    },
                    Ok(None) => {
                        return Ok(());
                    },
                    Err(e) => {
                        return Err(e);
                    },
                }
            } else {
                k = k + 1;
            }
        }
        Ok(())
    }

    /// Scans one variable whose name starts at character index `start`.
    /// Returns the index at which scanning of plain text resumes, `None` when
    /// the template ends first, or the error that ends the parse.
    fn scan_variable(&mut self, template: &str, t: &Vec<char>, start: usize) -> (r: Result<
        Option<usize>,
        TemplateError,
    >)
        requires
            t@ == template@,
            2 <= start <= t@.len(),
            encode_utf8(template@).len() <= usize::MAX,
            !(scan_var(t@, start as int, start as int, start as int, old(self)@) is Panics),
        ensures
            match r {
                Ok(Some(next)) => start < next <= t@.len() && scan_text(t@, next as int, final(self)@)
                    == scan_var(t@, start as int, start as int, start as int, old(self)@),
                Ok(None) => final(self)@ == old(self)@ && scan_var(
                    t@,
                    start as int,
                    start as int,
                    start as int,
                    old(self)@,
                ) == ParseSpec::Complete(old(self)@),
                Err(e) => parse_outcome_holds(
                    scan_var(t@, start as int, start as int, start as int, old(self)@),
                    Err(e),
                    final(self)@,
                    template@,
                ),
            },
    {
        let n = t.len();
        let ghost target = scan_var(t@, start as int, start as int, start as int, self@);
        let mut p = start;
        let mut end = start;
        while p < n
            invariant
                start <= end <= p <= n == t@.len(),
                t@ == template@,
                self@ == old(self)@,
                encode_utf8(template@).len() <= usize::MAX,
                target == scan_var(t@, start as int, start as int, start as int, old(self)@),
                scan_var(t@, p as int, start as int, end as int, self@) == target,
                !(target is Panics),
            decreases n - p,
        {
            if t[p] == '}' {
                if p + 1 < n && t[p + 1] == '}' {
                    if end == start {
                        let position = byte_position(template, t, start);
                        return Err(TemplateError::UnclosedVariable { position });
                    }
                    let name = string_from_range(t, start, end);
                    if !name_is_valid(t, start, end) {
                        return Err(TemplateError::InvalidVariableName(name));
                    }
                    let ghost before = self@;
                    self.variables.push(name);
                    assert(self@ =~= before.push(t@.subrange(start as int, end as int)));
                    return Ok(Some(p + 2));
                } else if p + 1 < n {
                    end = p + 1;
                    p = p + 2;
                } else {
                    return Ok(None);
                }
            } else {
                end = p + 1;
                p = p + 1;
            }
        }
        Ok(None)
    }
}

/// Checks one variable whose name starts at character index `start`, with
/// the variables `vars` found before it: `Ok((next, end))` when the name
/// `t[start..end]` is accepted and the scan of plain text resumes at
/// `next`, otherwise whether the scan ends by slicing inside a character.
fn check_variable(t: &Vec<char>, start: usize, vars: Ghost<Seq<Seq<char>>>) -> (r: Result<
    (usize, usize),
    bool,
>)
    requires
        2 <= start <= t@.len(),
    ensures
        match r {
            Ok((next, end)) => start <= end && start < next <= t@.len() && scan_text(
                t@,
                next as int,
                vars@.push(t@.subrange(start as int, end as int)),
            ) == scan_var(t@, start as int, start as int, start as int, vars@),
            Err(b) => b == (scan_var(t@, start as int, start as int, start as int, vars@) is Panics),
        },
{
    let n = t.len();
    let ghost target = scan_var(t@, start as int, start as int, start as int, vars@);
    let mut p = start;
    let mut end = start;
    while p < n
        invariant
            start <= end <= p <= n == t@.len(),
            target == scan_var(t@, start as int, start as int, start as int, vars@),
            scan_var(t@, p as int, start as int, end as int, vars@) == target,
        decreases n - p,
    {
        if t[p] == '}' {
            if p + 1 < n && t[p + 1] == '}' {
                if end > start && (t[end - 1] as u32) >= 0x80 {
                    return Err(true);
                }
                if end == start {
                    return Err(false);
                }
                if !name_is_valid(t, start, end) {
                    return Err(false);
                }
                return Ok((p + 2, end));
            } else if p + 1 < n {
                end = p + 1;
                p = p + 2;
            } else {
                return Err(false);
            }
        } else {
            end = p + 1;
            p = p + 1;
        }
    }
    Err(false)
}

/// Whether parsing `template` would slice it inside a multi-byte
/// character: a variable name whose last character is not ASCII. `parse`
/// and `PromptTemplate::new` may be called exactly when this is `false`.
pub fn parse_would_panic(template: &str) -> (r: bool)
    ensures
        r == (parse_spec(template@) is Panics),
{
    let t = chars_of(template);
    let n = t.len();
    let mut k: usize = 0;
    let ghost mut vars: Seq<Seq<char>> = Seq::empty();
    while k < n
        invariant
            k <= n == t@.len(),
            t@ == template@,
            scan_text(t@, k as int, vars) == parse_spec(template@),
        decreases n - k,
    {
        if t[k] == '{' && k + 1 < n && t[k + 1] == '{' {
            match check_variable(&t, k + 2, Ghost(vars)) {
                Ok((next, end)) => {
                    proof {
                        vars = vars.push(t@.subrange(k + 2, end as int));
                    }
                    k = next;
                },
                Err(b) => {
                    return b;
                },
            }
        } else {
            k = k + 1;
        }
    }
    false
}

/// Whether every character of `t[from..to]` is allowed in a variable name.
fn name_is_valid(t: &Vec<char>, from: usize, to: usize) -> (r: bool)
    requires
        from <= to <= t@.len(),
    ensures
        r == is_valid_name(t@.subrange(from as int, to as int)),
{
    let mut i = from;
    while i < to
        invariant
            from <= i <= to <= t@.len(),
            forall|m: int| from <= m < i ==> is_name_char(#[trigger] t@[m]),
        decreases to - i,
    {
        let c = t[i];
        if !(c == '_' || is_alphanumeric(c)) {
            assert(t@.subrange(from as int, to as int)[i - from] == c);
            return false;
        }
        i = i + 1;
    }
    assert forall|m: int| 0 <= m < to - from implies is_name_char(
        #[trigger] t@.subrange(from as int, to as int)[m],
    ) by {
        assert(t@.subrange(from as int, to as int)[m] == t@[from + m]);
    }
    true
}


/// Every name in `vars` is non-empty, valid, and its placeholder occurs in `t`.
pub open spec fn all_placed(t: Seq<char>, vars: Seq<Seq<char>>) -> bool {
    forall|i: int|
        0 <= i < vars.len() ==> {
            &&& (#[trigger] vars[i]).len() > 0
            &&& is_valid_name(vars[i])
            &&& contains_seq(t, seq!['{', '{'] + vars[i] + seq!['}', '}'])
        }
}

proof fn lemma_scan_text_placed(t: Seq<char>, k: int, vars: Seq<Seq<char>>)
    requires
        0 <= k,
        all_placed(t, vars),
    ensures
        scan_text(t, k, vars) matches ParseSpec::Complete(v) ==> all_placed(t, v),
    decreases t.len() - k, 1int,
{
    if k >= t.len() {
    } else if t[k] == '{' && k + 1 < t.len() && t[k + 1] == '{' {
        lemma_scan_var_placed(t, k + 2, k + 2, k + 2, vars);
    } else {
        lemma_scan_text_placed(t, k + 1, vars);
    }
}

proof fn lemma_scan_var_placed(t: Seq<char>, p: int, s: int, e: int, vars: Seq<Seq<char>>)
    requires
        2 <= s <= e <= p,
        s <= t.len(),
        t[s - 2] == '{',
        t[s - 1] == '{',
        e == p || exists|j: int| s <= j < e && t[j] == '}',
        all_placed(t, vars),
    ensures
        scan_var(t, p, s, e, vars) matches ParseSpec::Complete(v) ==> all_placed(t, v),
    decreases t.len() - p, 0int,
{
    if p >= t.len() {
    } else if t[p] == '}' {
        if p + 1 < t.len() && t[p + 1] == '}' {
            let name = t.subrange(s, e);
            if e > s && !is_ascii_char(t[e - 1]) {
            } else if e <= s {
            } else if !is_valid_name(name) {
            } else {
                if e != p {
                    let j = choose|j: int| s <= j < e && t[j] == '}';
                    assert(name[j - s] == '}');
                    assert(!is_name_char(name[j - s]));
                    assert(false);
                }
                let ph = seq!['{', '{'] + name + seq!['}', '}'];
                assert(t.subrange(s - 2, s - 2 + ph.len()) =~= ph);
                assert(occurs_at(t, s - 2, ph));
                let nv = vars.push(name);
                assert forall|i: int| 0 <= i < nv.len() implies {
                    &&& (#[trigger] nv[i]).len() > 0
                    &&& is_valid_name(nv[i])
                    &&& contains_seq(t, seq!['{', '{'] + nv[i] + seq!['}', '}'])
                } by {
                    if i < vars.len() {
                        assert(nv[i] == vars[i]);
                    } else {
                        assert(nv[i] == name);
                    }
                }
                lemma_scan_text_placed(t, p + 2, nv);
            }
        } else if p + 1 < t.len() {
            lemma_scan_var_placed(t, p + 2, s, p + 1, vars);
        } else {
        }
    } else {
        if e != p {
            let j = choose|j: int| s <= j < e && t[j] == '}';
            assert(s <= j < p + 1 && t[j] == '}');
        }
        lemma_scan_var_placed(t, p + 1, s, p + 1, vars);
    }
}

/// Law: when a template parses, every variable that the parse reports is a
/// non-empty valid name whose placeholder `{{name}}` occurs in the template.
pub proof fn lemma_parsed_variables_occur(t: Seq<char>)
    ensures
        parse_spec(t) matches ParseSpec::Complete(vars) ==> all_placed(t, vars),
{
    lemma_scan_text_placed(t, 0, Seq::empty());
}

impl Default for TemplateParser {
    /// A parser that has found no variable.
    fn default() -> (r: Self)
        ensures
            r@ == Seq::<Seq<char>>::empty(),
    {
        TemplateParser::new()
    }
}

}
