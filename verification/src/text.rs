//! Character-level string helpers shared by the parsers of this crate.
//!
//! Strings are modelled by their `Seq<char>` view; byte positions (as used by
//! `str` indexing) are modelled by the length of the UTF-8 encoding of a prefix.
use vstd::prelude::*;
use vstd::utf8::{encode_scalar, encode_utf8};

verus! {

// ---------------------------------------------------------------------------
// Building and reading strings
// ---------------------------------------------------------------------------

/// Collects the characters of `s` in order.
pub fn chars_of(s: &str) -> (r: Vec<char>)
    ensures
        r@ == s@,
{
    let mut r: Vec<char> = Vec::new();
    for c in it: s.chars()
        invariant
            r@ == it.seq().take(it.index() as int),
            it.seq() == s@,
    {
        r.push(c);
        assert(r@ == it.seq().take(it.index() as int + 1));
    }
    assert(r@ == s@);
    r
}

/// `String::push`: appends one character at the end of the string.
#[verifier::external_body]
pub(crate) fn push_char(s: &mut String, c: char)
    ensures
        final(s)@ == old(s)@.push(c),
{
    s.push(c);
}

/// Builds a `String` holding the characters of `cs[from..to]`.
pub fn string_from_range(cs: &Vec<char>, from: usize, to: usize) -> (r: String)
    requires
        from <= to <= cs.len(),
    ensures
        r@ == cs@.subrange(from as int, to as int),
{
    let mut r = String::new();
    let mut i = from;
    while i < to
        invariant
            from <= i <= to <= cs.len(),
            r@ == cs@.subrange(from as int, i as int),
        decreases to - i,
    {
        push_char(&mut r, cs[i]);
        i = i + 1;
        assert(r@ =~= cs@.subrange(from as int, i as int));
    }
    r
}

/// Builds a `String` holding all characters of `cs`.
pub fn string_from_chars(cs: &Vec<char>) -> (r: String)
    ensures
        r@ == cs@,
{
    let r = string_from_range(cs, 0, cs.len());
    assert(cs@.subrange(0, cs@.len() as int) =~= cs@);
    r
}

/// Copies a `&str` into an owned `String`.
pub fn owned(s: &str) -> (r: String)
    ensures
        r@ == s@,
{
    let cs = chars_of(s);
    string_from_chars(&cs)
}

/// The views of a sequence of strings.
pub open spec fn strings_view(v: Seq<String>) -> Seq<Seq<char>> {
    v.map_values(|s: String| s@)
}

// ---------------------------------------------------------------------------
// Character classes
// ---------------------------------------------------------------------------

/// ASCII characters are those below U+0080.
pub open spec fn is_ascii_char(c: char) -> bool {
    (c as u32) < 0x80
}

/// `[A-Za-z0-9]`.
pub open spec fn is_ascii_alnum(c: char) -> bool {
    ('a' <= c && c <= 'z') || ('A' <= c && c <= 'Z') || ('0' <= c && c <= '9')
}

/// Whether `char::is_alphanumeric` holds of a character (Unicode `Alphabetic`
/// or `Numeric`).
pub uninterp spec fn unicode_alphanumeric(c: char) -> bool;

/// `char::is_alphanumeric`. The contract states that the result is the
/// Unicode property named by `unicode_alphanumeric`, and, as its
/// documentation gives, that among ASCII characters exactly the letters and
/// digits have it. Which non-ASCII characters have it is left unsaid.
#[verifier::external_body]
pub(crate) fn is_alphanumeric(c: char) -> (r: bool)
    ensures
        r == unicode_alphanumeric(c),
        is_ascii_char(c) ==> (r <==> is_ascii_alnum(c)),
{
    c.is_alphanumeric()
}

/// Whitespace as `char::is_whitespace` understands it: the characters with
/// the Unicode `White_Space` property.
pub open spec fn is_ws(c: char) -> bool {
    let u = c as u32;
    ||| 0x09 <= u <= 0x0D
    ||| u == 0x20
    ||| u == 0x85
    ||| u == 0xA0
    ||| u == 0x1680
    ||| 0x2000 <= u <= 0x200A
    ||| u == 0x2028
    ||| u == 0x2029
    ||| u == 0x202F
    ||| u == 0x205F
    ||| u == 0x3000
}

/// Whether `c` is whitespace (`char::is_whitespace`).
pub fn is_whitespace(c: char) -> (r: bool)
    ensures
        r == is_ws(c),
{
    let u = c as u32;
    (0x09 <= u && u <= 0x0D) || u == 0x20 || u == 0x85 || u == 0xA0 || u == 0x1680 || (0x2000
        <= u && u <= 0x200A) || u == 0x2028 || u == 0x2029 || u == 0x202F || u == 0x205F || u
        == 0x3000
}

/// `s` without leading whitespace.
pub open spec fn trim_start(s: Seq<char>) -> Seq<char>
    decreases s.len(),
{
    if s.len() > 0 && is_ws(s[0]) {
        trim_start(s.drop_first())
    } else {
        s
    }
}

/// `s` without trailing whitespace.
pub open spec fn trim_end(s: Seq<char>) -> Seq<char>
    decreases s.len(),
{
    if s.len() > 0 && is_ws(s.last()) {
        trim_end(s.drop_last())
    } else {
        s
    }
}

/// `str::trim`: `s` without leading and trailing whitespace.
pub open spec fn trim(s: Seq<char>) -> Seq<char> {
    trim_end(trim_start(s))
}

/// Characters `s[from..to]` with leading and trailing whitespace removed.
pub fn trimmed_range(s: &Vec<char>, from: usize, to: usize) -> (r: Vec<char>)
    requires
        from <= to <= s@.len(),
    ensures
        r@ == trim(s@.subrange(from as int, to as int)),
{
    let mut a = from;
    while a < to && is_whitespace(s[a])
        invariant
            from <= a <= to <= s@.len(),
            trim_start(s@.subrange(from as int, to as int)) == trim_start(
                s@.subrange(a as int, to as int),
            ),
        decreases to - a,
    {
        assert(s@.subrange(a as int, to as int).drop_first() =~= s@.subrange(a + 1, to as int));
        a = a + 1;
    }
    let ghost start = s@.subrange(a as int, to as int);
    assert(trim_start(start) == start);
    let mut b = to;
    while b > a && is_whitespace(s[b - 1])
        invariant
            from <= a <= b <= to <= s@.len(),
            trim_end(start) == trim_end(s@.subrange(a as int, b as int)),
        decreases b - a,
    {
        assert(s@.subrange(a as int, b as int).drop_last() =~= s@.subrange(a as int, b - 1));
        b = b - 1;
    }
    let mut r: Vec<char> = Vec::new();
    let mut i = a;
    while i < b
        invariant
            a <= i <= b <= s@.len(),
            r@ == s@.subrange(a as int, i as int),
        decreases b - i,
    {
        r.push(s[i]);
        i = i + 1;
        assert(r@ =~= s@.subrange(a as int, i as int));
    }
    r
}

/// `s` begins with `p`.
pub open spec fn has_prefix(s: Seq<char>, p: Seq<char>) -> bool {
    p.len() <= s.len() && s.take(p.len() as int) == p
}

/// Whether `s[..len]` begins with `p`.
pub fn starts_with(s: &Vec<char>, len: usize, p: &str) -> (r: bool)
    requires
        len <= s@.len(),
    ensures
        r == has_prefix(s@.take(len as int), p@),
{
    let pc = chars_of(p);
    if pc.len() > len {
        return false;
    }
    let mut i: usize = 0;
    while i < pc.len()
        invariant
            i <= pc@.len() <= len <= s@.len(),
            pc@ == p@,
            forall|j: int| 0 <= j < i ==> s@[j] == pc@[j],
        decreases pc.len() - i,
    {
        if s[i] != pc[i] {
            assert(s@.take(len as int).take(pc@.len() as int)[i as int] != p@[i as int]);
            return false;
        }
        i = i + 1;
    }
    assert(s@.take(len as int).take(pc@.len() as int) =~= p@);
    true
}

// ---------------------------------------------------------------------------
// UTF-8 byte positions
// ---------------------------------------------------------------------------

/// Number of bytes in the UTF-8 encoding of `c`.
pub open spec fn utf8_width(c: char) -> nat {
    encode_scalar(c as u32).len()
}

/// Byte position, in the UTF-8 encoding of `t`, of the character at index `k`.
pub open spec fn byte_offset(t: Seq<char>, k: int) -> nat {
    encode_utf8(t.take(k)).len()
}

/// The encoding of a concatenation is the concatenation of the encodings.
pub proof fn lemma_encode_utf8_append(a: Seq<char>, b: Seq<char>)
    ensures
        encode_utf8(a + b) == encode_utf8(a) + encode_utf8(b),
    decreases a.len(),
{
    if a.len() == 0 {
        assert(a + b =~= b);
        assert(encode_utf8(a) =~= Seq::<u8>::empty());
        assert(encode_utf8(a) + encode_utf8(b) =~= encode_utf8(b));
    } else {
        assert((a + b).drop_first() =~= a.drop_first() + b);
        lemma_encode_utf8_append(a.drop_first(), b);
        assert((a + b)[0] == a[0]);
        assert(encode_utf8(a + b) =~= encode_scalar(a[0] as u32) + encode_utf8(a.drop_first() + b));
        assert(encode_utf8(a) + encode_utf8(b) =~= encode_scalar(a[0] as u32) + (encode_utf8(
            a.drop_first(),
        ) + encode_utf8(b)));
    }
}

/// Moving one character forward advances the byte position by its width,
/// and byte positions never pass the length of the whole encoding.
pub proof fn lemma_byte_offset_step(t: Seq<char>, k: int)
    requires
        0 <= k < t.len(),
    ensures
        byte_offset(t, k + 1) == byte_offset(t, k) + utf8_width(t[k]),
        byte_offset(t, k + 1) <= encode_utf8(t).len(),
{
    assert(t.take(k + 1) =~= t.take(k) + seq![t[k]]);
    lemma_encode_utf8_append(t.take(k), seq![t[k]]);
    assert(seq![t[k]].drop_first() =~= Seq::<char>::empty());
    assert(encode_utf8(seq![t[k]]) =~= encode_scalar(t[k] as u32) + encode_utf8(
        Seq::<char>::empty(),
    ));
    assert(encode_utf8(Seq::<char>::empty()) =~= Seq::<u8>::empty());
    assert(t =~= t.take(k + 1) + t.skip(k + 1));
    lemma_encode_utf8_append(t.take(k + 1), t.skip(k + 1));
}

/// Width of the UTF-8 encoding of `c`, computed from its scalar value.
pub fn char_utf8_width(c: char) -> (w: usize)
    ensures
        w == utf8_width(c),
        1 <= w <= 4,
        w == 1 <==> is_ascii_char(c),
{
    proof {
        vstd::utf8::char_is_scalar(c);
    }
    let v = c as u32;
    if v < 0x80 {
        1
    } else if v < 0x800 {
        2
    } else if v < 0x10000 {
        3
    } else {
        4
    }
}

/// Byte position of the character at index `k` of `s`.
pub fn byte_position(s: &str, cs: &Vec<char>, k: usize) -> (r: usize)
    requires
        cs@ == s@,
        k <= cs.len(),
        encode_utf8(s@).len() <= usize::MAX,
    ensures
        r == byte_offset(s@, k as int),
{
    let mut pos: usize = 0;
    let mut i: usize = 0;
    assert(s@.take(0) =~= Seq::<char>::empty());
    assert(encode_utf8(Seq::<char>::empty()) =~= Seq::<u8>::empty());
    while i < k
        invariant
            i <= k <= cs.len(),
            cs@ == s@,
            pos == byte_offset(s@, i as int),
            encode_utf8(s@).len() <= usize::MAX,
        decreases k - i,
    {
        proof {
            lemma_byte_offset_step(s@, i as int);
        }
        pos = pos + char_utf8_width(cs[i]);
        i = i + 1;
    }
    pos
}

// ---------------------------------------------------------------------------
// Substrings
// ---------------------------------------------------------------------------

/// `pat` occurs in `s` starting at index `i`.
pub open spec fn occurs_at(s: Seq<char>, i: int, pat: Seq<char>) -> bool {
    0 <= i && i + pat.len() <= s.len() && s.subrange(i, i + pat.len()) == pat
}

/// `pat` occurs somewhere in `s` (`str::contains`).
pub open spec fn contains_seq(s: Seq<char>, pat: Seq<char>) -> bool {
    exists|i: int| occurs_at(s, i, pat)
}

/// Tests whether `pat` occurs in `s` at index `i`.
pub fn matches_at(s: &Vec<char>, i: usize, pat: &Vec<char>) -> (r: bool)
    ensures
        r == occurs_at(s@, i as int, pat@),
{
    if i > s.len() || pat.len() > s.len() - i {
        return false;
    }
    let mut j: usize = 0;
    while j < pat.len()
        invariant
            i + pat.len() <= s.len(),
            j <= pat.len(),
            forall|m: int| 0 <= m < j ==> s@[i + m] == pat@[m],
        decreases pat.len() - j,
    {
        if s[i + j] != pat[j] {
            assert(s@.subrange(i as int, i + pat.len())[j as int] != pat@[j as int]);
            return false;
        }
        j = j + 1;
    }
    assert(s@.subrange(i as int, i + pat.len()) =~= pat@);
    true
}

/// Whether `pat` occurs in `s`, with the empty pattern occurring everywhere.
pub fn contains_chars(s: &Vec<char>, pat: &Vec<char>) -> (r: bool)
    ensures
        r == contains_seq(s@, pat@),
{
    let mut i: usize = 0;
    while i < s.len()
        invariant
            i <= s.len(),
            forall|m: int| 0 <= m < i ==> !occurs_at(s@, m, pat@),
        decreases s.len() - i,
    {
        if matches_at(s, i, pat) {
            return true;
        }
        i = i + 1;
    }
    if matches_at(s, i, pat) {
        return true;
    }
    assert forall|m: int| !occurs_at(s@, m, pat@) by {
        if 0 <= m <= i {
        }
    }
    false
}

/// Whether two strings are equal.
pub fn str_eq(a: &str, b: &str) -> (r: bool)
    ensures
        r == (a@ == b@),
{
    let x = chars_of(a);
    let y = chars_of(b);
    chars_eq(&x, &y)
}

/// Whether two character sequences are equal.
pub fn chars_eq(x: &Vec<char>, y: &Vec<char>) -> (r: bool)
    ensures
        r == (x@ == y@),
{
    if x.len() != y.len() {
        assert(x@.len() != y@.len());
        return false;
    }
    let mut i: usize = 0;
    while i < x.len()
        invariant
            i <= x@.len() == y@.len(),
            forall|j: int| 0 <= j < i ==> x@[j] == y@[j],
        decreases x.len() - i,
    {
        if x[i] != y[i] {
            assert(x@[i as int] != y@[i as int]);
            return false;
        }
        i = i + 1;
    }
    assert(x@ =~= y@);
    true
}

/// Whether `pat` occurs in `s` (`str::contains` with a `&str` pattern).
pub fn str_contains(s: &str, pat: &str) -> (r: bool)
    ensures
        r == contains_seq(s@, pat@),
{
    let a = chars_of(s);
    let b = chars_of(pat);
    contains_chars(&a, &b)
}

/// The result of `str::replace(s, pat, val)` for a non-empty `pat`: the
/// leftmost non-overlapping occurrences of `pat`, scanning from the start,
/// are each replaced by `val`.
pub open spec fn replace_all(s: Seq<char>, pat: Seq<char>, val: Seq<char>) -> Seq<char>
    recommends
        pat.len() > 0,
    decreases s.len(),
{
    if s.len() == 0 || pat.len() == 0 {
        s
    } else if occurs_at(s, 0, pat) {
        val + replace_all(s.skip(pat.len() as int), pat, val)
    } else {
        seq![s[0]] + replace_all(s.skip(1), pat, val)
    }
}

/// Replaces every leftmost non-overlapping occurrence of the non-empty
/// pattern `pat` in `s` by `val`.
pub fn replace_chars(s: &Vec<char>, pat: &Vec<char>, val: &Vec<char>) -> (r: Vec<char>)
    requires
        pat.len() > 0,
    ensures
        r@ == replace_all(s@, pat@, val@),
{
    let mut out: Vec<char> = Vec::new();
    let mut i: usize = 0;
    assert(s@.skip(0) =~= s@);
    while i < s.len()
        invariant
            i <= s.len(),
            pat.len() > 0,
            out@ + replace_all(s@.skip(i as int), pat@, val@) == replace_all(s@, pat@, val@),
        decreases s.len() - i,
    {
        let ghost rest = s@.skip(i as int);
        if matches_at(s, i, pat) {
            assert(rest.subrange(0, pat.len() as int) =~= s@.subrange(i as int, i + pat.len()));
            assert(occurs_at(rest, 0, pat@));
            assert(rest.skip(pat.len() as int) =~= s@.skip(i + pat.len()));
            let mut j: usize = 0;
            let ghost out0 = out@;
            while j < val.len()
                invariant
                    j <= val.len(),
                    out@ == out0 + val@.take(j as int),
                decreases val.len() - j,
            {
                out.push(val[j]);
                j = j + 1;
                assert(out@ =~= out0 + val@.take(j as int));
            }
            assert(val@.take(val.len() as int) =~= val@);
            assert(out0 + (val@ + replace_all(rest.skip(pat.len() as int), pat@, val@)) =~= out@
                + replace_all(rest.skip(pat.len() as int), pat@, val@));
            i = i + pat.len();
        } else {
            proof {
                if occurs_at(rest, 0, pat@) {
                    assert(rest.subrange(0, pat.len() as int) =~= s@.subrange(
                        i as int,
                        i + pat.len(),
                    ));
                }
            }
            assert(rest.skip(1) =~= s@.skip(i + 1));
            assert(rest[0] == s@[i as int]);
            let ghost out0 = out@;
            out.push(s[i]);
            assert(out0 + (seq![s@[i as int]] + replace_all(rest.skip(1), pat@, val@)) =~= out@
                + replace_all(rest.skip(1), pat@, val@));
            i = i + 1;
        }
    }
    assert(s@.skip(i as int) =~= Seq::<char>::empty());
    assert(out@ + Seq::<char>::empty() =~= out@);
    out
}

// ---------------------------------------------------------------------------
// Decimal rendering of integers
// ---------------------------------------------------------------------------

/// The character of a decimal digit.
pub open spec fn digit_char(d: nat) -> char
    recommends
        d < 10,
{
    (48 + d) as char
}

/// The decimal representation of `n`, without leading zeros.
pub open spec fn decimal_spec(n: nat) -> Seq<char>
    decreases n,
{
    if n < 10 {
        seq![digit_char(n)]
    } else {
        decimal_spec(n / 10).push(digit_char(n % 10))
    }
}

/// The decimal representation of `n` (`n.to_string()`).
pub fn decimal(n: u64) -> (r: String)
    ensures
        r@ == decimal_spec(n as nat),
{
    let mut acc: Vec<char> = Vec::new();
    let mut q = n;
    while q >= 10
        invariant
            decimal_spec(n as nat) == decimal_spec(q as nat) + acc@,
        decreases q,
    {
        let d = (q % 10) as u8;
        let c = (48u8 + d) as char;
        assert(c == digit_char((q % 10) as nat));
        let ghost old_acc = acc@;
        acc.insert(0, c);
        assert(decimal_spec(q as nat) == decimal_spec((q / 10) as nat).push(c));
        assert(decimal_spec((q / 10) as nat).push(c) + old_acc =~= decimal_spec((q / 10) as nat)
            + acc@);
        q = q / 10;
    }
    let c = (48u8 + (q as u8)) as char;
    assert(c == digit_char(q as nat));
    acc.insert(0, c);
    assert(decimal_spec(q as nat) =~= seq![c]);
    string_from_chars(&acc)
}


/// A decimal representation has at least one digit, and at least two for
/// numbers from 10 on.
pub proof fn lemma_decimal_len(n: nat)
    ensures
        decimal_spec(n).len() >= 1,
        n >= 10 ==> decimal_spec(n).len() >= 2,
    decreases n,
{
    if n >= 10 {
        lemma_decimal_len(n / 10);
    }
}

/// The character of a digit tells the digit.
pub proof fn lemma_digit_char_injective(a: nat, b: nat)
    requires
        a < 10,
        b < 10,
        digit_char(a) == digit_char(b),
    ensures
        a == b,
{
    assert(digit_char(a) as u32 == 48 + a);
    assert(digit_char(b) as u32 == 48 + b);
}

/// Different numbers have different decimal representations.
pub proof fn lemma_decimal_injective(a: nat, b: nat)
    requires
        a != b,
    ensures
        decimal_spec(a) != decimal_spec(b),
    decreases a,
{
    lemma_decimal_len(a);
    lemma_decimal_len(b);
    if decimal_spec(a) == decimal_spec(b) {
        if a < 10 && b < 10 {
            assert(decimal_spec(a)[0] == digit_char(a));
            assert(decimal_spec(b)[0] == digit_char(b));
            lemma_digit_char_injective(a, b);
        } else if a >= 10 && b >= 10 {
            let da = decimal_spec(a);
            assert(da.last() == digit_char(a % 10));
            assert(decimal_spec(b).last() == digit_char(b % 10));
            lemma_digit_char_injective(a % 10, b % 10);
            assert(da.drop_last() =~= decimal_spec(a / 10));
            assert(decimal_spec(b).drop_last() =~= decimal_spec(b / 10));
            if a / 10 != b / 10 {
                lemma_decimal_injective(a / 10, b / 10);
            }
        }
    }
}


/// Replacing a pattern that does not occur changes nothing.
pub proof fn lemma_replace_absent(s: Seq<char>, pat: Seq<char>, val: Seq<char>)
    requires
        !contains_seq(s, pat),
    ensures
        replace_all(s, pat, val) == s,
    decreases s.len(),
{
    if s.len() > 0 && pat.len() > 0 {
        assert(!occurs_at(s, 0, pat));
        assert forall|i: int| !occurs_at(s.skip(1), i, pat) by {
            if occurs_at(s.skip(1), i, pat) {
                assert(s.subrange(i + 1, i + 1 + pat.len()) =~= s.skip(1).subrange(i, i + pat.len()));
                assert(occurs_at(s, i + 1, pat));
            }
        }
        lemma_replace_absent(s.skip(1), pat, val);
        assert(seq![s[0]] + s.skip(1) =~= s);
    }
}
}
