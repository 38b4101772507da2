//! Text-level building blocks of the persistence format: whitespace,
//! escaped string literals and decimal numbers, with executable parsers
//! verified against specification-level ones, and lemmas showing that
//! parsing undoes emission.

use vstd::prelude::*;

use crate::text::{dec_val, is_digit_char, string_from_chars};
use vstd::string::StrSliceExecFns;

verus! {

/// The characters the parsers treat as insignificant whitespace.
pub open spec fn is_ws(c: char) -> bool {
    c == ' ' || c == '\n' || c == '\t' || c == '\r'
}

/// A sequence of nothing but whitespace.
pub open spec fn ws_only(s: Seq<char>) -> bool {
    forall|i: int| 0 <= i < s.len() ==> is_ws(#[trigger] s[i])
}

/// The input with its leading whitespace removed.
pub open spec fn skip_ws(s: Seq<char>) -> Seq<char>
    decreases s.len(),
{
    if s.len() > 0 && is_ws(s[0]) {
        skip_ws(s.drop_first())
    } else {
        s
    }
}

/// The input from position `i` on.
pub open spec fn suffix(s: Seq<char>, i: int) -> Seq<char> {
    s.subrange(i, s.len() as int)
}

/// Skipping whitespace ignores a whitespace prefix.
pub proof fn lemma_skip_ws_concat(w: Seq<char>, t: Seq<char>)
    requires
        ws_only(w),
    ensures
        skip_ws(w + t) == skip_ws(t),
    decreases w.len(),
{
    if w.len() == 0 {
        assert(w + t =~= t);
    } else {
        assert((w + t)[0] == w[0]);
        assert((w + t).drop_first() =~= w.drop_first() + t);
        lemma_skip_ws_concat(w.drop_first(), t);
    }
}

/// Expects a fixed token after optional whitespace; yields the rest.
pub open spec fn parse_lit(s: Seq<char>, tok: Seq<char>) -> Option<Seq<char>> {
    let t = skip_ws(s);
    if tok.len() <= t.len() && t.subrange(0, tok.len() as int) == tok {
        Some(t.skip(tok.len() as int))
    } else {
        None
    }
}

/// A token parses off the front of what emitted it.
pub proof fn lemma_parse_lit_at(w: Seq<char>, tok: Seq<char>, rest: Seq<char>)
    requires
        ws_only(w),
        tok.len() > 0,
        !is_ws(tok[0]),
    ensures
        parse_lit(w + tok + rest, tok) == Some(rest),
{
    assert(w + tok + rest =~= w + (tok + rest));
    lemma_skip_ws_concat(w, tok + rest);
    assert((tok + rest)[0] == tok[0]);
    assert(skip_ws(tok + rest) == tok + rest);
    assert((tok + rest).subrange(0, tok.len() as int) =~= tok);
    assert((tok + rest).skip(tok.len() as int) =~= rest);
}

/// What an escape character stands for; anything else is malformed.
pub open spec fn unesc_char(c: char) -> Option<char> {
    if c == '"' {
        Some('"')
    } else if c == '\\' {
        Some('\\')
    } else if c == 'n' {
        Some('\n')
    } else {
        None
    }
}

/// The escape sequence a character is written as inside a string literal.
pub open spec fn esc_char(c: char) -> Seq<char> {
    if c == '"' {
        seq!['\\', '"']
    } else if c == '\\' {
        seq!['\\', '\\']
    } else if c == '\n' {
        seq!['\\', 'n']
    } else {
        seq![c]
    }
}

/// A whole string content, escaped.
pub open spec fn esc_str(s: Seq<char>) -> Seq<char>
    decreases s.len(),
{
    if s.len() == 0 {
        Seq::empty()
    } else {
        esc_char(s[0]) + esc_str(s.drop_first())
    }
}

/// A full string literal: quotes around the escaped content.
pub open spec fn quoted(s: Seq<char>) -> Seq<char> {
    seq!['"'] + esc_str(s) + seq!['"']
}

/// The content of a string literal after its opening quote, unescaped,
/// and the rest after the closing quote.
pub open spec fn parse_str_body(s: Seq<char>) -> Option<(Seq<char>, Seq<char>)>
    decreases s.len(),
{
    if s.len() == 0 {
        None
    } else if s[0] == '"' {
        Some((Seq::empty(), s.drop_first()))
    } else if s[0] == '\\' {
        if s.len() >= 2 {
            match unesc_char(s[1]) {
                Some(c) => match parse_str_body(s.skip(2)) {
                    Some(p) => Some((seq![c] + p.0, p.1)),
                    None => None,
                },
                None => None,
            }
        } else {
            None
        }
    } else {
        match parse_str_body(s.drop_first()) {
            Some(p) => Some((seq![s[0]] + p.0, p.1)),
            None => None,
        }
    }
}

/// A string literal after optional whitespace.
pub open spec fn parse_string(s: Seq<char>) -> Option<(Seq<char>, Seq<char>)> {
    let t = skip_ws(s);
    if t.len() > 0 && t[0] == '"' {
        parse_str_body(t.drop_first())
    } else {
        None
    }
}

/// Unescaping undoes escaping, up to the closing quote.
proof fn lemma_parse_str_body_at(v: Seq<char>, rest: Seq<char>)
    ensures
        parse_str_body(esc_str(v) + seq!['"'] + rest) == Some((v, rest)),
    decreases v.len(),
{
    let s = esc_str(v) + seq!['"'] + rest;
    if v.len() == 0 {
        assert(s =~= seq!['"'] + rest);
        assert(s[0] == '"');
        assert(s.drop_first() =~= rest);
    } else {
        let c = v[0];
        let v1 = v.drop_first();
        lemma_parse_str_body_at(v1, rest);
        let s1 = esc_str(v1) + seq!['"'] + rest;
        assert(esc_str(v) == esc_char(c) + esc_str(v1));
        if c == '"' || c == '\\' || c == '\n' {
            assert(s =~= esc_char(c) + s1);
            assert(s[0] == '\\');
            assert(s.len() >= 2);
            assert(s[1] == esc_char(c)[1]);
            assert(unesc_char(s[1]) == Some(c));
            assert(s.skip(2) =~= s1);
            assert(seq![c] + v1 =~= v);
        } else {
            assert(s =~= seq![c] + s1);
            assert(s[0] == c);
            assert(s.drop_first() =~= s1);
            assert(seq![c] + v1 =~= v);
        }
    }
}

/// A quoted string parses off the front of what emitted it.
pub proof fn lemma_parse_string_at(w: Seq<char>, v: Seq<char>, rest: Seq<char>)
    requires
        ws_only(w),
    ensures
        parse_string(w + quoted(v) + rest) == Some((v, rest)),
{
    let s = w + quoted(v) + rest;
    assert(s =~= w + (quoted(v) + rest));
    lemma_skip_ws_concat(w, quoted(v) + rest);
    assert((quoted(v) + rest)[0] == '"');
    assert(skip_ws(quoted(v) + rest) == quoted(v) + rest);
    assert((quoted(v) + rest).drop_first() =~= esc_str(v) + seq!['"'] + rest);
    lemma_parse_str_body_at(v, rest);
}

/// The longest digit prefix and what follows it.
pub open spec fn parse_digits(s: Seq<char>) -> (Seq<char>, Seq<char>)
    decreases s.len(),
{
    if s.len() > 0 && is_digit_char(s[0]) {
        let p = parse_digits(s.drop_first());
        (seq![s[0]] + p.0, p.1)
    } else {
        (Seq::empty(), s)
    }
}

/// A decimal `u64` after optional whitespace; too large or missing
/// digits are malformed.
pub open spec fn parse_u64(s: Seq<char>) -> Option<(u64, Seq<char>)> {
    let t = skip_ws(s);
    let p = parse_digits(t);
    if p.0.len() == 0 || dec_val(p.0) > 0xffff_ffff_ffff_ffff {
        None
    } else {
        Some((dec_val(p.0) as u64, p.1))
    }
}

/// A digit run parses off the front of what emitted it, when what
/// follows does not begin with a digit.
proof fn lemma_parse_digits_at(d: Seq<char>, rest: Seq<char>)
    requires
        forall|i: int| 0 <= i < d.len() ==> is_digit_char(#[trigger] d[i]),
        rest.len() > 0 ==> !is_digit_char(rest[0]),
    ensures
        parse_digits(d + rest) == (d, rest),
    decreases d.len(),
{
    if d.len() == 0 {
        assert(d + rest =~= rest);
    } else {
        assert((d + rest)[0] == d[0]);
        assert((d + rest).drop_first() =~= d.drop_first() + rest);
        lemma_parse_digits_at(d.drop_first(), rest);
        assert(seq![d[0]] + d.drop_first() =~= d);
    }
}

/// A decimal number parses off the front of what emitted it.
pub proof fn lemma_parse_u64_at(w: Seq<char>, n: u64, rest: Seq<char>)
    requires
        ws_only(w),
        rest.len() > 0 ==> !is_digit_char(rest[0]),
    ensures
        parse_u64(w + crate::text::dec_str(n as int) + rest) == Some((n, rest)),
{
    let d = crate::text::dec_str(n as int);
    crate::text::lemma_dec_str_digits(n as int);
    crate::text::lemma_dec_val_of_dec_str(n as int);
    let s = w + d + rest;
    assert(s =~= w + (d + rest));
    lemma_skip_ws_concat(w, d + rest);
    assert((d + rest)[0] == d[0]);
    assert(!is_ws(d[0]));
    assert(skip_ws(d + rest) == d + rest);
    lemma_parse_digits_at(d, rest);
}

// ------------------------------------------------------------------
// Every successful parse consumes input.
// ------------------------------------------------------------------

/// Skipping whitespace never lengthens the input.
pub proof fn lemma_skip_ws_len(s: Seq<char>)
    ensures
        skip_ws(s).len() <= s.len(),
    decreases s.len(),
{
    if s.len() > 0 && is_ws(s[0]) {
        lemma_skip_ws_len(s.drop_first());
    }
}

/// A token parse consumes at least the token.
pub proof fn lemma_lit_shrinks(s: Seq<char>, tok: Seq<char>, r: Seq<char>)
    requires
        parse_lit(s, tok) == Some(r),
    ensures
        r.len() + tok.len() <= s.len(),
{
    lemma_skip_ws_len(s);
}

/// A string body parse consumes at least the closing quote.
proof fn lemma_str_body_shrinks(s: Seq<char>, v: Seq<char>, r: Seq<char>)
    requires
        parse_str_body(s) == Some((v, r)),
    ensures
        r.len() < s.len(),
    decreases s.len(),
{
    if s.len() == 0 {
    } else if s[0] == '"' {
    } else if s[0] == '\\' {
        match parse_str_body(s.skip(2)) {
            Some(p) => {
                lemma_str_body_shrinks(s.skip(2), p.0, p.1);
            },
            None => {},
        }
    } else {
        match parse_str_body(s.drop_first()) {
            Some(p) => {
                lemma_str_body_shrinks(s.drop_first(), p.0, p.1);
            },
            None => {},
        }
    }
}

/// A string parse consumes at least its two quotes.
pub proof fn lemma_string_shrinks(s: Seq<char>, v: Seq<char>, r: Seq<char>)
    requires
        parse_string(s) == Some((v, r)),
    ensures
        r.len() < s.len(),
{
    lemma_skip_ws_len(s);
    let t = skip_ws(s);
    lemma_str_body_shrinks(t.drop_first(), v, r);
}

/// The digit prefix and the rest partition the input.
proof fn lemma_digits_len(s: Seq<char>)
    ensures
        parse_digits(s).0.len() + parse_digits(s).1.len() == s.len(),
    decreases s.len(),
{
    if s.len() > 0 && is_digit_char(s[0]) {
        lemma_digits_len(s.drop_first());
    }
}

/// A number parse consumes at least one digit.
pub proof fn lemma_u64_shrinks(s: Seq<char>, n: u64, r: Seq<char>)
    requires
        parse_u64(s) == Some((n, r)),
    ensures
        r.len() < s.len(),
{
    lemma_skip_ws_len(s);
    lemma_digits_len(skip_ws(s));
}

// ------------------------------------------------------------------
// Executable parsers, each verified against its specification parser.
// ------------------------------------------------------------------

/// Skips whitespace; the remaining input is `skip_ws` of the old one.
pub fn p_skip_ws(s: &Vec<char>, i: usize) -> (j: usize)
    requires
        i <= s@.len(),
    ensures
        i <= j <= s@.len(),
        suffix(s@, j as int) == skip_ws(suffix(s@, i as int)),
{
    let mut j = i;
    while j < s.len() && (s[j] == ' ' || s[j] == '\n' || s[j] == '\t' || s[j] == '\r')
        invariant
            i <= j <= s@.len(),
            skip_ws(suffix(s@, j as int)) == skip_ws(suffix(s@, i as int)),
        decreases s@.len() - j,
    {
        proof {
            assert(suffix(s@, j as int).drop_first() =~= suffix(s@, j + 1));
        }
        j += 1;
    }
    proof {
        let t = suffix(s@, j as int);
        assert(t.len() == 0 || !is_ws(t[0]));
    }
    j
}

/// Expects the fixed ASCII token `tok` after optional whitespace.
pub fn p_lit(s: &Vec<char>, i: usize, tok: &str) -> (r: Option<usize>)
    requires
        i <= s@.len(),
        tok@.len() > 0,
    ensures
        match r {
            Some(j) => i < j <= s@.len() && parse_lit(suffix(s@, i as int), tok@) == Some(
                suffix(s@, j as int),
            ),
            None => parse_lit(suffix(s@, i as int), tok@) is None,
        },
{
    let j = p_skip_ws(s, i);
    let n = tok.unicode_len();
    let slen = s.len();
    if n > slen - j {
        proof {
            let t = skip_ws(suffix(s@, i as int));
            assert(tok@.len() > t.len());
        }
        return None;
    }
    let mut k: usize = 0;
    while k < n
        invariant
            0 <= k <= n,
            n == tok@.len(),
            slen == s@.len(),
            j + n <= slen,
            i <= j <= s@.len(),
            suffix(s@, j as int) == skip_ws(suffix(s@, i as int)),
            forall|q: int| 0 <= q < k ==> s@[j + q] == tok@[q],
        decreases n - k,
    {
        proof {
            assert(j + k < s@.len());
        }
        if s[j + k] != tok.get_char(k) {
            proof {
                let t = suffix(s@, j as int);
                assert(t.subrange(0, tok@.len() as int)[k as int] != tok@[k as int]);
            }
            return None;
        }
        k += 1;
    }
    proof {
        let t = suffix(s@, j as int);
        assert(t.subrange(0, tok@.len() as int) =~= tok@);
        assert(t.skip(tok@.len() as int) =~= suffix(s@, j + n));
    }
    Some(j + n)
}

/// Parses a string literal after optional whitespace, unescaping it.
pub fn p_string(s: &Vec<char>, i: usize) -> (r: Option<(String, usize)>)
    requires
        i <= s@.len(),
    ensures
        match r {
            Some(p) => i < p.1 <= s@.len() && parse_string(suffix(s@, i as int)) == Some(
                (p.0@, suffix(s@, p.1 as int)),
            ),
            None => parse_string(suffix(s@, i as int)) is None,
        },
{
    let j = p_skip_ws(s, i);
    if j >= s.len() || s[j] != '"' {
        proof {
            let t = skip_ws(suffix(s@, i as int));
            assert(t.len() > 0 ==> t[0] != '"');
        }
        return None;
    }
    proof {
        assert(suffix(s@, j as int)[0] == '"');
        assert(suffix(s@, j as int).drop_first() =~= suffix(s@, j + 1));
        assert(parse_string(suffix(s@, i as int)) == parse_str_body(suffix(s@, j + 1)));
    }
    let mut buf: Vec<char> = Vec::new();
    let mut k = j + 1;
    loop
        invariant
            i <= j,
            j + 1 <= k <= s@.len(),
            parse_str_body(suffix(s@, j + 1)) == match parse_str_body(suffix(s@, k as int)) {
                Some(p) => Some((buf@ + p.0, p.1)),
                None => None::<(Seq<char>, Seq<char>)>,
            },
            parse_string(suffix(s@, i as int)) == parse_str_body(suffix(s@, j + 1)),
        decreases s@.len() - k,
    {
        if k >= s.len() {
            proof {
                assert(suffix(s@, k as int).len() == 0);
            }
            return None;
        }
        let c = s[k];
        proof {
            assert(suffix(s@, k as int)[0] == c);
        }
        if c == '"' {
            proof {
                assert(suffix(s@, k as int).drop_first() =~= suffix(s@, k + 1));
                assert(buf@ + Seq::<char>::empty() =~= buf@);
            }
            let out = string_from_chars(&buf);
            return Some((out, k + 1));
        } else if c == '\\' {
            if k + 1 >= s.len() {
                proof {
                    assert(suffix(s@, k as int).len() < 2);
                }
                return None;
            }
            let d = s[k + 1];
            proof {
                assert(suffix(s@, k as int)[1] == d);
                assert(suffix(s@, k as int).skip(2) =~= suffix(s@, k + 2));
            }
            let u: char;
            if d == '"' {
                u = '"';
            } else if d == '\\' {
                u = '\\';
            } else if d == 'n' {
                u = '\n';
            } else {
                proof {
                    assert(unesc_char(d) is None);
                }
                return None;
            }
            let ghost old_buf = buf@;
            buf.push(u);
            proof {
                assert(buf@ =~= old_buf + seq![u]);
                match parse_str_body(suffix(s@, k + 2)) {
                    Some(p) => {
                        assert(old_buf + (seq![u] + p.0) =~= buf@ + p.0);
                    },
                    None => {},
                }
            }
            k += 2;
        } else {
            proof {
                assert(suffix(s@, k as int).drop_first() =~= suffix(s@, k + 1));
            }
            let ghost old_buf = buf@;
            buf.push(c);
            proof {
                assert(buf@ =~= old_buf + seq![c]);
                match parse_str_body(suffix(s@, k + 1)) {
                    Some(p) => {
                        assert(old_buf + (seq![c] + p.0) =~= buf@ + p.0);
                    },
                    None => {},
                }
            }
            k += 1;
        }
    }
}

/// Parses a decimal `u64` after optional whitespace.
pub fn p_u64(s: &Vec<char>, i: usize) -> (r: Option<(u64, usize)>)
    requires
        i <= s@.len(),
    ensures
        match r {
            Some(p) => i < p.1 <= s@.len() && parse_u64(suffix(s@, i as int)) == Some(
                (p.0, suffix(s@, p.1 as int)),
            ),
            None => parse_u64(suffix(s@, i as int)) is None,
        },
{
    let j = p_skip_ws(s, i);
    let mut k = j;
    let mut val: u64 = 0;
    let mut too_big = false;
    let ghost t = suffix(s@, j as int);
    while k < s.len() && s[k] >= '0' && s[k] <= '9'
        invariant
            j <= k <= s@.len(),
            t == suffix(s@, j as int),
            parse_digits(t) == {
                let p = parse_digits(suffix(s@, k as int));
                (t.subrange(0, (k - j) as int) + p.0, p.1)
            },
            forall|q: int| 0 <= q < k - j ==> is_digit_char(#[trigger] t[q]),
            !too_big ==> val == dec_val(t.subrange(0, (k - j) as int)),
            too_big ==> dec_val(t.subrange(0, (k - j) as int)) > 0xffff_ffff_ffff_ffff,
        decreases s@.len() - k,
    {
        let c = s[k];
        proof {
            assert(suffix(s@, k as int)[0] == c);
            assert(suffix(s@, k as int).drop_first() =~= suffix(s@, k + 1));
            assert(t.subrange(0, (k - j) as int).push(c) =~= t.subrange(0, (k + 1 - j) as int));
            assert(t.subrange(0, (k + 1 - j) as int).drop_last() =~= t.subrange(0, (k - j) as int));
            assert(t.subrange(0, (k - j) as int) + (seq![c] + parse_digits(suffix(s@, k + 1)).0)
                =~= t.subrange(0, (k + 1 - j) as int) + parse_digits(suffix(s@, k + 1)).0);
        }
        let d = (c as u32) - ('0' as u32);
        proof {
            assert(crate::text::digit_val(c) == d);
        }
        if too_big || val > 0x1999_9999_9999_9999 || (val == 0x1999_9999_9999_9999 && d > 5) {
            proof {
                let pv = dec_val(t.subrange(0, (k - j) as int));
                assert(dec_val(t.subrange(0, (k + 1 - j) as int)) == pv * 10 + d);
            }
            too_big = true;
        } else {
            val = val * 10 + (d as u64);
        }
        k += 1;
    }
    proof {
        let rem = suffix(s@, k as int);
        assert(rem.len() > 0 ==> !is_digit_char(rem[0]));
        assert(parse_digits(rem) == (Seq::<char>::empty(), rem));
        assert(t.subrange(0, (k - j) as int) + Seq::<char>::empty() =~= t.subrange(
            0,
            (k - j) as int,
        ));
    }
    if k == j || too_big {
        return None;
    }
    Some((val, k))
}

// ------------------------------------------------------------------
// Emission helpers shared by the persistence codecs.
// ------------------------------------------------------------------

/// Escaping one more character appends its escape sequence.
pub proof fn lemma_esc_snoc(s: Seq<char>, c: char)
    ensures
        esc_str(s.push(c)) == esc_str(s) + esc_char(c),
    decreases s.len(),
{
    if s.len() == 0 {
        assert(s.push(c)[0] == c);
        assert(s.push(c).drop_first() =~= s);
        assert(esc_str(s.push(c)) =~= esc_str(s) + esc_char(c));
    } else {
        assert(s.push(c)[0] == s[0]);
        assert(s.push(c).drop_first() =~= s.drop_first().push(c));
        lemma_esc_snoc(s.drop_first(), c);
        assert(esc_str(s.push(c)) =~= esc_str(s) + esc_char(c));
    }
}

/// Appends the characters of a string slice.
pub(crate) fn push_str_chars(out: &mut Vec<char>, s: &str)
    ensures
        final(out)@ == old(out)@ + s@,
{
    let n = s.unicode_len();
    let mut i: usize = 0;
    while i < n
        invariant
            i <= n,
            n == s@.len(),
            out@ == old(out)@ + s@.subrange(0, i as int),
        decreases n - i,
    {
        out.push(s.get_char(i));
        proof {
            assert(s@.subrange(0, i + 1) =~= s@.subrange(0, i as int).push(s@[i as int]));
            assert(out@ =~= old(out)@ + s@.subrange(0, i + 1));
        }
        i += 1;
    }
    proof {
        assert(s@.subrange(0, n as int) =~= s@);
    }
}

/// Appends a quoted, escaped string literal.
pub(crate) fn push_quoted(out: &mut Vec<char>, s: &str)
    ensures
        final(out)@ == old(out)@ + quoted(s@),
{
    let ghost base = old(out)@;
    out.push('"');
    let n = s.unicode_len();
    let mut i: usize = 0;
    proof {
        assert(esc_str(s@.subrange(0, 0)) =~= Seq::<char>::empty());
        assert(out@ =~= base + seq!['"'] + esc_str(s@.subrange(0, 0)));
    }
    while i < n
        invariant
            i <= n,
            n == s@.len(),
            out@ == base + seq!['"'] + esc_str(s@.subrange(0, i as int)),
        decreases n - i,
    {
        let c = s.get_char(i);
        proof {
            lemma_esc_snoc(s@.subrange(0, i as int), c);
            assert(s@.subrange(0, i as int).push(c) =~= s@.subrange(0, i + 1));
        }
        if c == '"' {
            out.push('\\');
            out.push('"');
        } else if c == '\\' {
            out.push('\\');
            out.push('\\');
        } else if c == '\n' {
            out.push('\\');
            out.push('n');
        } else {
            out.push(c);
        }
        proof {
            assert(out@ =~= base + seq!['"'] + esc_str(s@.subrange(0, i + 1)));
        }
        i += 1;
    }
    out.push('"');
    proof {
        assert(s@.subrange(0, n as int) =~= s@);
        assert(out@ =~= base + quoted(s@));
    }
}

} // verus!
