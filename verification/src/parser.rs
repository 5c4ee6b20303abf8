//! XML text → AST: the textual preprocessors that make the `xml!`
//! dialect acceptable to a strict XML parser, the brace-expression
//! decoder, and the line table used for diagnostics.
use vstd::prelude::*;
use vstd::string::StringSliceAdditionalSpecFns;

use crate::strings::{chars_of, replace_all, replace_chars, string_of, trim, trim_chars};

verus! {

pub open spec fn is_ascii_alnum(c: char) -> bool {
    ('a' <= c <= 'z') || ('A' <= c <= 'Z') || ('0' <= c <= '9')
}

pub open spec fn is_ascii_digit(c: char) -> bool {
    '0' <= c <= '9'
}

/// Output of the `let:` rewriter from position `i` onward, outside an
/// identifier that follows a rewritten `let:`.
pub open spec fn let_rw(s: Seq<char>, i: int) -> Seq<char>
    decreases s.len() - i, 0int,
{
    if i < 0 || i >= s.len() {
        seq![]
    } else if i + 3 < s.len() && s[i] == 'l' && s[i + 1] == 'e' && s[i + 2] == 't' && s[i + 3]
        == ':' {
        seq!['l', 'e', 't', '_'] + let_rw_ident(s, i + 4)
    } else {
        seq![s[i]] + let_rw(s, i + 1)
    }
}

/// Output of the `let:` rewriter while copying the identifier that
/// follows a rewritten `let:`.
pub open spec fn let_rw_ident(s: Seq<char>, i: int) -> Seq<char>
    decreases s.len() - i, 1int,
{
    if 0 <= i < s.len() && (is_ascii_alnum(s[i]) || s[i] == '_') {
        seq![s[i]] + let_rw_ident(s, i + 1)
    } else {
        let_rw(s, i)
    }
}

pub open spec fn at_bind() -> Seq<char> {
    seq!['@', 'b', 'i', 'n', 'd']
}

pub open spec fn bind_word() -> Seq<char> {
    seq!['b', 'i', 'n', 'd']
}

/// Convert `@bind` to `bind` so the attribute name is XML-legal.
pub fn rewrite_at_bind(input: &str) -> (r: String)
    ensures
        r@ == replace_all(input@, at_bind(), bind_word()),
{
    let s = chars_of(input);
    let pat = ['@', 'b', 'i', 'n', 'd'];
    let rep = ['b', 'i', 'n', 'd'];
    assert(pat@ == at_bind());
    assert(rep@ == bind_word());
    let out = replace_chars(&s, &pat, &rep);
    string_of(&out)
}

fn is_ascii_alnum_char(c: char) -> (b: bool)
    ensures
        b == is_ascii_alnum(c),
{
    ('a' <= c && c <= 'z') || ('A' <= c && c <= 'Z') || ('0' <= c && c <= '9')
}

/// Convert `let:item` / `let:index={i}` into `let_item` /
/// `let_index={i}`: every `let:` becomes `let_`, and the identifier
/// that follows it is copied unchanged.
pub fn rewrite_let_attrs(input: &str) -> (r: String)
    ensures
        r@ == let_rw(input@, 0),
{
    let s = chars_of(input);
    let n = s.len();
    let mut out: Vec<char> = Vec::new();
    let mut i: usize = 0;
    let mut in_ident = false;
    loop
        invariant
            n == s@.len(),
            i <= n,
            out@ + (if in_ident {
                let_rw_ident(s@, i as int)
            } else {
                let_rw(s@, i as int)
            }) == let_rw(s@, 0),
        ensures
            out@ == let_rw(s@, 0),
        decreases n - i, (if in_ident { 1int } else { 0int }),
    {
        if in_ident {
            if i < n && (is_ascii_alnum_char(s[i]) || s[i] == '_') {
                out.push(s[i]);
                i += 1;
            } else {
                in_ident = false;
            }
        } else {
            if i >= n {
                break;
            }
            if n > 3 && i < n - 3 && s[i] == 'l' && s[i + 1] == 'e' && s[i + 2] == 't' && s[i + 3]
                == ':' {
                out.push('l');
                out.push('e');
                out.push('t');
                out.push('_');
                i += 4;
                in_ident = true;
            } else {
                out.push(s[i]);
                i += 1;
            }
        }
    }
    string_of(&out)
}

/// Drop one layer of matching single or double quotes.
pub open spec fn unquote(t: Seq<char>) -> Seq<char> {
    if t.len() >= 2 && ((t[0] == '"' && t.last() == '"') || (t[0] == '\'' && t.last() == '\'')) {
        t.subrange(1, t.len() - 1)
    } else {
        t
    }
}

/// Undo the entity escaping that the normaliser applies inside brace
/// expressions (`&amp;` last, so that `&amp;lt;` yields `&lt;`).
pub open spec fn decode_entities(x: Seq<char>) -> Seq<char> {
    let a = replace_all(x, seq!['&', 'q', 'u', 'o', 't', ';'], seq!['"']);
    let b = replace_all(a, seq!['&', 'a', 'p', 'o', 's', ';'], seq!['\'']);
    let c = replace_all(b, seq!['&', 'l', 't', ';'], seq!['<']);
    let d = replace_all(c, seq!['&', 'g', 't', ';'], seq!['>']);
    replace_all(d, seq!['&', 'a', 'm', 'p', ';'], seq!['&'])
}

/// The Rust expression held by an attribute value written as `{...}`
/// (possibly quoted), or `None` for a plain literal.
pub open spec fn brace_body(s: Seq<char>) -> Option<Seq<char>> {
    let u = unquote(trim(s));
    if u.len() >= 2 && u[0] == '{' && u.last() == '}' {
        Some(decode_entities(u.subrange(1, u.len() - 1)))
    } else {
        None
    }
}

/// Detect whether `s` is a brace expression (`{...}`), with or without
/// surrounding quotes. Returns the inner expression (entity escapes
/// decoded) if it is, together with the original string.
pub fn strip_brace_expression(s: &str) -> (r: (Option<String>, String))
    ensures
        r.1@ == s@,
        r.0 is Some <==> brace_body(s@) is Some,
        r.0 matches Some(e) ==> e@ == brace_body(s@)->0,
{
    let all = chars_of(s);
    let t = trim_chars(&all);
    let tl = t.len();
    let mut u: Vec<char> = Vec::new();
    if tl >= 2 && ((t[0] == '"' && t[tl - 1] == '"') || (t[0] == '\'' && t[tl - 1] == '\'')) {
        let mut k: usize = 1;
        while k < tl - 1
            invariant
                tl == t@.len(),
                tl >= 2,
                1 <= k <= tl - 1,
                u@ == t@.subrange(1, k as int),
            decreases tl - 1 - k,
        {
            u.push(t[k]);
            k += 1;
            assert(u@ =~= t@.subrange(1, k as int));
        }
    } else {
        u = t;
    }
    assert(u@ == unquote(trim(s@)));
    let ul = u.len();
    let original = string_of(&all);
    if ul >= 2 && u[0] == '{' && u[ul - 1] == '}' {
        let mut inner: Vec<char> = Vec::new();
        let mut k: usize = 1;
        while k < ul - 1
            invariant
                ul == u@.len(),
                ul >= 2,
                1 <= k <= ul - 1,
                inner@ == u@.subrange(1, k as int),
            decreases ul - 1 - k,
        {
            inner.push(u[k]);
            k += 1;
            assert(inner@ =~= u@.subrange(1, k as int));
        }
        let p1 = ['&', 'q', 'u', 'o', 't', ';'];
        let r1 = ['"'];
        let p2 = ['&', 'a', 'p', 'o', 's', ';'];
        let r2 = ['\''];
        let p3 = ['&', 'l', 't', ';'];
        let r3 = ['<'];
        let p4 = ['&', 'g', 't', ';'];
        let r4 = ['>'];
        let p5 = ['&', 'a', 'm', 'p', ';'];
        let r5 = ['&'];
        assert(p1@ =~= seq!['&', 'q', 'u', 'o', 't', ';'] && r1@ =~= seq!['"']);
        assert(p2@ =~= seq!['&', 'a', 'p', 'o', 's', ';'] && r2@ =~= seq!['\'']);
        assert(p3@ =~= seq!['&', 'l', 't', ';'] && r3@ =~= seq!['<']);
        assert(p4@ =~= seq!['&', 'g', 't', ';'] && r4@ =~= seq!['>']);
        assert(p5@ =~= seq!['&', 'a', 'm', 'p', ';'] && r5@ =~= seq!['&']);
        let a = replace_chars(&inner, &p1, &r1);
        let b = replace_chars(&a, &p2, &r2);
        let c = replace_chars(&b, &p3, &r3);
        let d = replace_chars(&c, &p4, &r4);
        let e = replace_chars(&d, &p5, &r5);
        (Some(string_of(&e)), original)
    } else {
        (None, original)
    }
}

/// Line starts of a byte sequence up to (not including) position `k`:
/// 0, then the position right after every `\n` seen so far.
pub open spec fn starts_upto(b: Seq<u8>, k: int) -> Seq<usize>
    decreases k,
{
    if k <= 0 {
        seq![0usize]
    } else if b[k - 1] == 10u8 {
        starts_upto(b, k - 1).push(k as usize)
    } else {
        starts_upto(b, k - 1)
    }
}

/// The line-start table of `xml`: byte offset 0, then the byte offset
/// right after every `\n`.
pub open spec fn spec_line_starts(xml: &str) -> Seq<usize> {
    starts_upto(xml.spec_bytes(), xml.spec_bytes().len() as int)
}

/// Compute the byte offset of every line start in `xml`. Index 0 is
/// always 0; subsequent entries are the byte offset right after each
/// `\n`.
pub fn line_starts(xml: &str) -> (r: Vec<usize>)
    ensures
        r@ == spec_line_starts(xml),
{
    let bytes = xml.as_bytes();
    let mut starts: Vec<usize> = Vec::new();
    starts.push(0);
    let mut i: usize = 0;
    while i < bytes.len()
        invariant
            bytes@ == xml.spec_bytes(),
            i <= bytes@.len(),
            starts@ == starts_upto(bytes@, i as int),
        decreases bytes.len() - i,
    {
        if bytes[i] == 10u8 {
            starts.push(i + 1);
        }
        i += 1;
    }
    starts
}

} // verus!
