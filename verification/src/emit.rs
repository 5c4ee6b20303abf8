//! Rendering attribute values as Rust source text.
use vstd::prelude::*;

use crate::ast::{AstAttribute, AstElement, SAttr, SElement};
use crate::error::{decimal, push_decimal, serr, SError, XmlError, XmlErrorKind};
use crate::rustlex::{lex_error, lex_rust};
use crate::strings::{chars_of, push_char, str_eq};

verus! {

/// The view of a code-generation result.
pub open spec fn res_view(r: Result<String, XmlError>) -> Result<Seq<char>, SError> {
    match r {
        Ok(s) => Ok(s@),
        Err(e) => Err(e@),
    }
}

pub open spec fn esc_char(c: char) -> Seq<char> {
    if c == '\\' {
        seq!['\\', '\\']
    } else if c == '"' {
        seq!['\\', '"']
    } else if c == '\r' {
        seq!['\\', 'r']
    } else {
        seq![c]
    }
}

pub open spec fn esc_all(s: Seq<char>) -> Seq<char>
    decreases s.len(),
{
    if s.len() == 0 {
        seq![]
    } else {
        esc_all(s.drop_last()) + esc_char(s.last())
    }
}

/// A Rust string literal whose value is `s`.
pub open spec fn str_lit(s: Seq<char>) -> Seq<char> {
    seq!['"'] + esc_all(s) + seq!['"']
}

/// Appends a Rust string literal whose value is `s`.
pub fn push_str_lit(out: &mut String, s: &str)
    ensures
        final(out)@ == old(out)@ + str_lit(s@),
{
    let v = chars_of(s);
    push_char(out, '"');
    let ghost start = out@;
    let mut k: usize = 0;
    while k < v.len()
        invariant
            k <= v@.len(),
            v@ == s@,
            out@ == start + esc_all(v@.take(k as int)),
        decreases v.len() - k,
    {
        let c = v[k];
        if c == '\\' {
            push_char(out, '\\');
            push_char(out, '\\');
        } else if c == '"' {
            push_char(out, '\\');
            push_char(out, '"');
        } else if c == '\r' {
            push_char(out, '\\');
            push_char(out, 'r');
        } else {
            push_char(out, c);
        }
        k += 1;
        assert(v@.take(k as int).drop_last() =~= v@.take(k - 1));
        assert(out@ =~= start + esc_all(v@.take(k as int)));
    }
    assert(v@.take(v@.len() as int) =~= v@);
    push_char(out, '"');
    assert(out@ =~= old(out)@ + str_lit(s@));
}

/// `("…").to_string()` for a literal attribute value.
pub open spec fn owned_lit(s: Seq<char>) -> Seq<char> {
    "("@ + str_lit(s) + ").to_string()"@
}

pub fn owned_lit_code(s: &str) -> (r: String)
    ensures
        r@ == owned_lit(s@),
{
    let mut out = String::new();
    out.append("(");
    push_str_lit(&mut out, s);
    out.append(").to_string()");
    out
}

/// A user expression spliced into generated code: its text, ended by
/// a line break so that a trailing `//` comment cannot swallow the
/// code that follows.
pub open spec fn spliced(src: Seq<char>) -> Seq<char> {
    src + seq!['\n']
}

/// A user expression checked to lex as Rust tokens, or the
/// `InvalidExpression` error naming `context`.
pub open spec fn spec_ts(src: Seq<char>, offset: usize, context: Seq<char>) -> Result<
    Seq<char>,
    SError,
> {
    match lex_error(src) {
        None => Ok(spliced(src)),
        Some(m) => Err(
            serr(
                XmlErrorKind::InvalidExpression,
                "could not parse "@ + context + " `"@ + src + "`: "@ + m,
                Some(offset),
            ),
        ),
    }
}

/// Check that `src` lexes as Rust tokens.
pub fn ts(src: &str, offset: usize, context: &str) -> (r: Result<String, XmlError>)
    ensures
        res_view(r) == spec_ts(src@, offset, context@),
{
    match lex_rust(src) {
        Ok(()) => {
            let mut out = crate::strings::to_owned(src);
            push_char(&mut out, '\n');
            assert(out@ =~= spliced(src@));
            Ok(out)
        },
        Err(m) => {
            let mut msg = String::new();
            msg.append("could not parse ");
            msg.append(context);
            msg.append(" `");
            msg.append(src);
            msg.append("`: ");
            msg.append(m.as_str());
            Err(XmlError::new(XmlErrorKind::InvalidExpression, msg).at(offset))
        },
    }
}

/// The first attribute named `name`.
pub open spec fn find_attr(attrs: Seq<SAttr>, name: Seq<char>) -> Option<SAttr>
    decreases attrs.len(),
{
    if attrs.len() == 0 {
        None
    } else if attrs[0].name == name {
        Some(attrs[0])
    } else {
        find_attr(attrs.drop_first(), name)
    }
}

pub open spec fn opt_attr_view(o: Option<&AstAttribute>) -> Option<SAttr> {
    match o {
        Some(a) => Some(a@),
        None => None,
    }
}

/// The first attribute of `e` named `name`.
pub fn attr_named<'a>(e: &'a AstElement, name: &str) -> (r: Option<&'a AstAttribute>)
    ensures
        opt_attr_view(r) == find_attr(e@.attrs, name@),
{
    let mut k: usize = 0;
    let ghost attrs = e@.attrs;
    assert(attrs =~= e.attributes@.map_values(|a: AstAttribute| a@));
    assert(attrs.subrange(0, attrs.len() as int) =~= attrs);
    while k < e.attributes.len()
        invariant
            k <= e.attributes@.len(),
            attrs == e@.attrs,
            attrs.len() == e.attributes@.len(),
            forall|i: int| 0 <= i < attrs.len() ==> #[trigger] attrs[i] == e.attributes@[i]@,
            find_attr(attrs.subrange(k as int, attrs.len() as int), name@) == find_attr(
                attrs,
                name@,
            ),
        decreases e.attributes.len() - k,
    {
        let ghost rest = attrs.subrange(k as int, attrs.len() as int);
        assert(rest[0] == attrs[k as int]);
        if str_eq(e.attributes[k].name.as_str(), name) {
            return Some(&e.attributes[k]);
        }
        assert(rest.drop_first() =~= attrs.subrange(k + 1, attrs.len() as int));
        k += 1;
    }
    None
}

} // verus!
