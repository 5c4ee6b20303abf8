//! Attribute values rendered as the Rust source of builder arguments.
use vstd::prelude::*;

use crate::ast::{AstAttribute, AstNode, SAttr, SNode, nodes_view};
use crate::emit::{owned_lit, owned_lit_code, push_str_lit, res_view, spec_ts, spliced, str_lit, ts};
use crate::error::{serr, SError, XmlError, XmlErrorKind};
use crate::rustlex::lex_error;
use crate::schema::PropValue;
use crate::error::{decimal, push_decimal};
use crate::strings::str_eq;
use crate::strings::{chars_of, push_char, replace_all, replace_chars, string_of, utf8_len, char_width};
use crate::text::{parse_string_interpolation, parts_view, spec_interpolation, InterpPart, SpecPart};

verus! {

/// `name` between backticks.
pub open spec fn ticked(name: Seq<char>) -> Seq<char> {
    "`"@ + name + "`"@
}

/// How diagnostics name an attribute: ``attribute `name` ``.
pub open spec fn attr_ctx(name: Seq<char>) -> Seq<char> {
    "attribute "@ + ticked(name)
}

/// An `InvalidExpression` error pointing at attribute `a`.
pub open spec fn invalid_at(a: SAttr, msg: Seq<char>) -> SError {
    serr(XmlErrorKind::InvalidExpression, msg, Some(a.offset))
}

/// Concatenation of three strings.
pub fn cat3(a: &str, b: &str, c: &str) -> (r: String)
    ensures
        r@ == a@ + b@ + c@,
{
    let mut s = crate::strings::to_owned(a);
    s.append(b);
    s.append(c);
    s
}

/// Concatenation of two strings.
pub fn cat2(a: &str, b: &str) -> (r: String)
    ensures
        r@ == a@ + b@,
{
    let mut s = crate::strings::to_owned(a);
    s.append(b);
    s
}

/// Concatenation of five strings.
pub fn cat5(a: &str, b: &str, c: &str, d: &str, e: &str) -> (r: String)
    ensures
        r@ == a@ + b@ + c@ + d@ + e@,
{
    let mut s = cat3(a, b, c);
    s.append(d);
    s.append(e);
    s
}

pub fn attr_context(name: &str) -> (r: String)
    ensures
        r@ == attr_ctx(name@),
{
    let r = cat3("attribute `", name, "`");
    proof {
        reveal_strlit("attribute `");
        reveal_strlit("attribute ");
        reveal_strlit("`");
        assert(r@ =~= attr_ctx(name@));
    }
    r
}

/// An `InvalidExpression` error at `offset`.
pub fn invalid(msg: String, offset: usize) -> (r: XmlError)
    ensures
        r@ == serr(XmlErrorKind::InvalidExpression, msg@, Some(offset)),
{
    XmlError::new(XmlErrorKind::InvalidExpression, msg).at(offset)
}

/// The value of an attribute passed through: a brace expression as
/// written, a literal as an owned `String`.
pub open spec fn spec_attr_value(a: SAttr) -> Result<Seq<char>, SError> {
    match a.expr {
        Some(e) => spec_ts(e, a.offset, attr_ctx(a.name)),
        None => Ok(owned_lit(a.raw)),
    }
}

pub fn attr_value_tokens(a: &AstAttribute) -> (r: Result<String, XmlError>)
    ensures
        res_view(r) == spec_attr_value(a@),
{
    match &a.expr {
        Some(e) => {
            let ctx = attr_context(a.name.as_str());
            ts(e.as_str(), a.byte_offset, ctx.as_str())
        },
        None => Ok(owned_lit_code(a.raw.as_str())),
    }
}

/// An attribute that must hold a brace expression (event handlers).
pub open spec fn spec_attr_expr_only(a: SAttr) -> Result<Seq<char>, SError> {
    match a.expr {
        Some(e) => spec_ts(e, a.offset, attr_ctx(a.name)),
        None => Err(
            serr(
                XmlErrorKind::InvalidExpression,
                attr_ctx(a.name) + " requires a brace expression, e.g. "@ + ticked(
                    a.name + "={...}"@,
                ),
                None,
            ),
        ),
    }
}

pub fn attr_expr_only(a: &AstAttribute) -> (r: Result<String, XmlError>)
    ensures
        res_view(r) == spec_attr_expr_only(a@),
{
    match &a.expr {
        Some(e) => {
            let ctx = attr_context(a.name.as_str());
            ts(e.as_str(), a.byte_offset, ctx.as_str())
        },
        None => {
            let mut m = attr_context(a.name.as_str());
            m.append(" requires a brace expression, e.g. `");
            m.append(a.name.as_str());
            m.append("={...}`");
            proof {
                reveal_strlit(" requires a brace expression, e.g. `");
                reveal_strlit(" requires a brace expression, e.g. ");
                reveal_strlit("={...}`");
                reveal_strlit("={...}");
                reveal_strlit("`");
                assert(m@ =~= attr_ctx(a.name@) + " requires a brace expression, e.g. "@ + ticked(
                    a.name@ + "={...}"@,
                ));
            }
            Err(XmlError::new(XmlErrorKind::InvalidExpression, m))
        },
    }
}

/// The `format!` string piece of one interpolation part: literal
/// braces doubled, an expression as `{}`.
pub open spec fn fmt_piece(p: SpecPart) -> Seq<char> {
    match p {
        SpecPart::Literal(s) => replace_all(replace_all(s, seq!['{'], seq!['{', '{']), seq!['}'], seq!['}', '}']),
        SpecPart::Expr(_) => "{}"@,
    }
}

pub open spec fn fmt_of(parts: Seq<SpecPart>) -> Seq<char>
    decreases parts.len(),
{
    if parts.len() == 0 {
        seq![]
    } else {
        fmt_of(parts.drop_last()) + fmt_piece(parts.last())
    }
}

/// The `format!` arguments: the expressions that lex as Rust tokens
/// (one that does not is dropped).
pub open spec fn args_of(parts: Seq<SpecPart>) -> Seq<Seq<char>>
    decreases parts.len(),
{
    if parts.len() == 0 {
        seq![]
    } else {
        args_of(parts.drop_last()) + match parts.last() {
            SpecPart::Expr(e) => if lex_error(e) is None {
                seq![spliced(e)]
            } else {
                seq![]
            },
            SpecPart::Literal(_) => seq![],
        }
    }
}

/// Items separated by `, `.
pub open spec fn join_comma(a: Seq<Seq<char>>) -> Seq<char>
    decreases a.len(),
{
    if a.len() == 0 {
        seq![]
    } else if a.len() == 1 {
        a[0]
    } else {
        join_comma(a.drop_last()) + ", "@ + a.last()
    }
}

/// `format!("…", args…).to_string()` for an interpolated attribute.
pub open spec fn interp_code(parts: Seq<SpecPart>) -> Seq<char> {
    "format!("@ + str_lit(fmt_of(parts)) + ", "@ + join_comma(args_of(parts)) + ").to_string()"@
}

/// The value of a text-like attribute: a brace expression converted
/// with `to_string`, an interpolated literal through `format!`, a plain
/// literal as an owned `String`.
pub open spec fn spec_text_value(a: SAttr) -> Result<Seq<char>, SError> {
    match a.expr {
        Some(e) => match spec_ts(e, a.offset, "text "@ + attr_ctx(a.name)) {
            Ok(c) => Ok("("@ + c + ").to_string()"@),
            Err(x) => Err(x),
        },
        None => match spec_interpolation(a.raw) {
            Some(parts) => Ok(interp_code(parts)),
            None => Ok(owned_lit(a.raw)),
        },
    }
}

fn escape_braces(s: &String) -> (r: String)
    ensures
        r@ == replace_all(replace_all(s@, seq!['{'], seq!['{', '{']), seq!['}'], seq!['}', '}']),
{
    let v = chars_of(s.as_str());
    let o1 = ['{'];
    let o2 = ['{', '{'];
    let c1 = ['}'];
    let c2 = ['}', '}'];
    assert(o1@ =~= seq!['{']);
    assert(o2@ =~= seq!['{', '{']);
    assert(c1@ =~= seq!['}']);
    assert(c2@ =~= seq!['}', '}']);
    let w = replace_chars(&v, &o1, &o2);
    let x = replace_chars(&w, &c1, &c2);
    string_of(&x)
}

/// Render the parts of an interpolated attribute as a `format!` call.
pub fn render_string_interpolation(parts: &Vec<InterpPart>, offset: usize) -> (r: String)
    ensures
        r@ == interp_code(parts_view(parts@)),
{
    let ghost ps = parts_view(parts@);
    let mut fmt = String::new();
    let mut args = String::new();
    let mut have: bool = false;
    let mut k: usize = 0;
    while k < parts.len()
        invariant
            k <= parts@.len(),
            ps == parts_view(parts@),
            ps.len() == parts@.len(),
            fmt@ == fmt_of(ps.take(k as int)),
            args@ == join_comma(args_of(ps.take(k as int))),
            have == (args_of(ps.take(k as int)).len() > 0),
        decreases parts.len() - k,
    {
        let ghost pre = ps.take(k as int);
        assert(ps.take(k + 1).drop_last() =~= pre);
        assert(ps.take(k + 1).last() == parts@[k as int]@);
        match &parts[k] {
            InterpPart::Literal(s) => {
                let e = escape_braces(s);
                fmt.append(e.as_str());
                assert(args_of(ps.take(k + 1)) =~= args_of(pre));
            },
            InterpPart::Expr(s) => {
                fmt.append("{}");
                match ts(s.as_str(), offset, "interpolation expression") {
                    Ok(code) => {
                        assert(args_of(ps.take(k + 1)) =~= args_of(pre).push(code@));
                        if have {
                            args.append(", ");
                        }
                        args.append(code.as_str());
                        have = true;
                        assert(args_of(ps.take(k + 1)).drop_last() =~= args_of(pre));
                    },
                    Err(_) => {
                        assert(args_of(ps.take(k + 1)) =~= args_of(pre));
                    },
                }
            },
        }
        k += 1;
    }
    assert(ps.take(parts@.len() as int) =~= ps);
    let mut out = String::new();
    out.append("format!(");
    push_str_lit(&mut out, fmt.as_str());
    out.append(", ");
    out.append(args.as_str());
    out.append(").to_string()");
    out
}

pub fn text_attr_value(a: &AstAttribute) -> (r: Result<String, XmlError>)
    ensures
        res_view(r) == spec_text_value(a@),
{
    match &a.expr {
        Some(e) => {
            let mut ctx = String::new();
            ctx.append("text ");
            let c = attr_context(a.name.as_str());
            ctx.append(c.as_str());
            match ts(e.as_str(), a.byte_offset, ctx.as_str()) {
                Ok(code) => Ok(cat3("(", code.as_str(), ").to_string()")),
                Err(x) => Err(x),
            }
        },
        None => match parse_string_interpolation(a.raw.as_str()) {
            Some(parts) => Ok(render_string_interpolation(&parts, a.byte_offset)),
            None => Ok(owned_lit_code(a.raw.as_str())),
        },
    }
}

/// The text children of a node list, joined by single spaces.
pub open spec fn text_of(nodes: Seq<SNode>) -> Seq<char>
    decreases nodes.len(),
{
    if nodes.len() == 0 {
        seq![]
    } else {
        let acc = text_of(nodes.drop_last());
        match nodes.last() {
            SNode::Text { text, .. } => if acc.len() > 0 {
                acc + seq![' '] + text
            } else {
                text
            },
            _ => acc,
        }
    }
}

/// The text content of an element's children, if any.
pub open spec fn spec_text_content(nodes: Seq<SNode>) -> Option<Seq<char>> {
    if text_of(nodes).len() == 0 {
        None
    } else {
        Some(text_of(nodes))
    }
}

pub fn extract_text_content(children: &[AstNode]) -> (r: Option<String>)
    ensures
        crate::ast::opt_view(r) == spec_text_content(nodes_view(children@)),
{
    let ghost ns = nodes_view(children@);
    proof {
        crate::ast::lemma_nodes_view(children@);
    }
    let mut text = String::new();
    let mut k: usize = 0;
    while k < children.len()
        invariant
            k <= children@.len(),
            ns == nodes_view(children@),
            ns.len() == children@.len(),
            forall|i: int| 0 <= i < ns.len() ==> #[trigger] ns[i] == crate::ast::node_view(children@[i]),
            text@ == text_of(ns.take(k as int)),
        decreases children.len() - k,
    {
        assert(ns.take(k + 1).drop_last() =~= ns.take(k as int));
        assert(ns.take(k + 1).last() == ns[k as int]);
        match &children[k] {
            AstNode::Text { text: t, .. } => {
                if !text.as_str().is_empty() {
                    push_char(&mut text, ' ');
                }
                text.append(t.as_str());
            },
            _ => {},
        }
        k += 1;
    }
    assert(ns.take(children@.len() as int) =~= ns);
    if text.as_str().is_empty() {
        None
    } else {
        Some(text)
    }
}


/// The error for an attribute literal the prop cannot take:
/// ``attribute `name`<what>`raw` ``.
pub open spec fn expects(a: SAttr, what: Seq<char>) -> SError {
    invalid_at(a, attr_ctx(a.name) + what + ticked(a.raw))
}

fn expects_err(a: &AstAttribute, what: &str) -> (r: XmlError)
    ensures
        r@ == expects(a@, what@),
{
    let mut m = attr_context(a.name.as_str());
    m.append(what);
    let t = cat3("`", a.raw.as_str(), "`");
    m.append(t.as_str());
    invalid(m, a.byte_offset)
}

pub open spec fn is_digit(c: char) -> bool {
    '0' <= c && c <= '9'
}

pub open spec fn all_digits(s: Seq<char>) -> bool {
    forall|i: int| 0 <= i < s.len() ==> is_digit(#[trigger] s[i])
}

pub open spec fn digit_value(c: char) -> nat {
    (c as u32 - '0' as u32) as nat
}

/// The number written by the decimal digits `s`.
pub open spec fn dec_num(s: Seq<char>) -> nat
    decreases s.len(),
{
    if s.len() == 0 {
        0
    } else {
        dec_num(s.drop_last()) * 10 + digit_value(s.last())
    }
}

/// `s` without one leading `+`.
pub open spec fn unplus(s: Seq<char>) -> Seq<char> {
    if s.len() > 0 && s[0] == '+' {
        s.drop_first()
    } else {
        s
    }
}

/// `str::parse::<usize>`: an optional `+`, then decimal digits whose
/// value fits in a `usize`.
pub open spec fn usize_value(s: Seq<char>) -> Option<nat> {
    let d = unplus(s);
    if d.len() > 0 && all_digits(d) && dec_num(d) <= usize::MAX {
        Some(dec_num(d))
    } else {
        None
    }
}

pub proof fn lemma_dec_num_prefix_pub(s: Seq<char>, k: int)
    requires
        0 <= k <= s.len(),
    ensures
        dec_num(s.take(k)) <= dec_num(s),
    decreases s.len(),
{
    if k < s.len() {
        assert(s.drop_last().take(k) =~= s.take(k));
        lemma_dec_num_prefix_pub(s.drop_last(), k);
    } else {
        assert(s.take(k) =~= s);
    }
}

/// Parse a decimal `usize` as `str::parse` does.
pub fn parse_usize(raw: &str) -> (r: Option<usize>)
    ensures
        r matches Some(v) ==> usize_value(raw@) == Some(v as nat),
        r is None ==> usize_value(raw@) is None,
{
    let s = chars_of(raw);
    let mut k: usize = 0;
    if s.len() > 0 && s[0] == '+' {
        k = 1;
    }
    let ghost d = unplus(s@);
    assert(d =~= s@.skip(k as int));
    if k >= s.len() {
        return None;
    }
    let start = k;
    let mut acc: usize = 0;
    while k < s.len()
        invariant
            start <= k <= s@.len(),
            d == s@.skip(start as int),
            d == unplus(raw@),
            all_digits(s@.subrange(start as int, k as int)),
            acc as nat == dec_num(s@.subrange(start as int, k as int)),
        decreases s.len() - k,
    {
        let c = s[k];
        if !('0' <= c && c <= '9') {
            assert(d[k - start] == c);
            return None;
        }
        let dv = (c as u32 - '0' as u32) as usize;
        assert(s@.subrange(start as int, k + 1).drop_last() =~= s@.subrange(start as int, k as int));
        assert(s@.subrange(start as int, k + 1).last() == c);
        assert(dec_num(s@.subrange(start as int, k + 1)) == acc * 10 + dv);
        match acc.checked_mul(10) {
            Some(m) => match m.checked_add(dv) {
                Some(n) => {
                    acc = n;
                },
                None => {
                    proof {
                        if all_digits(d) {
                            assert(d.take(k + 1 - start) =~= s@.subrange(start as int, k + 1));
                            lemma_dec_num_prefix_pub(d, k + 1 - start);
                        }
                    }
                    return None;
                },
            },
            None => {
                proof {
                    if all_digits(d) {
                        assert(d.take(k + 1 - start) =~= s@.subrange(start as int, k + 1));
                        lemma_dec_num_prefix_pub(d, k + 1 - start);
                    }
                }
                return None;
            },
        }
        k += 1;
    }
    assert(s@.subrange(start as int, s@.len() as int) =~= d);
    Some(acc)
}

pub open spec fn is_hex(c: char) -> bool {
    is_digit(c) || ('a' <= c && c <= 'f') || ('A' <= c && c <= 'F')
}

pub open spec fn hex_value(c: char) -> nat {
    if is_digit(c) {
        digit_value(c)
    } else if 'a' <= c && c <= 'f' {
        (c as u32 - 'a' as u32 + 10) as nat
    } else {
        (c as u32 - 'A' as u32 + 10) as nat
    }
}

pub open spec fn hex_num(s: Seq<char>) -> nat
    decreases s.len(),
{
    if s.len() == 0 {
        0
    } else {
        hex_num(s.drop_last()) * 16 + hex_value(s.last())
    }
}

/// `u32::from_str_radix(s, 16)` on at most eight characters: an
/// optional `+`, then hexadecimal digits.
pub open spec fn hex_u32(s: Seq<char>) -> Option<nat> {
    let d = unplus(s);
    if d.len() > 0 && forall|i: int| 0 <= i < d.len() ==> is_hex(#[trigger] d[i]) {
        Some(hex_num(d))
    } else {
        None
    }
}

/// The hexadecimal digits in order of value.
pub open spec fn hex_digits() -> Seq<char> {
    seq!['0', '1', '2', '3', '4', '5', '6', '7', '8', '9', 'a', 'b', 'c', 'd', 'e', 'f']
}

proof fn lemma_lower_char_facts(c: char)
    ensures
        'A' <= c <= 'Z' ==> crate::diagnostics::lower_char(c) as u32 == c as u32 + 32,
        !('A' <= c <= 'Z') ==> crate::diagnostics::lower_char(c) == c,
        char_width(crate::diagnostics::lower_char(c)) == char_width(c),
{
    if 'A' <= c <= 'Z' {
        assert((((c as u32) + 32) as char) as u32 == (c as u32) + 32);
    }
}

/// A hexadecimal digit is worth its place in `0123456789abcdef`, a
/// capital letter as much as the small one: `A`–`F` and `a`–`f` are
/// both worth 10–15.
pub proof fn lemma_hex_digit_value(c: char)
    requires
        is_hex(c),
    ensures
        hex_value(c) < 16,
        hex_digits()[hex_value(c) as int] == crate::diagnostics::lower_char(c),
        is_hex(crate::diagnostics::lower_char(c)),
        hex_value(crate::diagnostics::lower_char(c)) == hex_value(c),
{
    lemma_lower_char_facts(c);
    assert(c == '0' || c == '1' || c == '2' || c == '3' || c == '4' || c == '5' || c == '6' || c == '7'
        || c == '8' || c == '9' || c == 'a' || c == 'b' || c == 'c' || c == 'd' || c == 'e' || c == 'f'
        || c == 'A' || c == 'B' || c == 'C' || c == 'D' || c == 'E' || c == 'F');
}

proof fn lemma_utf8_len_lower(s: Seq<char>)
    ensures
        utf8_len(crate::diagnostics::lower(s)) == utf8_len(s),
    decreases s.len(),
{
    if s.len() > 0 {
        lemma_utf8_len_lower(s.drop_last());
        assert(crate::diagnostics::lower(s).drop_last() =~= crate::diagnostics::lower(s.drop_last()));
        lemma_lower_char_facts(s.last());
    }
}

proof fn lemma_hex_num_lower(s: Seq<char>)
    requires
        forall|i: int| 0 <= i < s.len() ==> is_hex(#[trigger] s[i]),
    ensures
        hex_num(crate::diagnostics::lower(s)) == hex_num(s),
    decreases s.len(),
{
    if s.len() > 0 {
        assert(is_hex(s[s.len() - 1]));
        lemma_hex_num_lower(s.drop_last());
        assert(crate::diagnostics::lower(s).drop_last() =~= crate::diagnostics::lower(s.drop_last()));
        lemma_hex_digit_value(s.last());
    }
}

/// `a` with its text in ASCII lower case.
pub open spec fn lowered(a: SAttr) -> SAttr {
    SAttr { raw: crate::diagnostics::lower(a.raw), ..a }
}

/// A hex colour is read without regard to case: `#FF00FF` is accepted
/// exactly when `#ff00ff` is, and gives the same code.
pub proof fn lemma_hex_color_case_insensitive(a: SAttr)
    ensures
        spec_hex_color(a) is Ok <==> spec_hex_color(lowered(a)) is Ok,
        spec_hex_color(a) is Ok ==> spec_hex_color(a) == spec_hex_color(lowered(a)),
{
    let raw = a.raw;
    let lr = crate::diagnostics::lower(raw);
    assert(lr.len() == raw.len());
    if raw.len() > 0 {
        lemma_lower_char_facts(raw[0]);
        assert(lr[0] == crate::diagnostics::lower_char(raw[0]));
        if raw[0] == '#' {
            let hex = raw.drop_first();
            let lh = lr.drop_first();
            assert(lh =~= crate::diagnostics::lower(hex));
            lemma_utf8_len_lower(hex);
            let d = unplus(hex);
            let ld = unplus(lh);
            if hex.len() > 0 {
                lemma_lower_char_facts(hex[0]);
                assert(lh[0] == crate::diagnostics::lower_char(hex[0]));
            }
            assert(ld =~= crate::diagnostics::lower(d));
            assert((forall|i: int| 0 <= i < d.len() ==> is_hex(#[trigger] d[i])) <==> (forall|i: int|
                0 <= i < ld.len() ==> is_hex(#[trigger] ld[i]))) by {
                assert forall|i: int| 0 <= i < d.len() implies is_hex(#[trigger] d[i]) == is_hex(ld[i]) by {
                    lemma_lower_char_facts(d[i]);
                    assert(ld[i] == crate::diagnostics::lower_char(d[i]));
                    if is_hex(d[i]) {
                        lemma_hex_digit_value(d[i]);
                    } else {
                        assert(!is_hex(ld[i]));
                    }
                }
            }
            if d.len() > 0 && forall|i: int| 0 <= i < d.len() ==> is_hex(#[trigger] d[i]) {
                lemma_hex_num_lower(d);
            }
        }
    }
}

proof fn lemma_utf8_len_ge(s: Seq<char>)
    ensures
        utf8_len(s) >= s.len(),
    decreases s.len(),
{
    if s.len() > 0 {
        lemma_utf8_len_ge(s.drop_last());
    }
}

proof fn lemma_utf8_prefix(s: Seq<char>, k: int)
    requires
        0 <= k <= s.len(),
    ensures
        utf8_len(s.take(k)) <= utf8_len(s),
    decreases s.len(),
{
    if k < s.len() {
        assert(s.drop_last().take(k) =~= s.take(k));
        lemma_utf8_prefix(s.drop_last(), k);
    } else {
        assert(s.take(k) =~= s);
    }
}

/// `min(utf8_len(s), 9)`.
fn utf8_len_capped(s: &Vec<char>) -> (r: usize)
    ensures
        r <= 9,
        r < 9 ==> r == utf8_len(s@),
        r == 9 ==> utf8_len(s@) >= 9,
{
    let mut k: usize = 0;
    let mut n: usize = 0;
    while k < s.len()
        invariant
            k <= s@.len(),
            n == utf8_len(s@.take(k as int)),
            n < 9,
        decreases s.len() - k,
    {
        let c = s[k];
        let w: usize = if (c as u32) < 0x80 {
            1
        } else if (c as u32) < 0x800 {
            2
        } else if (c as u32) < 0x10000 {
            3
        } else {
            4
        };
        assert(s@.take(k + 1).drop_last() =~= s@.take(k as int));
        n = n + w;
        k += 1;
        if n >= 9 {
            proof {
                lemma_utf8_prefix(s@, k as int);
            }
            return 9;
        }
    }
    assert(s@.take(s@.len() as int) =~= s@);
    n
}

/// A hex colour literal: `#rrggbb` becomes `::gpui::rgb(<n>u32)`,
/// `#rrggbbaa` becomes `::gpui::rgba(<n>u32)`; the length is counted
/// in bytes after the `#`.
pub open spec fn spec_hex_color(a: SAttr) -> Result<Seq<char>, SError> {
    let raw = a.raw;
    if raw.len() == 0 || raw[0] != '#' {
        Err(
            expects(
                a,
                " expects a hex colour (`#rrggbb` or `#rrggbbaa`) or a brace expression like `{gpui::hsla(...)}`; got "@,
            ),
        )
    } else {
        let hex = raw.drop_first();
        if utf8_len(hex) == 6 || utf8_len(hex) == 8 {
            match hex_u32(hex) {
                Some(v) => Ok(
                    (if utf8_len(hex) == 6 {
                        "::gpui::rgb("@
                    } else {
                        "::gpui::rgba("@
                    }) + decimal(v) + "u32)"@,
                ),
                None => Err(expects(a, " expects a valid hex colour, got "@)),
            }
        } else {
            Err(expects(a, " expects `#rrggbb` or `#rrggbbaa`, got "@))
        }
    }
}

pub fn parse_hex_color(a: &AstAttribute) -> (r: Result<String, XmlError>)
    ensures
        res_view(r) == spec_hex_color(a@),
{
    let s = chars_of(a.raw.as_str());
    assert(s@ == a@.raw);
    if s.len() == 0 || s[0] != '#' {
        assert(spec_hex_color(a@) == Err::<Seq<char>, SError>(expects(
            a@,
            " expects a hex colour (`#rrggbb` or `#rrggbbaa`) or a brace expression like `{gpui::hsla(...)}`; got "@,
        )));
        let e = expects_err(
            a,
            " expects a hex colour (`#rrggbb` or `#rrggbbaa`) or a brace expression like `{gpui::hsla(...)}`; got ",
        );
        assert(e@ == expects(
            a@,
            " expects a hex colour (`#rrggbb` or `#rrggbbaa`) or a brace expression like `{gpui::hsla(...)}`; got "@,
        ));
        return Err(e);
    }
    let ghost hex = s@.drop_first();
    let mut h: Vec<char> = Vec::new();
    let mut k: usize = 1;
    while k < s.len()
        invariant
            1 <= k <= s@.len(),
            h@ == s@.subrange(1, k as int),
        decreases s.len() - k,
    {
        h.push(s[k]);
        k += 1;
        assert(h@ =~= s@.subrange(1, k as int));
    }
    assert(h@ =~= hex);
    let bl = utf8_len_capped(&h);
    if bl != 6 && bl != 8 {
        return Err(expects_err(a, " expects `#rrggbb` or `#rrggbbaa`, got "));
    }
    proof {
        lemma_utf8_len_ge(hex);
    }
    let mut i: usize = 0;
    if h.len() > 0 && h[0] == '+' {
        i = 1;
    }
    let start = i;
    let ghost d = unplus(hex);
    assert(d =~= h@.skip(start as int));
    if i >= h.len() {
        return Err(expects_err(a, " expects a valid hex colour, got "));
    }
    let mut acc: u64 = 0;
    while i < h.len()
        invariant
            start <= i <= h@.len(),
            h@.len() <= 8,
            d == h@.skip(start as int),
            d == unplus(hex),
            h@ == hex,
            hex == a@.raw.drop_first(),
            a@.raw.len() > 0 && a@.raw[0] == '#',
            bl == 6 || bl == 8,
            bl == utf8_len(hex),
            forall|j: int| start <= j < i ==> is_hex(#[trigger] h@[j]),
            acc as nat == hex_num(h@.subrange(start as int, i as int)),
            acc <= 0xffff_ffff,
        decreases h.len() - i,
    {
        let c = h[i];
        let v: u64 = if '0' <= c && c <= '9' {
            (c as u32 - '0' as u32) as u64
        } else if 'a' <= c && c <= 'f' {
            (c as u32 - 'a' as u32 + 10) as u64
        } else if 'A' <= c && c <= 'F' {
            (c as u32 - 'A' as u32 + 10) as u64
        } else {
            assert(d[i - start] == c);
            return Err(expects_err(a, " expects a valid hex colour, got "));
        };
        assert(h@.subrange(start as int, i + 1).drop_last() =~= h@.subrange(start as int, i as int));
        proof {
            lemma_hex_bound(h@.subrange(start as int, i + 1));
        }
        acc = acc * 16 + v;
        i += 1;
    }
    assert(h@.subrange(start as int, h@.len() as int) =~= d);
    let mut out = String::new();
    if bl == 6 {
        out.append("::gpui::rgb(");
    } else {
        out.append("::gpui::rgba(");
    }
    push_decimal(&mut out, acc as usize);
    out.append("u32)");
    Ok(out)
}

proof fn lemma_hex_bound(s: Seq<char>)
    requires
        s.len() <= 8,
        forall|j: int| 0 <= j < s.len() ==> is_hex(#[trigger] s[j]),
    ensures
        hex_num(s) <= 0xffff_ffff,
        hex_num(s) < pow16(s.len()),
    decreases s.len(),
{
    if s.len() > 0 {
        let p = s.drop_last();
        assert forall|j: int| 0 <= j < p.len() implies is_hex(#[trigger] p[j]) by {
            assert(p[j] == s[j]);
        }
        lemma_hex_bound(p);
        assert(is_hex(s[s.len() - 1]));
        let a = hex_num(p);
        let b = pow16(p.len());
        assert(hex_value(s.last()) < 16);
        assert(a * 16 + hex_value(s.last()) < b * 16) by (nonlinear_arith)
            requires
                a < b,
                hex_value(s.last()) < 16,
        ;
        assert(pow16(8) == 0x1_0000_0000) by {
            reveal_with_fuel(pow16, 9);
        }
        lemma_pow16_mono(s.len(), 8);
    }
}

pub open spec fn pow16(k: nat) -> nat
    decreases k,
{
    if k == 0 {
        1
    } else {
        16 * pow16((k - 1) as nat)
    }
}

/// Hexadecimal is positional from the left too: the first of `n`
/// digits is worth its value times `16^(n-1)`, the rest as a number of
/// their own.
pub proof fn lemma_hex_leading_digit(s: Seq<char>)
    requires
        s.len() > 0,
    ensures
        hex_num(s) == hex_value(s[0]) * pow16((s.len() - 1) as nat) + hex_num(s.drop_first()),
    decreases s.len(),
{
    if s.len() == 1 {
        assert(s.drop_last().len() == 0);
        assert(s.drop_first().len() == 0);
        assert(s.last() == s[0]);
        assert(pow16(0) == 1);
        assert(hex_num(s.drop_last()) == 0);
        assert(hex_num(s.drop_first()) == 0);
        assert(hex_num(s) == hex_value(s[0]));
        assert(hex_value(s[0]) * pow16(0) == hex_value(s[0]));
    } else {
        let dl = s.drop_last();
        lemma_hex_leading_digit(dl);
        assert(dl[0] == s[0]);
        assert(dl.drop_first() =~= s.drop_first().drop_last());
        assert(s.drop_first().last() == s.last());
        let v0 = hex_value(s[0]);
        let p = pow16((s.len() - 2) as nat);
        let r = hex_num(dl.drop_first());
        assert(pow16((s.len() - 1) as nat) == 16 * p);
        assert((v0 * p + r) * 16 == v0 * (16 * p) + r * 16) by (nonlinear_arith);
        assert(hex_num(s) == hex_num(dl) * 16 + hex_value(s.last()));
        assert(hex_num(s.drop_first()) == r * 16 + hex_value(s.last()));
    }
}

proof fn lemma_pow16_mono(a: nat, b: nat)
    requires
        a <= b,
    ensures
        pow16(a) <= pow16(b),
    decreases b,
{
    if a < b {
        lemma_pow16_mono(a, (b - 1) as nat);
    }
}


/// The first position at or after `i` holding `a` or `b`, or the
/// length of `s`.
pub open spec fn first_of(s: Seq<char>, a: char, b: char, i: int) -> int
    decreases s.len() - i,
{
    if i < 0 || i >= s.len() {
        s.len() as int
    } else if s[i] == a || s[i] == b {
        i
    } else {
        first_of(s, a, b, i + 1)
    }
}

fn find_first(s: &Vec<char>, a: char, b: char) -> (r: usize)
    ensures
        r == first_of(s@, a, b, 0),
        r <= s@.len(),
{
    let mut k: usize = 0;
    while k < s.len()
        invariant
            k <= s@.len(),
            first_of(s@, a, b, k as int) == first_of(s@, a, b, 0),
        decreases s.len() - k,
    {
        if s[k] == a || s[k] == b {
            return k;
        }
        k += 1;
    }
    k
}

/// `s` without one leading sign.
pub open spec fn unsign(s: Seq<char>) -> Seq<char> {
    if s.len() > 0 && (s[0] == '+' || s[0] == '-') {
        s.drop_first()
    } else {
        s
    }
}

pub open spec fn neg_sign(s: Seq<char>) -> Seq<char> {
    if s.len() > 0 && s[0] == '-' {
        seq!['-']
    } else {
        seq![]
    }
}

pub open spec fn or_zero(s: Seq<char>) -> Seq<char> {
    if s.len() == 0 {
        seq!['0']
    } else {
        s
    }
}

/// A decimal float written as `str::parse::<f64>` reads it (an
/// optional sign, digits with an optional `.` and fraction, at least
/// one digit, an optional exponent), rendered as a suffixed Rust float
/// literal of the same value: `[-]int.frac[e[-]exp]<suffix>`. The
/// words `inf`, `infinity` and `nan`, which name no finite value, are
/// not read.
pub open spec fn float_lit(raw: Seq<char>, suffix: Seq<char>) -> Option<Seq<char>> {
    let body = unsign(raw);
    let e = first_of(body, 'e', 'E', 0);
    let mant = body.take(e);
    let p = first_of(mant, '.', '.', 0);
    let ip = mant.take(p);
    let fp = if p < mant.len() {
        mant.skip(p + 1)
    } else {
        seq![]
    };
    let x = if e < body.len() {
        body.skip(e + 1)
    } else {
        seq![]
    };
    let xd = unsign(x);
    let mant_ok = all_digits(ip) && all_digits(fp) && (ip.len() > 0 || fp.len() > 0);
    let exp_ok = e >= body.len() || (xd.len() > 0 && all_digits(xd));
    if mant_ok && exp_ok {
        Some(
            neg_sign(raw) + or_zero(ip) + seq!['.'] + or_zero(fp) + (if e < body.len() {
                seq!['e'] + neg_sign(x) + xd
            } else {
                seq![]
            }) + suffix,
        )
    } else {
        None
    }
}

/// A float literal ends with the suffix it was written with.
pub proof fn lemma_float_lit_suffix(raw: Seq<char>, suffix: Seq<char>)
    ensures
        float_lit(raw, suffix) matches Some(c) ==> crate::strings::ends_with(c, suffix),
{
    if let Some(c) = float_lit(raw, suffix) {
        let pre = c.take(c.len() - suffix.len());
        assert(c.subrange(c.len() - suffix.len(), c.len() as int) =~= suffix);
    }
}

fn sub_chars(s: &Vec<char>, a: usize, b: usize) -> (r: Vec<char>)
    requires
        a <= b <= s@.len(),
    ensures
        r@ == s@.subrange(a as int, b as int),
{
    let mut r: Vec<char> = Vec::new();
    let mut k: usize = a;
    while k < b
        invariant
            a <= k <= b,
            b <= s@.len(),
            r@ == s@.subrange(a as int, k as int),
        decreases b - k,
    {
        r.push(s[k]);
        k += 1;
        assert(r@ =~= s@.subrange(a as int, k as int));
    }
    r
}

fn all_digit_chars(s: &Vec<char>) -> (b: bool)
    ensures
        b == all_digits(s@),
{
    let mut k: usize = 0;
    while k < s.len()
        invariant
            k <= s@.len(),
            forall|i: int| 0 <= i < k ==> is_digit(#[trigger] s@[i]),
        decreases s.len() - k,
    {
        if !('0' <= s[k] && s[k] <= '9') {
            return false;
        }
        k += 1;
    }
    true
}

fn push_chars(out: &mut String, v: &Vec<char>)
    ensures
        final(out)@ == old(out)@ + v@,
{
    let s = string_of(v);
    out.append(s.as_str());
}

fn strip_sign(s: &Vec<char>) -> (r: Vec<char>)
    ensures
        r@ == unsign(s@),
{
    if s.len() > 0 && (s[0] == '+' || s[0] == '-') {
        let r = sub_chars(s, 1, s.len());
        assert(r@ =~= s@.drop_first());
        r
    } else {
        sub_chars(s, 0, s.len())
    }
}

/// Read a float literal, with the suffix `suffix`, as `float_lit` says.
#[verifier::rlimit(40)]
pub fn float_literal(raw: &str, suffix: &str) -> (r: Option<String>)
    ensures
        crate::ast::opt_view(r) == float_lit(raw@, suffix@),
{
    let s = chars_of(raw);
    let body = strip_sign(&s);
    let e = find_first(&body, 'e', 'E');
    let mant = sub_chars(&body, 0, e);
    assert(mant@ =~= body@.take(e as int));
    let p = find_first(&mant, '.', '.');
    let ip = sub_chars(&mant, 0, p);
    assert(ip@ =~= mant@.take(p as int));
    let fp = if p < mant.len() {
        let f = sub_chars(&mant, p + 1, mant.len());
        assert(f@ =~= mant@.skip(p + 1));
        f
    } else {
        Vec::new()
    };
    assert(fp@ =~= (if p < mant@.len() { mant@.skip(p + 1) } else { seq![] }));
    let x = if e < body.len() {
        let f = sub_chars(&body, e + 1, body.len());
        assert(f@ =~= body@.skip(e + 1));
        f
    } else {
        Vec::new()
    };
    assert(x@ =~= (if e < body@.len() { body@.skip(e + 1) } else { seq![] }));
    let xd = strip_sign(&x);
    let mant_ok = all_digit_chars(&ip) && all_digit_chars(&fp) && (ip.len() > 0 || fp.len() > 0);
    let exp_ok = e >= body.len() || (xd.len() > 0 && all_digit_chars(&xd));
    if !(mant_ok && exp_ok) {
        return None;
    }
    let mut out = String::new();
    if s.len() > 0 && s[0] == '-' {
        push_char(&mut out, '-');
    }
    if ip.len() == 0 {
        push_char(&mut out, '0');
    } else {
        push_chars(&mut out, &ip);
    }
    push_char(&mut out, '.');
    if fp.len() == 0 {
        push_char(&mut out, '0');
    } else {
        push_chars(&mut out, &fp);
    }
    if e < body.len() {
        push_char(&mut out, 'e');
        if x.len() > 0 && x[0] == '-' {
            push_char(&mut out, '-');
        }
        push_chars(&mut out, &xd);
    }
    out.append(suffix);
    assert(out@ =~= float_lit(raw@, suffix@)->0);
    Some(out)
}

pub open spec fn action_variant(raw: Seq<char>) -> Option<Seq<char>> {
    if raw == "neutral"@ {
        Some("Neutral"@)
    } else if raw == "primary"@ {
        Some("Primary"@)
    } else if raw == "danger"@ {
        Some("Danger"@)
    } else {
        None
    }
}

pub open spec fn badge_variant(raw: Seq<char>) -> Option<Seq<char>> {
    if raw == "neutral"@ {
        Some("Neutral"@)
    } else if raw == "success"@ {
        Some("Success"@)
    } else if raw == "warning"@ {
        Some("Warning"@)
    } else if raw == "danger"@ {
        Some("Danger"@)
    } else if raw == "info"@ {
        Some("Info"@)
    } else {
        None
    }
}

/// `H1`…`H6`, in either case of the `h`.
pub open spec fn heading_variant(raw: Seq<char>) -> Option<Seq<char>> {
    if raw == "H1"@ || raw == "h1"@ {
        Some("H1"@)
    } else if raw == "H2"@ || raw == "h2"@ {
        Some("H2"@)
    } else if raw == "H3"@ || raw == "h3"@ {
        Some("H3"@)
    } else if raw == "H4"@ || raw == "h4"@ {
        Some("H4"@)
    } else if raw == "H5"@ || raw == "h5"@ {
        Some("H5"@)
    } else if raw == "H6"@ || raw == "h6"@ {
        Some("H6"@)
    } else {
        None
    }
}

pub open spec fn keybinding_mode(raw: Seq<char>) -> Option<Seq<char>> {
    if raw == "Idle"@ || raw == "idle"@ {
        Some("Idle"@)
    } else if raw == "Capturing"@ || raw == "capturing"@ {
        Some("Capturing"@)
    } else {
        None
    }
}

pub open spec fn static_view(o: Option<&'static str>) -> Option<Seq<char>> {
    match o {
        Some(s) => Some(s@),
        None => None,
    }
}

fn action_variant_of(raw: &str) -> (r: Option<&'static str>)
    ensures
        static_view(r) == action_variant(raw@),
{
    if str_eq(raw, "neutral") {
        Some("Neutral")
    } else if str_eq(raw, "primary") {
        Some("Primary")
    } else if str_eq(raw, "danger") {
        Some("Danger")
    } else {
        None
    }
}

fn badge_variant_of(raw: &str) -> (r: Option<&'static str>)
    ensures
        static_view(r) == badge_variant(raw@),
{
    if str_eq(raw, "neutral") {
        Some("Neutral")
    } else if str_eq(raw, "success") {
        Some("Success")
    } else if str_eq(raw, "warning") {
        Some("Warning")
    } else if str_eq(raw, "danger") {
        Some("Danger")
    } else if str_eq(raw, "info") {
        Some("Info")
    } else {
        None
    }
}

pub fn heading_variant_of(raw: &str) -> (r: Option<&'static str>)
    ensures
        static_view(r) == heading_variant(raw@),
{
    if str_eq(raw, "H1") || str_eq(raw, "h1") {
        Some("H1")
    } else if str_eq(raw, "H2") || str_eq(raw, "h2") {
        Some("H2")
    } else if str_eq(raw, "H3") || str_eq(raw, "h3") {
        Some("H3")
    } else if str_eq(raw, "H4") || str_eq(raw, "h4") {
        Some("H4")
    } else if str_eq(raw, "H5") || str_eq(raw, "h5") {
        Some("H5")
    } else if str_eq(raw, "H6") || str_eq(raw, "h6") {
        Some("H6")
    } else {
        None
    }
}

pub fn keybinding_mode_of(raw: &str) -> (r: Option<&'static str>)
    ensures
        static_view(r) == keybinding_mode(raw@),
{
    if str_eq(raw, "Idle") || str_eq(raw, "idle") {
        Some("Idle")
    } else if str_eq(raw, "Capturing") || str_eq(raw, "capturing") {
        Some("Capturing")
    } else {
        None
    }
}

pub open spec fn heading_path(v: Seq<char>) -> Seq<char> {
    "::yororen_ui::headless::heading::HeadingLevel::"@ + v
}

pub open spec fn keybinding_path(v: Seq<char>) -> Seq<char> {
    "::yororen_ui::headless::keybinding_input::KeybindingInputMode::"@ + v
}

pub open spec fn icon_code(raw: Seq<char>) -> Seq<char> {
    "::yororen_ui::headless::icon::IconSource::Builtin(("@ + str_lit(raw) + ").into())"@
}

pub open spec fn image_code(raw: Seq<char>) -> Seq<char> {
    "::yororen_ui::headless::image::ImageSource::Resource(("@ + str_lit(raw) + ").into())"@
}

pub fn icon_source_code(raw: &str) -> (r: String)
    ensures
        r@ == icon_code(raw@),
{
    let mut out = String::new();
    out.append("::yororen_ui::headless::icon::IconSource::Builtin((");
    push_str_lit(&mut out, raw);
    out.append(").into())");
    out
}

pub fn image_source_code(raw: &str) -> (r: String)
    ensures
        r@ == image_code(raw@),
{
    let mut out = String::new();
    out.append("::yororen_ui::headless::image::ImageSource::Resource((");
    push_str_lit(&mut out, raw);
    out.append(").into())");
    out
}

/// The argument a prop setter gets for a literal attribute value.
pub open spec fn spec_prop_literal(a: SAttr, kind: PropValue) -> Result<Seq<char>, SError> {
    let raw = a.raw;
    match kind {
        PropValue::String => Ok(owned_lit(raw)),
        PropValue::Unknown => Ok(owned_lit(raw)),
        PropValue::Bool => if raw == "true"@ {
            Ok("true"@)
        } else if raw == "false"@ {
            Ok("false"@)
        } else {
            Err(expects(a, " expects `true` or `false`, got "@))
        },
        PropValue::Flag => Ok(seq![]),
        PropValue::Variant => match action_variant(raw) {
            Some(v) => Ok("::yororen_ui::ActionVariantKind::"@ + v),
            None => Err(expects(a, " expects one of `neutral`, `primary`, `danger`, got "@)),
        },
        PropValue::BadgeVariant => match badge_variant(raw) {
            Some(v) => Ok("::yororen_ui::headless::badge::BadgeVariant::"@ + v),
            None => Err(
                expects(a, " expects one of `neutral`, `success`, `warning`, `danger`, `info`, got "@),
            ),
        },
        PropValue::HeadingLevel => match heading_variant(raw) {
            Some(v) => Ok(heading_path(v)),
            None => Err(expects(a, " expects H1..H6, got "@)),
        },
        PropValue::IconSource => Ok(icon_code(raw)),
        PropValue::ImageSource => Ok(image_code(raw)),
        PropValue::KeybindingInputMode => match keybinding_mode(raw) {
            Some(v) => Ok(keybinding_path(v)),
            None => Err(expects(a, " expects Idle or Capturing, got "@)),
        },
        PropValue::Color => spec_hex_color(a),
        PropValue::Custom => Ok("("@ + str_lit(raw) + ").into()"@),
        PropValue::Float64 => match float_lit(raw, "f64"@) {
            Some(c) => Ok(c),
            None => Err(expects(a, " expects an f64 literal, got "@)),
        },
        PropValue::Float32 => match float_lit(raw, "f32"@) {
            Some(c) => Ok(c),
            None => Err(expects(a, " expects an f32 literal, got "@)),
        },
        PropValue::UInt => match usize_value(raw) {
            Some(v) => Ok(decimal(v)),
            None => Err(expects(a, " expects a usize literal, got "@)),
        },
        _ => Err(
            invalid_at(
                a,
                attr_ctx(a.name)
                    + " requires a brace expression because its type is not string-coercible"@,
            ),
        ),
    }
}

/// The argument a prop setter gets: a brace expression as written,
/// else the literal read according to the prop's kind.
pub open spec fn spec_prop_value(a: SAttr, kind: PropValue) -> Result<Seq<char>, SError> {
    match a.expr {
        Some(e) => spec_ts(e, a.offset, attr_ctx(a.name)),
        None => spec_prop_literal(a, kind),
    }
}

/// A boolean prop written as a literal takes `true` or `false` and
/// nothing else: any other text is an invalid expression whose message
/// names the attribute, both accepted values and the text given.
pub proof fn lemma_bool_prop_literal(a: SAttr)
    requires
        a.expr is None,
    ensures
        a.raw == "true"@ ==> spec_prop_value(a, PropValue::Bool) == Ok::<Seq<char>, SError>("true"@),
        a.raw == "false"@ ==> spec_prop_value(a, PropValue::Bool) == Ok::<Seq<char>, SError>("false"@),
        a.raw != "true"@ && a.raw != "false"@ ==> spec_prop_value(a, PropValue::Bool) == Err::<
            Seq<char>,
            SError,
        >(
            serr(
                XmlErrorKind::InvalidExpression,
                attr_ctx(a.name) + " expects `true` or `false`, got "@ + ticked(a.raw),
                Some(a.offset),
            ),
        ),
{
}

pub fn prop_value_tokens(a: &AstAttribute, kind: PropValue) -> (r: Result<String, XmlError>)
    ensures
        res_view(r) == spec_prop_value(a@, kind),
{
    if let Some(e) = &a.expr {
        let ctx = attr_context(a.name.as_str());
        return ts(e.as_str(), a.byte_offset, ctx.as_str());
    }
    let raw = a.raw.as_str();
    match kind {
        PropValue::String | PropValue::Unknown => Ok(owned_lit_code(raw)),
        PropValue::Bool => if str_eq(raw, "true") {
            Ok(crate::strings::to_owned("true"))
        } else if str_eq(raw, "false") {
            Ok(crate::strings::to_owned("false"))
        } else {
            Err(expects_err(a, " expects `true` or `false`, got "))
        },
        PropValue::Flag => Ok(String::new()),
        PropValue::Variant => match action_variant_of(raw) {
            Some(v) => Ok(cat2("::yororen_ui::ActionVariantKind::", v)),
            None => Err(expects_err(a, " expects one of `neutral`, `primary`, `danger`, got ")),
        },
        PropValue::BadgeVariant => match badge_variant_of(raw) {
            Some(v) => Ok(cat2("::yororen_ui::headless::badge::BadgeVariant::", v)),
            None => Err(
                expects_err(
                    a,
                    " expects one of `neutral`, `success`, `warning`, `danger`, `info`, got ",
                ),
            ),
        },
        PropValue::HeadingLevel => match heading_variant_of(raw) {
            Some(v) => Ok(cat2("::yororen_ui::headless::heading::HeadingLevel::", v)),
            None => Err(expects_err(a, " expects H1..H6, got ")),
        },
        PropValue::IconSource => Ok(icon_source_code(raw)),
        PropValue::ImageSource => Ok(image_source_code(raw)),
        PropValue::KeybindingInputMode => match keybinding_mode_of(raw) {
            Some(v) => Ok(
                cat2("::yororen_ui::headless::keybinding_input::KeybindingInputMode::", v),
            ),
            None => Err(expects_err(a, " expects Idle or Capturing, got ")),
        },
        PropValue::Color => parse_hex_color(a),
        PropValue::Custom => {
            let mut out = crate::strings::to_owned("(");
            push_str_lit(&mut out, raw);
            out.append(").into()");
            Ok(out)
        },
        PropValue::Float64 => match float_literal(raw, "f64") {
            Some(c) => Ok(c),
            None => Err(expects_err(a, " expects an f64 literal, got ")),
        },
        PropValue::Float32 => match float_literal(raw, "f32") {
            Some(c) => Ok(c),
            None => Err(expects_err(a, " expects an f32 literal, got ")),
        },
        PropValue::UInt => match parse_usize(raw) {
            Some(v) => {
                let mut out = String::new();
                push_decimal(&mut out, v);
                Ok(out)
            },
            None => Err(expects_err(a, " expects a usize literal, got ")),
        },
        _ => {
            let mut m = attr_context(a.name.as_str());
            m.append(" requires a brace expression because its type is not string-coercible");
            Err(invalid(m, a.byte_offset))
        },
    }
}

} // verus!
