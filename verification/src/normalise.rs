//! The bare-attribute / brace-expression rewriter that turns the
//! `xml!` dialect into XML that a strict parser accepts.
use vstd::prelude::*;

use crate::strings::{chars_of, string_of};

verus! {

/// `u8::is_ascii_whitespace` on characters: space, tab, line feed,
/// form feed and carriage return.
pub open spec fn is_ascii_ws(c: char) -> bool {
    c == ' ' || c == '\t' || c == '\n' || c == '\x0C' || c == '\r'
}

/// A character that ends a tag name inside a start tag.
pub open spec fn spec_is_tag_name_end(c: char) -> bool {
    is_ascii_ws(c) || c == '>' || c == '/'
}

/// A character that ends an attribute name inside a start tag.
pub open spec fn spec_is_attr_name_end(c: char) -> bool {
    is_ascii_ws(c) || c == '>' || c == '/' || c == '='
}

/// The encoding of one character inside a wrapped brace expression:
/// the XML specials become entity references, everything else is kept.
pub open spec fn brace_escape(c: char) -> Seq<char> {
    if c == '<' {
        seq!['&', 'l', 't', ';']
    } else if c == '>' {
        seq!['&', 'g', 't', ';']
    } else if c == '&' {
        seq!['&', 'a', 'm', 'p', ';']
    } else if c == '"' {
        seq!['&', 'q', 'u', 'o', 't', ';']
    } else if c == '\'' {
        seq!['&', 'a', 'p', 'o', 's', ';']
    } else {
        seq![c]
    }
}

pub open spec fn true_value() -> Seq<char> {
    seq!['=', '"', 't', 'r', 'u', 'e', '"']
}

// The rewriter is a left-to-right transducer. Each spec function
// below gives the output produced from position `i` onward while the
// scanner is in the corresponding state; the whole output is
// `norm_text(s, 0)`.

/// Outside any tag.
pub open spec fn norm_text(s: Seq<char>, i: int) -> Seq<char>
    decreases s.len() - i, 10int,
{
    if i < 0 || i >= s.len() {
        seq![]
    } else if s[i] == '<' {
        seq!['<'] + norm_after_lt(s, i + 1)
    } else {
        seq![s[i]] + norm_text(s, i + 1)
    }
}

/// Just after a `<`: a comment, a verbatim construct (processing
/// instruction, doctype, CDATA, end tag) or a start tag.
pub open spec fn norm_after_lt(s: Seq<char>, i: int) -> Seq<char>
    decreases s.len() - i, 9int,
{
    if i < 0 {
        seq![]
    } else if i + 3 < s.len() && s[i] == '!' && s[i + 1] == '-' && s[i + 2] == '-' {
        seq!['!', '-', '-'] + norm_comment(s, i + 3)
    } else if i < s.len() && (s[i] == '?' || s[i] == '!' || s[i] == '/') {
        norm_verbatim(s, i)
    } else {
        norm_tag_name(s, i)
    }
}

/// Inside `<!-- ... -->`: copied verbatim up to and including `-->`.
pub open spec fn norm_comment(s: Seq<char>, i: int) -> Seq<char>
    decreases s.len() - i, 8int,
{
    if i < 0 || i >= s.len() {
        seq![]
    } else if s[i] == '-' && i + 2 < s.len() && s[i + 1] == '-' && s[i + 2] == '>' {
        seq!['-', '-', '>'] + norm_text(s, i + 3)
    } else {
        seq![s[i]] + norm_comment(s, i + 1)
    }
}

/// Copied verbatim up to and including the next `>`.
pub open spec fn norm_verbatim(s: Seq<char>, i: int) -> Seq<char>
    decreases s.len() - i, 4int,
{
    if i < 0 || i >= s.len() {
        seq![]
    } else if s[i] == '>' {
        seq!['>'] + norm_text(s, i + 1)
    } else {
        seq![s[i]] + norm_verbatim(s, i + 1)
    }
}

/// The tag name of a start tag.
pub open spec fn norm_tag_name(s: Seq<char>, i: int) -> Seq<char>
    decreases s.len() - i, 6int,
{
    if 0 <= i < s.len() && !spec_is_tag_name_end(s[i]) {
        seq![s[i]] + norm_tag_name(s, i + 1)
    } else {
        norm_attrs(s, i)
    }
}

/// Between attributes of a start tag.
pub open spec fn norm_attrs(s: Seq<char>, i: int) -> Seq<char>
    decreases s.len() - i, 5int,
{
    if i < 0 || i >= s.len() {
        seq![]
    } else if s[i] == '>' {
        seq!['>'] + norm_text(s, i + 1)
    } else if is_ascii_ws(s[i]) || s[i] == '/' {
        seq![s[i]] + norm_attrs(s, i + 1)
    } else if s[i] == '=' {
        seq!['='] + norm_value_ws(s, i + 1)
    } else {
        seq![s[i]] + norm_attr_name(s, i + 1)
    }
}

/// Inside an attribute name (after its first character).
pub open spec fn norm_attr_name(s: Seq<char>, i: int) -> Seq<char>
    decreases s.len() - i, 6int,
{
    if 0 <= i < s.len() && !spec_is_attr_name_end(s[i]) {
        seq![s[i]] + norm_attr_name(s, i + 1)
    } else if 0 <= i < s.len() && s[i] == '=' {
        seq!['='] + norm_value_ws(s, i + 1)
    } else {
        true_value() + norm_attrs(s, i)
    }
}

/// After `=`: whitespace before the value, then the value.
pub open spec fn norm_value_ws(s: Seq<char>, i: int) -> Seq<char>
    decreases s.len() - i, 8int,
{
    if i < 0 || i >= s.len() {
        seq![]
    } else if is_ascii_ws(s[i]) {
        seq![s[i]] + norm_value_ws(s, i + 1)
    } else if s[i] == '{' {
        seq!['"', '{'] + norm_brace(s, i + 1, 1)
    } else if s[i] == '"' || s[i] == '\'' {
        seq![s[i]] + norm_quoted(s, i + 1, s[i])
    } else {
        norm_unquoted(s, i)
    }
}

/// Inside a brace expression at nesting depth `depth`; the value is
/// closed with a `"` once the matching `}` (or the end) is reached.
pub open spec fn norm_brace(s: Seq<char>, i: int, depth: nat) -> Seq<char>
    decreases s.len() - i, 7int,
{
    if i < 0 || i >= s.len() || depth == 0 {
        seq!['"'] + norm_attrs(s, i)
    } else if s[i] == '{' {
        seq!['{'] + norm_brace(s, i + 1, depth + 1)
    } else if s[i] == '}' {
        if depth == 1 {
            seq!['}', '"'] + norm_attrs(s, i + 1)
        } else {
            seq!['}'] + norm_brace(s, i + 1, (depth - 1) as nat)
        }
    } else {
        brace_escape(s[i]) + norm_brace(s, i + 1, depth)
    }
}

/// Inside a quoted value opened by `q`; a backslash keeps the next
/// character.
pub open spec fn norm_quoted(s: Seq<char>, i: int, q: char) -> Seq<char>
    decreases s.len() - i, 7int,
{
    if i < 0 || i >= s.len() {
        norm_attrs(s, i)
    } else if s[i] == q {
        seq![q] + norm_attrs(s, i + 1)
    } else if s[i] == '\\' && i + 1 < s.len() {
        seq![s[i], s[i + 1]] + norm_quoted(s, i + 2, q)
    } else {
        seq![s[i]] + norm_quoted(s, i + 1, q)
    }
}

/// An unquoted value: copied up to whitespace or `>`.
pub open spec fn norm_unquoted(s: Seq<char>, i: int) -> Seq<char>
    decreases s.len() - i, 6int,
{
    if 0 <= i < s.len() && !is_ascii_ws(s[i]) && s[i] != '>' {
        seq![s[i]] + norm_unquoted(s, i + 1)
    } else {
        norm_attrs(s, i)
    }
}

/// What `normalise_bool_attrs` produces for `s`.
pub open spec fn spec_normalise(s: Seq<char>) -> Seq<char> {
    norm_text(s, 0)
}

} // verus!

verus! {

/// The scanner states of the rewriter.
#[derive(Clone, Copy)]
enum Scan {
    Text,
    AfterLt,
    Comment,
    Verbatim,
    TagName,
    Attrs,
    AttrName,
    ValueWs,
    Brace(usize),
    Quoted(char),
    Unquoted,
}

/// The output still to come from state `m` at position `i`.
spec fn scan_out(s: Seq<char>, m: Scan, i: int) -> Seq<char> {
    match m {
        Scan::Text => norm_text(s, i),
        Scan::AfterLt => norm_after_lt(s, i),
        Scan::Comment => norm_comment(s, i),
        Scan::Verbatim => norm_verbatim(s, i),
        Scan::TagName => norm_tag_name(s, i),
        Scan::Attrs => norm_attrs(s, i),
        Scan::AttrName => norm_attr_name(s, i),
        Scan::ValueWs => norm_value_ws(s, i),
        Scan::Brace(d) => norm_brace(s, i, d as nat),
        Scan::Quoted(q) => norm_quoted(s, i, q),
        Scan::Unquoted => norm_unquoted(s, i),
    }
}

spec fn scan_rank(m: Scan) -> int {
    match m {
        Scan::Text => 10,
        Scan::AfterLt => 9,
        Scan::Comment => 8,
        Scan::Verbatim => 4,
        Scan::TagName => 6,
        Scan::Attrs => 5,
        Scan::AttrName => 6,
        Scan::ValueWs => 8,
        Scan::Brace(_) => 7,
        Scan::Quoted(_) => 7,
        Scan::Unquoted => 6,
    }
}

fn is_ascii_ws_char(c: char) -> (b: bool)
    ensures
        b == is_ascii_ws(c),
{
    c == ' ' || c == '\t' || c == '\n' || c == '\x0C' || c == '\r'
}

/// Whether `b` ends a tag name inside a start tag.
pub fn is_tag_name_end(b: char) -> (r: bool)
    ensures
        r == spec_is_tag_name_end(b),
{
    is_ascii_ws_char(b) || b == '>' || b == '/'
}

/// Whether `b` ends an attribute name inside a start tag.
pub fn is_attr_name_end(b: char) -> (r: bool)
    ensures
        r == spec_is_attr_name_end(b),
{
    is_ascii_ws_char(b) || b == '>' || b == '/' || b == '='
}

fn push_all(out: &mut Vec<char>, chars: &[char])
    ensures
        final(out)@ == old(out)@ + chars@,
{
    let ghost extra = chars@;
    let mut k: usize = 0;
    while k < chars.len()
        invariant
            k <= chars@.len(),
            chars@ == extra,
            out@ == old(out)@ + extra.take(k as int),
        decreases chars.len() - k,
    {
        out.push(chars[k]);
        k += 1;
        assert(extra.take(k as int) =~= extra.take((k - 1) as int).push(chars@[k - 1]));
    }
    assert(extra.take(extra.len() as int) =~= extra);
}

fn push_brace_escape(out: &mut Vec<char>, c: char)
    ensures
        final(out)@ == old(out)@ + brace_escape(c),
{
    if c == '<' {
        push_all(out, &['&', 'l', 't', ';']);
    } else if c == '>' {
        push_all(out, &['&', 'g', 't', ';']);
    } else if c == '&' {
        push_all(out, &['&', 'a', 'm', 'p', ';']);
    } else if c == '"' {
        push_all(out, &['&', 'q', 'u', 'o', 't', ';']);
    } else if c == '\'' {
        push_all(out, &['&', 'a', 'p', 'o', 's', ';']);
    } else {
        out.push(c);
        assert(out@ == old(out)@ + brace_escape(c));
    }
}

/// Rewrite `<Tag bare_attr bare_attr2="v" />` into
/// `<Tag bare_attr="true" bare_attr2="v" />`, and wrap brace
/// expressions `attr={...}` in double quotes (escaping the XML
/// specials inside them), so that the result is XML a strict parser
/// accepts. Comments, processing instructions, doctypes, CDATA and
/// end tags are copied unchanged, as is text outside tags.
pub fn normalise_bool_attrs(input: &str) -> (res: String)
    ensures
        res@ == spec_normalise(input@),
{
    let s = chars_of(input);
    let n = s.len();
    let ghost target = spec_normalise(s@);
    let mut out: Vec<char> = Vec::new();
    let mut i: usize = 0;
    let mut m = Scan::Text;
    loop
        invariant
            n == s@.len(),
            target == spec_normalise(s@),
            i <= n,
            out@ + scan_out(s@, m, i as int) == target,
            m matches Scan::Brace(d) ==> d <= i,
        ensures
            out@ == target,
        decreases n - i, scan_rank(m),
    {
        let ghost prev = out@;
        match m {
            Scan::Text => {
                if i >= n {
                    break;
                }
                if s[i] == '<' {
                    out.push('<');
                    m = Scan::AfterLt;
                } else {
                    out.push(s[i]);
                }
                i += 1;
            },
            Scan::AfterLt => {
                if n > 3 && i < n - 3 && s[i] == '!' && s[i + 1] == '-' && s[i + 2] == '-' {
                    push_all(&mut out, &['!', '-', '-']);
                    i += 3;
                    m = Scan::Comment;
                } else if i < n && (s[i] == '?' || s[i] == '!' || s[i] == '/') {
                    m = Scan::Verbatim;
                } else {
                    m = Scan::TagName;
                }
            },
            Scan::Comment => {
                if i >= n {
                    break;
                }
                if s[i] == '-' && n > 2 && i < n - 2 && s[i + 1] == '-' && s[i + 2] == '>' {
                    push_all(&mut out, &['-', '-', '>']);
                    i += 3;
                    m = Scan::Text;
                } else {
                    out.push(s[i]);
                    i += 1;
                }
            },
            Scan::Verbatim => {
                if i >= n {
                    break;
                }
                out.push(s[i]);
                if s[i] == '>' {
                    m = Scan::Text;
                }
                i += 1;
            },
            Scan::TagName => {
                if i < n && !is_tag_name_end(s[i]) {
                    out.push(s[i]);
                    i += 1;
                } else {
                    m = Scan::Attrs;
                }
            },
            Scan::Attrs => {
                if i >= n {
                    break;
                }
                let c = s[i];
                out.push(c);
                if c == '>' {
                    m = Scan::Text;
                } else if is_ascii_ws_char(c) || c == '/' {
                } else if c == '=' {
                    m = Scan::ValueWs;
                } else {
                    m = Scan::AttrName;
                }
                i += 1;
            },
            Scan::AttrName => {
                if i < n && !is_attr_name_end(s[i]) {
                    out.push(s[i]);
                    i += 1;
                } else if i < n && s[i] == '=' {
                    out.push('=');
                    i += 1;
                    m = Scan::ValueWs;
                } else {
                    push_all(&mut out, &['=', '"', 't', 'r', 'u', 'e', '"']);
                    m = Scan::Attrs;
                }
            },
            Scan::ValueWs => {
                if i >= n {
                    break;
                }
                let c = s[i];
                if is_ascii_ws_char(c) {
                    out.push(c);
                    i += 1;
                } else if c == '{' {
                    out.push('"');
                    out.push('{');
                    i += 1;
                    m = Scan::Brace(1);
                } else if c == '"' || c == '\'' {
                    out.push(c);
                    i += 1;
                    m = Scan::Quoted(c);
                } else {
                    m = Scan::Unquoted;
                }
            },
            Scan::Brace(d) => {
                if i >= n || d == 0 {
                    out.push('"');
                    m = Scan::Attrs;
                } else {
                    let c = s[i];
                    if c == '{' {
                        out.push('{');
                        m = Scan::Brace(d + 1);
                    } else if c == '}' {
                        out.push('}');
                        if d == 1 {
                            out.push('"');
                            m = Scan::Attrs;
                        } else {
                            m = Scan::Brace(d - 1);
                        }
                    } else {
                        push_brace_escape(&mut out, c);
                    }
                    i += 1;
                }
            },
            Scan::Quoted(q) => {
                if i >= n {
                    m = Scan::Attrs;
                } else if s[i] == q {
                    out.push(q);
                    i += 1;
                    m = Scan::Attrs;
                } else if s[i] == '\\' && i + 1 < n {
                    out.push(s[i]);
                    out.push(s[i + 1]);
                    i += 2;
                } else {
                    out.push(s[i]);
                    i += 1;
                }
            },
            Scan::Unquoted => {
                if i < n && !is_ascii_ws_char(s[i]) && s[i] != '>' {
                    out.push(s[i]);
                    i += 1;
                } else {
                    m = Scan::Attrs;
                }
            },
        }
    }
    string_of(&out)
}

} // verus!
