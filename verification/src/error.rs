//! Diagnostics produced by the parser and the code generator.
use vstd::prelude::*;

use crate::strings::push_char;

verus! {

/// What went wrong.
#[derive(Debug, Clone, Copy, PartialEq, Eq)]
pub enum XmlErrorKind {
    /// The XML string failed to parse (malformed, mismatched tag,
    /// unterminated element, etc.).
    ParseError,
    /// An XML element used a tag the schema does not know.
    UnknownTag,
    /// An XML element had an attribute the schema does not accept on
    /// that tag (or lacked one it requires).
    UnknownAttribute,
    /// An attribute value could not be used as a Rust expression or
    /// literal of the expected kind.
    InvalidExpression,
    /// The XML is structurally valid but not supported.
    Unsupported,
}

/// A diagnostic: its kind, message, and optionally the byte offset in
/// the XML it points at and a fully pre-rendered text.
#[derive(Debug, Clone)]
pub struct XmlError {
    pub kind: XmlErrorKind,
    pub message: String,
    pub offset: Option<usize>,
    pub rendered: Option<String>,
}

/// The mathematical form of an error.
pub struct SError {
    pub kind: XmlErrorKind,
    pub message: Seq<char>,
    pub offset: Option<usize>,
}

impl View for XmlError {
    type V = SError;

    open spec fn view(&self) -> SError {
        SError { kind: self.kind, message: self.message@, offset: self.offset }
    }
}

pub open spec fn serr(kind: XmlErrorKind, message: Seq<char>, offset: Option<usize>) -> SError {
    SError { kind, message, offset }
}

/// The heading `render` gives each kind.
pub open spec fn kind_heading(kind: XmlErrorKind) -> Seq<char> {
    match kind {
        XmlErrorKind::ParseError => "XML parse error"@,
        XmlErrorKind::UnknownTag => "unknown xml tag"@,
        XmlErrorKind::UnknownAttribute => "unknown xml attribute"@,
        XmlErrorKind::InvalidExpression => "invalid attribute expression"@,
        XmlErrorKind::Unsupported => "unsupported xml construct"@,
    }
}

/// The decimal digits of `n`.
pub open spec fn decimal(n: nat) -> Seq<char>
    decreases n,
{
    if n < 10 {
        seq![digit_char(n)]
    } else {
        decimal(n / 10) + seq![digit_char(n % 10)]
    }
}

pub open spec fn digit_char(d: nat) -> char {
    if d == 0 {
        '0'
    } else if d == 1 {
        '1'
    } else if d == 2 {
        '2'
    } else if d == 3 {
        '3'
    } else if d == 4 {
        '4'
    } else if d == 5 {
        '5'
    } else if d == 6 {
        '6'
    } else if d == 7 {
        '7'
    } else if d == 8 {
        '8'
    } else {
        '9'
    }
}

fn digit(d: usize) -> (c: char)
    requires
        d < 10,
    ensures
        c == digit_char(d as nat),
{
    if d == 0 {
        '0'
    } else if d == 1 {
        '1'
    } else if d == 2 {
        '2'
    } else if d == 3 {
        '3'
    } else if d == 4 {
        '4'
    } else if d == 5 {
        '5'
    } else if d == 6 {
        '6'
    } else if d == 7 {
        '7'
    } else if d == 8 {
        '8'
    } else {
        '9'
    }
}

/// Appends the decimal digits of `n` to `s`.
pub fn push_decimal(s: &mut String, n: usize)
    ensures
        final(s)@ == old(s)@ + decimal(n as nat),
    decreases n,
{
    if n < 10 {
        push_char(s, digit(n));
    } else {
        push_decimal(s, n / 10);
        push_char(s, digit(n % 10));
    }
}

fn digit64(d: u64) -> (c: char)
    requires
        d < 10,
    ensures
        c == digit_char(d as nat),
{
    digit(d as usize)
}

/// Appends the decimal digits of `n` to `s`.
pub fn push_decimal_u64(s: &mut String, n: u64)
    ensures
        final(s)@ == old(s)@ + decimal(n as nat),
    decreases n,
{
    if n < 10 {
        push_char(s, digit64(n));
    } else {
        push_decimal_u64(s, n / 10);
        push_char(s, digit64(n % 10));
    }
}

impl XmlError {
    /// A new error of the given kind with no location.
    pub fn new(kind: XmlErrorKind, message: String) -> (r: Self)
        ensures
            r@ == serr(kind, message@, None),
            r.rendered is None,
    {
        XmlError { kind, message, offset: None, rendered: None }
    }

    /// The same error, pointing at byte `offset` of the XML.
    pub fn at(self, offset: usize) -> (r: Self)
        ensures
            r@ == serr(self.kind, self.message@, Some(offset)),
            r.rendered == self.rendered,
    {
        XmlError { offset: Some(offset), ..self }
    }

    /// The same error, with a pre-rendered text that `render_with`
    /// returns unchanged.
    pub fn rendered(self, text: String) -> (r: Self)
        ensures
            r@ == self@,
            r.rendered matches Some(t) && t@ == text@,
    {
        XmlError { rendered: Some(text), ..self }
    }

    /// The error as one line: `xml!: <kind heading>: <message>`.
    pub fn render(&self) -> (r: String)
        ensures
            r@ == "xml!: "@ + kind_heading(self.kind) + ": "@ + self.message@,
    {
        let mut out = String::new();
        out.append("xml!: ");
        let heading = match self.kind {
            XmlErrorKind::ParseError => "XML parse error",
            XmlErrorKind::UnknownTag => "unknown xml tag",
            XmlErrorKind::UnknownAttribute => "unknown xml attribute",
            XmlErrorKind::InvalidExpression => "invalid attribute expression",
            XmlErrorKind::Unsupported => "unsupported xml construct",
        };
        out.append(heading);
        out.append(": ");
        out.append(self.message.as_str());
        out
    }
}

} // verus!
