//! Mapping byte offsets of the XML back to lines and columns for
//! diagnostics.
use vstd::prelude::*;

use crate::strings::{chars_of, is_unicode_ws, is_whitespace, string_of, trim_end, utf8_len};

verus! {

/// The user's XML and its line-start table.
pub struct LocationTracker<'a> {
    pub line_starts: &'a [usize],
    pub xml: &'a str,
}

/// The first index at or after `i` whose line start lies after
/// `offset`, or the length of the table.
pub open spec fn first_after(starts: Seq<usize>, offset: usize, i: int) -> int
    decreases starts.len() - i,
{
    if i < 0 || i >= starts.len() {
        starts.len() as int
    } else if starts[i] > offset {
        i
    } else {
        first_after(starts, offset, i + 1)
    }
}

/// The index of the line holding `offset`: the last line start at or
/// before it, scanning from the first.
pub open spec fn line_index(starts: Seq<usize>, offset: usize) -> int {
    let f = first_after(starts, offset, 0);
    if f > 0 {
        f - 1
    } else {
        0
    }
}

/// `(line, column)` of `offset`, both counted from 1.
pub open spec fn spec_line_col(starts: Seq<usize>, offset: usize) -> (usize, usize) {
    if starts.len() == 0 {
        (1, 1)
    } else {
        let l = line_index(starts, offset);
        ((l + 1) as usize, (offset - starts[l] + 1) as usize)
    }
}

/// The index of the first character of `s` from `i` on whose first
/// byte lies at or after byte `b`, or the length of `s`.
pub open spec fn char_at_byte(s: Seq<char>, b: nat, i: int) -> int
    decreases s.len() - i,
{
    if i < 0 || i >= s.len() {
        s.len() as int
    } else if utf8_len(s.take(i)) >= b {
        i
    } else {
        char_at_byte(s, b, i + 1)
    }
}

/// The characters of `s` whose first byte lies in `[a, b)`.
pub open spec fn byte_slice(s: Seq<char>, a: nat, b: nat) -> Seq<char> {
    let i = char_at_byte(s, a, 0);
    let j = char_at_byte(s, b, 0);
    if i <= j {
        s.subrange(i, j)
    } else {
        seq![]
    }
}

/// `n` spaces.
pub open spec fn spaces(n: nat) -> Seq<char>
    decreases n,
{
    if n == 0 {
        seq![]
    } else {
        spaces((n - 1) as nat).push(' ')
    }
}

pub open spec fn line_bound(starts: Seq<usize>, i: int, default: nat) -> nat {
    if 0 <= i < starts.len() {
        starts[i] as nat
    } else {
        default
    }
}

/// The line holding `offset`, its trailing whitespace dropped, then a
/// line with a caret under the offset's column.
pub open spec fn spec_snippet(starts: Seq<usize>, xml: Seq<char>, offset: usize) -> Seq<char> {
    let (line, col) = spec_line_col(starts, offset);
    let len = utf8_len(xml);
    let ls = line_bound(starts, line - 1, 0);
    let le = line_bound(starts, line as int, len);
    let end = if le < len {
        le
    } else {
        len
    };
    trim_end(byte_slice(xml, ls, end)) + seq!['\n'] + spaces(if col > 0 {
        (col - 1) as nat
    } else {
        0
    }) + seq!['^']
}

pub open spec fn line_col_ok(starts: Seq<usize>, offset: usize) -> bool {
    starts.len() > 0 ==> (starts[line_index(starts, offset)] <= offset && offset - starts[line_index(
        starts,
        offset,
    )] < usize::MAX)
}

proof fn lemma_first_after(starts: Seq<usize>, offset: usize, i: int)
    requires
        0 <= i <= starts.len(),
    ensures
        i <= first_after(starts, offset, i) <= starts.len(),
    decreases starts.len() - i,
{
    if i < starts.len() && starts[i] <= offset {
        lemma_first_after(starts, offset, i + 1);
    }
}

impl<'a> LocationTracker<'a> {
    /// The `(line, column)` of a byte offset, both counted from 1. The
    /// line is the last one whose start is at or before the offset.
    pub fn line_col(&self, offset: usize) -> (r: (usize, usize))
        requires
            line_col_ok(self.line_starts@, offset),
        ensures
            r == spec_line_col(self.line_starts@, offset),
    {
        if self.line_starts.len() == 0 {
            return (1, 1);
        }
        let ghost st = self.line_starts@;
        let mut line: usize = 0;
        let mut i: usize = 0;
        while i < self.line_starts.len() && self.line_starts[i] <= offset
            invariant
                st == self.line_starts@,
                st.len() > 0,
                i <= st.len(),
                first_after(st, offset, i as int) == first_after(st, offset, 0),
                line == (if i > 0 {
                    i - 1
                } else {
                    0
                }),
            decreases self.line_starts.len() - i,
        {
            line = i;
            i += 1;
        }
        proof {
            lemma_first_after(st, offset, 0);
        }
        (line + 1, offset - self.line_starts[line] + 1)
    }

    /// The line holding `offset`, trailing whitespace dropped, and a
    /// caret under its column on the line below.
    pub fn snippet(&self, offset: usize) -> (r: String)
        requires
            line_col_ok(self.line_starts@, offset),
        ensures
            r@ == spec_snippet(self.line_starts@, self.xml@, offset),
    {
        let (line, col) = self.line_col(offset);
        let chars = chars_of(self.xml);
        let total = byte_len_of(&chars);
        let ls: u128 = if line >= 1 && line - 1 < self.line_starts.len() {
            self.line_starts[line - 1] as u128
        } else {
            0
        };
        let le: u128 = if line < self.line_starts.len() {
            self.line_starts[line] as u128
        } else {
            total
        };
        let end = if le < total {
            le
        } else {
            total
        };
        let i = char_at_byte_exec(&chars, ls);
        let j = char_at_byte_exec(&chars, end);
        let mut text: Vec<char> = Vec::new();
        if i <= j {
            let mut k = i;
            while k < j
                invariant
                    i <= k <= j <= chars@.len(),
                    text@ == chars@.subrange(i as int, k as int),
                decreases j - k,
            {
                text.push(chars[k]);
                k += 1;
                assert(text@ =~= chars@.subrange(i as int, k as int));
            }
        } else {
            assert(text@ =~= Seq::<char>::empty());
        }
        let mut n = text.len();
        assert(text@.take(n as int) =~= text@);
        while n > 0 && is_whitespace(text[n - 1])
            invariant
                n <= text@.len(),
                trim_end(text@) == trim_end(text@.take(n as int)),
            decreases n,
        {
            assert(text@.take(n as int).drop_last() =~= text@.take(n - 1));
            n -= 1;
        }
        assert(trim_end(text@.take(n as int)) == text@.take(n as int));
        let mut out: Vec<char> = Vec::new();
        let mut k: usize = 0;
        while k < n
            invariant
                k <= n <= text@.len(),
                out@ == text@.take(k as int),
            decreases n - k,
        {
            out.push(text[k]);
            k += 1;
            assert(out@ =~= text@.take(k as int));
        }
        let ghost body = out@;
        out.push('\n');
        let pad = if col > 0 {
            col - 1
        } else {
            0
        };
        let mut p: usize = 0;
        while p < pad
            invariant
                p <= pad,
                out@ == body + seq!['\n'] + spaces(p as nat),
            decreases pad - p,
        {
            out.push(' ');
            p += 1;
        }
        out.push('^');
        string_of(&out)
    }
}

/// The number of UTF-8 bytes of `s`.
fn byte_len_of(s: &Vec<char>) -> (r: u128)
    ensures
        r == utf8_len(s@),
        r <= 4 * s@.len(),
{
    let mut k: usize = 0;
    let mut n: u128 = 0;
    while k < s.len()
        invariant
            k <= s@.len(),
            n == utf8_len(s@.take(k as int)),
            n <= 4 * k,
        decreases s.len() - k,
    {
        let c = s[k];
        let w: u128 = if (c as u32) < 0x80 {
            1
        } else if (c as u32) < 0x800 {
            2
        } else if (c as u32) < 0x10000 {
            3
        } else {
            4
        };
        assert(s@.take(k + 1).drop_last() =~= s@.take(k as int));
        n = n + w;
        k += 1;
    }
    assert(s@.take(s@.len() as int) =~= s@);
    n
}

fn char_at_byte_exec(s: &Vec<char>, b: u128) -> (r: usize)
    ensures
        r == char_at_byte(s@, b as nat, 0),
        r <= s@.len(),
{
    let mut k: usize = 0;
    let mut n: u128 = 0;
    while k < s.len() && n < b
        invariant
            k <= s@.len(),
            n == utf8_len(s@.take(k as int)),
            n <= 4 * k,
            char_at_byte(s@, b as nat, k as int) == char_at_byte(s@, b as nat, 0),
        decreases s.len() - k,
    {
        let c = s[k];
        let w: u128 = if (c as u32) < 0x80 {
            1
        } else if (c as u32) < 0x800 {
            2
        } else if (c as u32) < 0x10000 {
            3
        } else {
            4
        };
        assert(s@.take(k + 1).drop_last() =~= s@.take(k as int));
        n = n + w;
        k += 1;
    }
    k
}

fn line_col_ok_exec(starts: &[usize], offset: usize) -> (b: bool)
    ensures
        b == line_col_ok(starts@, offset),
{
    if starts.len() == 0 {
        return true;
    }
    let ghost st = starts@;
    let mut line: usize = 0;
    let mut i: usize = 0;
    while i < starts.len() && starts[i] <= offset
        invariant
            st == starts@,
            st.len() > 0,
            i <= st.len(),
            first_after(st, offset, i as int) == first_after(st, offset, 0),
            line == (if i > 0 {
                i - 1
            } else {
                0
            }),
        decreases starts.len() - i,
    {
        line = i;
        i += 1;
    }
    proof {
        lemma_first_after(st, offset, 0);
    }
    starts[line] <= offset && offset - starts[line] < usize::MAX
}

/// The diagnostic text of an error: its pre-rendered text if it has
/// one; else, when a location tracker is given and the error points at
/// an offset it can place, the one-line rendering followed by the line
/// and column and the snippet with a caret; else the one-line
/// rendering.
pub open spec fn spec_render_with(e: crate::error::XmlError, loc: Option<(Seq<usize>, Seq<char>)>) -> Seq<char> {
    let base = "xml!: "@ + crate::error::kind_heading(e.kind) + ": "@ + e.message@;
    match e.rendered {
        Some(t) => t@,
        None => match (loc, e.offset) {
            (Some((starts, xml)), Some(o)) => if line_col_ok(starts, o) {
                let (l, c) = spec_line_col(starts, o);
                base + "\n  --> line "@ + crate::error::decimal(l as nat) + ", column "@
                    + crate::error::decimal(c as nat) + "\n"@ + spec_snippet(starts, xml, o)
            } else {
                base
            },
            _ => base,
        },
    }
}

/// The diagnostic of an error with no pre-rendered text, placed in the
/// XML by `loc` (as `spec_render_with` gives it).
pub open spec fn spec_render_plain(e: crate::error::SError, loc: Option<(Seq<usize>, Seq<char>)>) -> Seq<char> {
    let base = "xml!: "@ + crate::error::kind_heading(e.kind) + ": "@ + e.message;
    match (loc, e.offset) {
        (Some((starts, xml)), Some(o)) => if line_col_ok(starts, o) {
            let (l, c) = spec_line_col(starts, o);
            base + "\n  --> line "@ + crate::error::decimal(l as nat) + ", column "@
                + crate::error::decimal(c as nat) + "\n"@ + spec_snippet(starts, xml, o)
        } else {
            base
        },
        _ => base,
    }
}

pub open spec fn loc_view(loc: Option<&LocationTracker>) -> Option<(Seq<usize>, Seq<char>)> {
    match loc {
        Some(l) => Some((l.line_starts@, l.xml@)),
        None => None,
    }
}

impl crate::error::XmlError {
    /// The error as a diagnostic, placed in the XML by `location`
    /// when there is one.
    pub fn render_with(&self, location: Option<&LocationTracker>) -> (r: String)
        ensures
            r@ == spec_render_with(*self, loc_view(location)),
    {
        if let Some(t) = &self.rendered {
            return t.clone();
        }
        let base = self.render();
        match (location, self.offset) {
            (Some(loc), Some(o)) => {
                if line_col_ok_exec(loc.line_starts, o) {
                    let (l, c) = loc.line_col(o);
                    let snip = loc.snippet(o);
                    let mut out = base;
                    out.append("\n  --> line ");
                    crate::error::push_decimal(&mut out, l);
                    out.append(", column ");
                    crate::error::push_decimal(&mut out, c);
                    out.append("\n");
                    out.append(snip.as_str());
                    out
                } else {
                    base
                }
            },
            _ => base,
        }
    }
}

} // verus!
