//! `{…}` interpolation inside string attributes, and the text content
//! of elements.
use vstd::prelude::*;

use crate::strings::{chars_of, string_of};

verus! {

/// One piece of an interpolated string attribute.
#[derive(Debug, Clone)]
pub enum InterpPart {
    /// A literal fragment (no braces).
    Literal(String),
    /// A `{…}` expression (without its braces).
    Expr(String),
}

/// The mathematical form of an [`InterpPart`].
pub enum SpecPart {
    Literal(Seq<char>),
    Expr(Seq<char>),
}

impl View for InterpPart {
    type V = SpecPart;

    open spec fn view(&self) -> SpecPart {
        match self {
            InterpPart::Literal(s) => SpecPart::Literal(s@),
            InterpPart::Expr(s) => SpecPart::Expr(s@),
        }
    }
}

pub open spec fn parts_view(v: Seq<InterpPart>) -> Seq<SpecPart> {
    v.map_values(|p: InterpPart| p@)
}

/// The position of the `}` closing an expression, scanning from `j`
/// at nesting depth `depth` (quoted `"…"` / `'…'` runs, with backslash
/// escapes, do not count). A result at or past the end means the
/// expression is unterminated.
pub open spec fn close_brace(s: Seq<char>, j: int, depth: nat, in_str: Option<char>) -> int
    decreases s.len() - j,
{
    if j < 0 || j >= s.len() {
        j
    } else {
        match in_str {
            Some(q) => if s[j] == '\\' && j + 1 < s.len() {
                close_brace(s, j + 2, depth, in_str)
            } else if s[j] == q {
                close_brace(s, j + 1, depth, None)
            } else {
                close_brace(s, j + 1, depth, in_str)
            },
            None => if s[j] == '"' || s[j] == '\'' {
                close_brace(s, j + 1, depth, Some(s[j]))
            } else if s[j] == '{' {
                close_brace(s, j + 1, depth + 1, None)
            } else if s[j] == '}' {
                if depth <= 1 {
                    j
                } else {
                    close_brace(s, j + 1, (depth - 1) as nat, None)
                }
            } else {
                close_brace(s, j + 1, depth, None)
            },
        }
    }
}

pub open spec fn flush(lit: Seq<char>) -> Seq<SpecPart> {
    if lit.len() > 0 {
        seq![SpecPart::Literal(lit)]
    } else {
        seq![]
    }
}

/// The parts produced from position `i` onward, with `lit` the literal
/// text collected so far.
pub open spec fn interp_from(s: Seq<char>, i: int, lit: Seq<char>) -> Seq<SpecPart>
    decreases s.len() - i,
{
    if i < 0 || i >= s.len() {
        flush(lit)
    } else if s[i] == '{' {
        let j = close_brace(s, i + 1, 1, None);
        if j >= s.len() || j <= i {
            interp_from(s, i + 1, lit.push('{'))
        } else {
            flush(lit) + seq![SpecPart::Expr(s.subrange(i + 1, j))] + interp_from(
                s,
                j + 1,
                seq![],
            )
        }
    } else {
        interp_from(s, i + 1, lit.push(s[i]))
    }
}

/// What `parse_string_interpolation` returns for `s`.
pub open spec fn spec_interpolation(s: Seq<char>) -> Option<Seq<SpecPart>> {
    if !s.contains('{') {
        None
    } else {
        Some(interp_from(s, 0, seq![]))
    }
}

/// The text a list of parts stands for: literals as they are,
/// expressions back inside their braces.
pub open spec fn reassemble(parts: Seq<SpecPart>) -> Seq<char>
    decreases parts.len(),
{
    if parts.len() == 0 {
        seq![]
    } else {
        let head = match parts[0] {
            SpecPart::Literal(l) => l,
            SpecPart::Expr(e) => seq!['{'] + e + seq!['}'],
        };
        head + reassemble(parts.drop_first())
    }
}

proof fn lemma_close_brace_bounds(s: Seq<char>, j: int, depth: nat, in_str: Option<char>)
    requires
        0 <= j,
    ensures
        close_brace(s, j, depth, in_str) >= j,
        close_brace(s, j, depth, in_str) < s.len() ==> s[close_brace(s, j, depth, in_str)]
            == '}',
    decreases s.len() - j,
{
    if j < s.len() {
        match in_str {
            Some(q) => if s[j] == '\\' && j + 1 < s.len() {
                lemma_close_brace_bounds(s, j + 2, depth, in_str);
            } else if s[j] == q {
                lemma_close_brace_bounds(s, j + 1, depth, None);
            } else {
                lemma_close_brace_bounds(s, j + 1, depth, in_str);
            },
            None => if s[j] == '"' || s[j] == '\'' {
                lemma_close_brace_bounds(s, j + 1, depth, Some(s[j]));
            } else if s[j] == '{' {
                lemma_close_brace_bounds(s, j + 1, depth + 1, None);
            } else if s[j] == '}' {
                if depth > 1 {
                    lemma_close_brace_bounds(s, j + 1, (depth - 1) as nat, None);
                }
            } else {
                lemma_close_brace_bounds(s, j + 1, depth, None);
            },
        }
    }
}

proof fn lemma_reassemble_concat(a: Seq<SpecPart>, b: Seq<SpecPart>)
    ensures
        reassemble(a + b) == reassemble(a) + reassemble(b),
    decreases a.len(),
{
    if a.len() == 0 {
        assert(a + b =~= b);
    } else {
        assert((a + b).drop_first() =~= a.drop_first() + b);
        lemma_reassemble_concat(a.drop_first(), b);
    }
}

proof fn lemma_reassemble_single(p: SpecPart)
    ensures
        reassemble(seq![p]) == match p {
            SpecPart::Literal(l) => l,
            SpecPart::Expr(e) => seq!['{'] + e + seq!['}'],
        },
{
    let one = seq![p];
    assert(one.len() == 1);
    assert(one[0] == p);
    assert(one.drop_first() =~= Seq::<SpecPart>::empty());
    assert(reassemble(Seq::<SpecPart>::empty()) == Seq::<char>::empty());
    let h = match p {
        SpecPart::Literal(l) => l,
        SpecPart::Expr(e) => seq!['{'] + e + seq!['}'],
    };
    assert(h + Seq::<char>::empty() =~= h);
}

proof fn lemma_reassemble_flush(lit: Seq<char>)
    ensures
        reassemble(flush(lit)) == lit,
{
    if lit.len() > 0 {
        lemma_reassemble_single(SpecPart::Literal(lit));
    } else {
        assert(lit =~= Seq::<char>::empty());
    }
}

proof fn lemma_reassemble_from(s: Seq<char>, i: int, lit: Seq<char>)
    requires
        0 <= i <= s.len(),
    ensures
        reassemble(interp_from(s, i, lit)) == lit + s.subrange(i, s.len() as int),
    decreases s.len() - i,
{
    if i >= s.len() {
        lemma_reassemble_flush(lit);
        assert(lit + s.subrange(i, s.len() as int) =~= lit);
    } else if s[i] == '{' {
        let j = close_brace(s, i + 1, 1, None);
        lemma_close_brace_bounds(s, i + 1, 1, None);
        if j >= s.len() || j <= i {
            lemma_reassemble_from(s, i + 1, lit.push('{'));
            assert(lit.push('{') + s.subrange(i + 1, s.len() as int) =~= lit + s.subrange(
                i,
                s.len() as int,
            ));
        } else {
            let e = SpecPart::Expr(s.subrange(i + 1, j));
            lemma_reassemble_from(s, j + 1, seq![]);
            lemma_reassemble_concat(flush(lit) + seq![e], interp_from(s, j + 1, seq![]));
            lemma_reassemble_concat(flush(lit), seq![e]);
            lemma_reassemble_single(e);
            lemma_reassemble_flush(lit);
            assert(lit + seq!['{'] + s.subrange(i + 1, j) + seq!['}'] + (seq![] + s.subrange(
                j + 1,
                s.len() as int,
            )) =~= lit + s.subrange(i, s.len() as int));
        }
    } else {
        lemma_reassemble_from(s, i + 1, lit.push(s[i]));
        assert(lit.push(s[i]) + s.subrange(i + 1, s.len() as int) =~= lit + s.subrange(
            i,
            s.len() as int,
        ));
    }
}

/// Splitting a string attribute into interpolation parts loses
/// nothing: putting the parts back together (expressions inside
/// their braces) gives the original text.
pub proof fn lemma_interpolation_reassembles(s: Seq<char>)
    requires
        spec_interpolation(s) is Some,
    ensures
        reassemble(spec_interpolation(s)->0) == s,
{
    lemma_reassemble_from(s, 0, seq![]);
    assert(seq![] + s.subrange(0, s.len() as int) =~= s);
}

/// No literal part is empty, and no two literal parts are next to each
/// other.
pub open spec fn literals_separated(parts: Seq<SpecPart>) -> bool {
    &&& forall|k: int| 0 <= k < parts.len() ==> (#[trigger] parts[k] matches SpecPart::Literal(t) ==> t.len() > 0)
    &&& forall|k: int|
        0 <= k < parts.len() - 1 ==> !(#[trigger] parts[k] is Literal && parts[k + 1] is Literal)
}

proof fn lemma_interp_separated(s: Seq<char>, i: int, lit: Seq<char>)
    ensures
        literals_separated(interp_from(s, i, lit)),
    decreases s.len() - i,
{
    if i < 0 || i >= s.len() {
    } else if s[i] == '{' {
        let j = close_brace(s, i + 1, 1, None);
        if j >= s.len() || j <= i {
            lemma_interp_separated(s, i + 1, lit.push('{'));
        } else {
            lemma_interp_separated(s, j + 1, seq![]);
            let a = flush(lit) + seq![SpecPart::Expr(s.subrange(i + 1, j))];
            let b = interp_from(s, j + 1, seq![]);
            assert(interp_from(s, i, lit) == a + b);
            let r = a + b;
            assert forall|k: int| 0 <= k < r.len() implies (#[trigger] r[k] matches SpecPart::Literal(t) ==> t.len() > 0) by {
                if k >= a.len() {
                    assert(r[k] == b[k - a.len()]);
                }
            }
            assert forall|k: int| 0 <= k < r.len() - 1 implies !(#[trigger] r[k] is Literal && r[k + 1] is Literal) by {
                if k >= a.len() {
                    assert(r[k] == b[k - a.len()]);
                    assert(r[k + 1] == b[k + 1 - a.len()]);
                } else if k == a.len() - 1 {
                    assert(r[k] == a[k]);
                } else {
                    assert(r[k] == a[k]);
                    assert(r[k + 1] == a[k + 1]);
                }
            }
        }
    } else {
        lemma_interp_separated(s, i + 1, lit.push(s[i]));
    }
}

/// A string attribute splits into parts exactly when it holds a `{`;
/// then no literal part is empty and no two literal parts are adjacent
/// (literal text between expressions is one part).
pub proof fn lemma_interpolation_literals(s: Seq<char>)
    ensures
        spec_interpolation(s) is None <==> !s.contains('{'),
        spec_interpolation(s) matches Some(p) ==> literals_separated(p),
{
    lemma_interp_separated(s, 0, seq![]);
}

fn push_flushed(parts: &mut Vec<InterpPart>, lit: &mut Vec<char>)
    ensures
        parts_view(final(parts)@) == parts_view(old(parts)@) + flush(old(lit)@),
        final(lit)@ == Seq::<char>::empty(),
{
    if lit.len() > 0 {
        let l = string_of(lit);
        parts.push(InterpPart::Literal(l));
        assert(parts_view(parts@) =~= parts_view(old(parts)@) + flush(old(lit)@));
    } else {
        assert(parts_view(parts@) =~= parts_view(old(parts)@) + flush(old(lit)@));
    }
    *lit = Vec::new();
}

/// Split a string attribute at its `{…}` expressions. Returns `None`
/// when the text holds no `{` at all. An unterminated `{` is kept as
/// literal text.
pub fn parse_string_interpolation(text: &str) -> (r: Option<Vec<InterpPart>>)
    ensures
        r is Some <==> spec_interpolation(text@) is Some,
        r matches Some(v) ==> parts_view(v@) == spec_interpolation(text@)->0,
{
    let s = chars_of(text);
    let n = s.len();
    let mut has_open = false;
    let mut k: usize = 0;
    while k < n
        invariant
            n == s@.len(),
            k <= n,
            has_open == (exists|j: int| 0 <= j < k && s@[j] == '{'),
        decreases n - k,
    {
        if s[k] == '{' {
            has_open = true;
        }
        k += 1;
    }
    if !has_open {
        assert(!s@.contains('{'));
        return None;
    }
    assert(s@.contains('{'));
    let ghost target = interp_from(s@, 0, seq![]);
    let mut parts: Vec<InterpPart> = Vec::new();
    let mut lit: Vec<char> = Vec::new();
    let mut i: usize = 0;
    while i < n
        invariant
            n == s@.len(),
            i <= n,
            parts_view(parts@) + interp_from(s@, i as int, lit@) == target,
        decreases n - i,
    {
        if s[i] == '{' {
            let start = i + 1;
            let mut j: usize = start;
            let mut depth: usize = 1;
            let mut in_str: Option<char> = None;
            while j < n
                invariant
                    n == s@.len(),
                    start == i + 1,
                    start <= j <= n,
                    1 <= depth <= j,
                    close_brace(s@, j as int, depth as nat, in_str) == close_brace(
                        s@,
                        start as int,
                        1,
                        None,
                    ),
                ensures
                    j < n ==> close_brace(s@, start as int, 1, None) == j,
                    j >= n ==> close_brace(s@, start as int, 1, None) >= n,
                decreases n - j,
            {
                let b = s[j];
                match in_str {
                    Some(q) => {
                        if b == '\\' && j + 1 < n {
                            j += 2;
                            continue ;
                        }
                        if b == q {
                            in_str = None;
                        }
                    },
                    None => {
                        if b == '"' || b == '\'' {
                            in_str = Some(b);
                        } else if b == '{' {
                            depth += 1;
                        } else if b == '}' {
                            if depth == 1 {
                                break;
                            }
                            depth -= 1;
                        }
                    },
                }
                j += 1;
            }
            proof {
                lemma_close_brace_bounds(s@, start as int, 1, None);
            }
            if j >= n {
                lit.push('{');
                i = start;
                continue ;
            }
            let ghost prev = parts_view(parts@);
            let ghost old_lit = lit@;
            assert(interp_from(s@, i as int, old_lit) == flush(old_lit) + seq![
                SpecPart::Expr(s@.subrange(i + 1, j as int)),
            ] + interp_from(s@, j + 1, seq![]));
            push_flushed(&mut parts, &mut lit);
            let mut e: Vec<char> = Vec::new();
            let mut k2: usize = start;
            while k2 < j
                invariant
                    start <= k2 <= j < n,
                    n == s@.len(),
                    e@ == s@.subrange(start as int, k2 as int),
                decreases j - k2,
            {
                e.push(s[k2]);
                k2 += 1;
                assert(e@ =~= s@.subrange(start as int, k2 as int));
            }
            let es = string_of(&e);
            let ghost mid = parts_view(parts@);
            parts.push(InterpPart::Expr(es));
            assert(parts_view(parts@) =~= mid + seq![SpecPart::Expr(s@.subrange(i + 1, j as int))]);
            assert(lit@ =~= Seq::<char>::empty());
            i = j + 1;
        } else {
            lit.push(s[i]);
            i += 1;
        }
    }
    push_flushed(&mut parts, &mut lit);
    assert(parts_view(parts@) =~= target);
    Some(parts)
}

} // verus!
