//! Event attribute names: `on_click.stop.enter` modifier suffixes and
//! the keyboard keys a modifier may filter on.
use vstd::prelude::*;

use crate::strings::{chars_of, contains_chars, contains_seq, str_eq, string_of};

verus! {

/// The index of the first `.` at or after `i` (or `s.len()`).
pub open spec fn first_dot(s: Seq<char>, i: int) -> int
    decreases s.len() - i,
{
    if i < 0 || i >= s.len() {
        s.len() as int
    } else if s[i] == '.' {
        i
    } else {
        first_dot(s, i + 1)
    }
}

/// `str::split('.')`.
pub open spec fn split_on_dot(s: Seq<char>) -> Seq<Seq<char>>
    decreases s.len(),
{
    let k = first_dot(s, 0);
    if k < 0 || k >= s.len() {
        seq![s]
    } else {
        seq![s.subrange(0, k)] + split_on_dot(s.subrange(k + 1, s.len() as int))
    }
}

/// Pieces joined back with `.` separators.
pub open spec fn join_with_dot(parts: Seq<Seq<char>>) -> Seq<char>
    decreases parts.len(),
{
    if parts.len() == 0 {
        seq![]
    } else if parts.len() == 1 {
        parts[0]
    } else {
        parts[0] + seq!['.'] + join_with_dot(parts.drop_first())
    }
}

/// What `split_event_modifiers` returns for a name: the part before
/// the first dot and the dot-separated modifiers after it, unless there
/// is no dot, nothing after it, or an empty modifier.
pub open spec fn spec_split_event_modifiers(s: Seq<char>) -> Option<(Seq<char>, Seq<Seq<char>>)> {
    let k = first_dot(s, 0);
    if k >= s.len() {
        None
    } else {
        let rest = s.subrange(k + 1, s.len() as int);
        if rest.len() == 0 || contains_seq(rest, seq!['.', '.']) || rest[0] == '.' || rest.last()
            == '.' {
            None
        } else {
            Some((s.subrange(0, k), split_on_dot(rest)))
        }
    }
}

proof fn lemma_first_dot(s: Seq<char>, i: int)
    requires
        0 <= i <= s.len(),
    ensures
        i <= first_dot(s, i) <= s.len(),
        first_dot(s, i) < s.len() ==> s[first_dot(s, i)] == '.',
        forall|j: int| i <= j < first_dot(s, i) ==> s[j] != '.',
    decreases s.len() - i,
{
    if i < s.len() && s[i] != '.' {
        lemma_first_dot(s, i + 1);
    }
}

proof fn lemma_join_split(s: Seq<char>)
    ensures
        join_with_dot(split_on_dot(s)) == s,
        split_on_dot(s).len() >= 1,
    decreases s.len(),
{
    lemma_first_dot(s, 0);
    let k = first_dot(s, 0);
    if k < s.len() {
        let tail = s.subrange(k + 1, s.len() as int);
        lemma_join_split(tail);
        let parts = split_on_dot(s);
        assert(parts.drop_first() =~= split_on_dot(tail));
        assert(s.subrange(0, k) + seq!['.'] + tail =~= s);
    }
}

/// Splitting an event name loses nothing: the base, a dot, and the
/// modifiers joined by dots give back the name, and no modifier is
/// empty or holds a dot.
pub proof fn lemma_event_modifiers_roundtrip(s: Seq<char>)
    requires
        spec_split_event_modifiers(s) is Some,
    ensures
        ({
            let (base, mods) = spec_split_event_modifiers(s)->0;
            &&& base + seq!['.'] + join_with_dot(mods) == s
            &&& !base.contains('.')
        }),
{
    lemma_first_dot(s, 0);
    let k = first_dot(s, 0);
    let rest = s.subrange(k + 1, s.len() as int);
    lemma_join_split(rest);
    assert(s.subrange(0, k) + seq!['.'] + rest =~= s);
}

fn first_dot_exec(s: &[char], i: usize) -> (k: usize)
    requires
        i <= s@.len(),
    ensures
        k == first_dot(s@, i as int),
{
    let mut k = i;
    while k < s.len() && s[k] != '.'
        invariant
            i <= k <= s@.len(),
            first_dot(s@, k as int) == first_dot(s@, i as int),
        decreases s.len() - k,
    {
        k += 1;
    }
    k
}

pub fn sub_vec(s: &[char], a: usize, b: usize) -> (r: Vec<char>)
    requires
        a <= b <= s@.len(),
    ensures
        r@ == s@.subrange(a as int, b as int),
{
    let mut r: Vec<char> = Vec::new();
    let mut k = a;
    while k < b
        invariant
            a <= k <= b <= s@.len(),
            r@ == s@.subrange(a as int, k as int),
        decreases b - k,
    {
        r.push(s[k]);
        k += 1;
        assert(r@ =~= s@.subrange(a as int, k as int));
    }
    r
}

pub open spec fn strings_view(v: Seq<String>) -> Seq<Seq<char>> {
    v.map_values(|s: String| s@)
}

fn split_dot_exec(s: &[char]) -> (r: Vec<String>)
    ensures
        strings_view(r@) == split_on_dot(s@),
{
    let mut out: Vec<String> = Vec::new();
    let mut start: usize = 0;
    let ghost whole = s@;
    assert(s@.subrange(0, s@.len() as int) =~= s@);
    loop
        invariant
            start <= s@.len(),
            whole == s@,
            strings_view(out@) + split_on_dot(s@.subrange(start as int, s@.len() as int))
                == split_on_dot(s@),
        decreases s@.len() - start,
    {
        let ghost t = s@.subrange(start as int, s@.len() as int);
        let k = first_dot_exec(s, start);
        proof {
            lemma_first_dot(s@, start as int);
            lemma_first_dot(t, 0);
            assert forall|j: int| 0 <= j <= t.len() implies first_dot(t, j) == first_dot(
                s@,
                start + j,
            ) - start by {
                lemma_first_dot_shift(s@, start as int, j);
            }
        }
        let piece = sub_vec(s, start, k);
        let ps = string_of(&piece);
        let ghost before = strings_view(out@);
        out.push(ps);
        assert(strings_view(out@) =~= before.push(piece@));
        if k >= s.len() {
            assert(split_on_dot(t) == seq![t]);
            assert(piece@ =~= t);
            assert(strings_view(out@) =~= before + split_on_dot(t));
            return out;
        }
        assert(t.subrange(0, k - start) =~= piece@);
        assert(t.subrange(k - start + 1, t.len() as int) =~= s@.subrange(k + 1, s@.len() as int));
        start = k + 1;
    }
}

proof fn lemma_first_dot_shift(s: Seq<char>, start: int, j: int)
    requires
        0 <= start <= s.len(),
        0 <= j <= s.len() - start,
    ensures
        first_dot(s.subrange(start, s.len() as int), j) == first_dot(s, start + j) - start,
    decreases s.len() - start - j,
{
    let t = s.subrange(start, s.len() as int);
    if j < t.len() && t[j] != '.' {
        lemma_first_dot_shift(s, start, j + 1);
    }
}

/// Split an attribute name like `on_click.stop.enter` into
/// `("on_click", ["stop", "enter"])`. Returns `None` for names without
/// a dot, with nothing after the dot, or with an empty modifier
/// (`a..b`, `a.b.`).
pub fn split_event_modifiers(name: &str) -> (r: Option<(String, Vec<String>)>)
    ensures
        r is Some <==> spec_split_event_modifiers(name@) is Some,
        r matches Some((base, mods)) ==> ({
            let (b, m) = spec_split_event_modifiers(name@)->0;
            base@ == b && strings_view(mods@) == m
        }),
{
    let s = chars_of(name);
    let k = first_dot_exec(&s, 0);
    if k >= s.len() {
        return None;
    }
    let rest = sub_vec(&s, k + 1, s.len());
    if rest.len() == 0 {
        return None;
    }
    let dd = ['.', '.'];
    assert(dd@ =~= seq!['.', '.']);
    if contains_chars(&rest, &dd) || rest[0] == '.' || rest[rest.len() - 1] == '.' {
        return None;
    }
    let base = sub_vec(&s, 0, k);
    let mods = split_dot_exec(&rest);
    Some((string_of(&base), mods))
}

/// Whether `name` is a key name a keyboard event modifier may filter
/// on (`enter`, the arrows, `f1`..`f12`, …).
pub open spec fn spec_is_known_key(name: Seq<char>) -> bool {
    name == "enter"@ || name == "escape"@ || name == "tab"@ || name == "space"@ || name
        == "backspace"@ || name == "delete"@ || name == "up"@ || name == "down"@ || name
        == "left"@ || name == "right"@ || name == "home"@ || name == "end"@ || name == "pageup"@
        || name == "pagedown"@ || name == "f1"@ || name == "f2"@ || name == "f3"@ || name
        == "f4"@ || name == "f5"@ || name == "f6"@ || name == "f7"@ || name == "f8"@ || name
        == "f9"@ || name == "f10"@ || name == "f11"@ || name == "f12"@
}

/// Whether `name` is a key a keyboard event modifier may filter on.
pub fn is_known_key_filter(name: &str) -> (b: bool)
    ensures
        b == spec_is_known_key(name@),
{
    str_eq(name, "enter") || str_eq(name, "escape") || str_eq(name, "tab") || str_eq(name, "space")
        || str_eq(name, "backspace") || str_eq(name, "delete") || str_eq(name, "up") || str_eq(
        name,
        "down",
    ) || str_eq(name, "left") || str_eq(name, "right") || str_eq(name, "home") || str_eq(
        name,
        "end",
    ) || str_eq(name, "pageup") || str_eq(name, "pagedown") || str_eq(name, "f1") || str_eq(
        name,
        "f2",
    ) || str_eq(name, "f3") || str_eq(name, "f4") || str_eq(name, "f5") || str_eq(name, "f6")
        || str_eq(name, "f7") || str_eq(name, "f8") || str_eq(name, "f9") || str_eq(name, "f10")
        || str_eq(name, "f11") || str_eq(name, "f12")
}

} // verus!
