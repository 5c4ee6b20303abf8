//! "Did you mean …?" suggestions for unknown tags and attributes.
use vstd::prelude::*;
use vstd::string::StringSliceAdditionalSpecFns;

use crate::strings::{chars_of, starts_with};

verus! {

/// The Damerau-Levenshtein distance (optimal string alignment) between
/// `a[..i]` and `b[..j]`: insertions, deletions and substitutions cost
/// 1, and so does swapping two adjacent characters
/// (`a[i-2..i] == rev(b[j-2..j])`, from cell `(i - 2, j - 2)`).
pub open spec fn osa(a: Seq<char>, b: Seq<char>, i: int, j: int) -> int
    decreases i + j,
{
    if i <= 0 {
        if j <= 0 { 0 } else { j }
    } else if j <= 0 {
        i
    } else {
        let cost: int = if a[i - 1] == b[j - 1] { 0 } else { 1 };
        let d1 = osa(a, b, i - 1, j) + 1;
        let d2 = osa(a, b, i, j - 1) + 1;
        let d3 = osa(a, b, i - 1, j - 1) + cost;
        let m12 = if d1 <= d2 { d1 } else { d2 };
        let m = if m12 <= d3 { m12 } else { d3 };
        if i > 1 && j > 1 && a[i - 1] == b[j - 2] && a[i - 2] == b[j - 1] {
            let t = osa(a, b, i - 2, j - 2) + 1;
            if m <= t { m } else { t }
        } else {
            m
        }
    }
}

/// Edit distance between two character sequences.
pub open spec fn spec_edit_distance(a: Seq<char>, b: Seq<char>) -> int {
    osa(a, b, a.len() as int, b.len() as int)
}

proof fn lemma_osa_bounds(a: Seq<char>, b: Seq<char>, i: int, j: int)
    requires
        0 <= i,
        0 <= j,
    ensures
        0 <= osa(a, b, i, j),
        osa(a, b, i, j) <= i || osa(a, b, i, j) <= j,
    decreases i + j,
{
    if i > 0 && j > 0 {
        lemma_osa_bounds(a, b, i - 1, j);
        lemma_osa_bounds(a, b, i, j - 1);
        lemma_osa_bounds(a, b, i - 1, j - 1);
        if i > 1 && j > 1 {
            lemma_osa_bounds(a, b, i - 2, j - 2);
        }
    }
}

/// A string is at distance 0 from itself.
pub proof fn lemma_osa_self(a: Seq<char>, i: int)
    requires
        0 <= i <= a.len(),
    ensures
        osa(a, a, i, i) == 0,
    decreases i,
{
    if i > 0 {
        lemma_osa_self(a, i - 1);
        lemma_osa_bounds(a, a, i - 1, i);
        lemma_osa_bounds(a, a, i, i - 1);
        if i > 1 {
            lemma_osa_bounds(a, a, i - 2, i - 2);
        }
    }
}

/// Distance 0 only between equal prefixes.
proof fn lemma_osa_zero(a: Seq<char>, b: Seq<char>, i: int, j: int)
    requires
        0 <= i <= a.len(),
        0 <= j <= b.len(),
        osa(a, b, i, j) == 0,
    ensures
        i == j,
        a.take(i) == b.take(j),
    decreases i + j,
{
    if i > 0 && j > 0 {
        lemma_osa_bounds(a, b, i - 1, j);
        lemma_osa_bounds(a, b, i, j - 1);
        lemma_osa_bounds(a, b, i - 1, j - 1);
        if i > 1 && j > 1 {
            lemma_osa_bounds(a, b, i - 2, j - 2);
        }
        lemma_osa_zero(a, b, i - 1, j - 1);
        assert(a.take(i) =~= a.take(i - 1).push(a[i - 1]));
        assert(b.take(j) =~= b.take(j - 1).push(b[j - 1]));
    } else {
        assert(a.take(i) =~= b.take(j));
    }
}

/// The edit distance is zero exactly between equal strings.
pub proof fn lemma_edit_distance_zero_iff_equal(a: Seq<char>, b: Seq<char>)
    ensures
        spec_edit_distance(a, b) == 0 <==> a == b,
{
    if a == b {
        lemma_osa_self(a, a.len() as int);
    }
    if spec_edit_distance(a, b) == 0 {
        lemma_osa_zero(a, b, a.len() as int, b.len() as int);
        assert(a.take(a.len() as int) =~= a);
        assert(b.take(b.len() as int) =~= b);
    }
}

proof fn lemma_osa_symmetric(a: Seq<char>, b: Seq<char>, i: int, j: int)
    ensures
        osa(a, b, i, j) == osa(b, a, j, i),
    decreases i + j,
{
    if i > 0 && j > 0 {
        lemma_osa_symmetric(a, b, i - 1, j);
        lemma_osa_symmetric(a, b, i, j - 1);
        lemma_osa_symmetric(a, b, i - 1, j - 1);
        if i > 1 && j > 1 {
            lemma_osa_symmetric(a, b, i - 2, j - 2);
        }
    }
}

proof fn lemma_osa_lower(a: Seq<char>, b: Seq<char>, i: int, j: int)
    requires
        0 <= i,
        0 <= j,
    ensures
        osa(a, b, i, j) >= i - j,
        osa(a, b, i, j) >= j - i,
    decreases i + j,
{
    if i > 0 && j > 0 {
        lemma_osa_lower(a, b, i - 1, j);
        lemma_osa_lower(a, b, i, j - 1);
        lemma_osa_lower(a, b, i - 1, j - 1);
        if i > 1 && j > 1 {
            lemma_osa_lower(a, b, i - 2, j - 2);
        }
    }
}

/// The edit distance is symmetric, lies between the difference of the
/// lengths and the larger length, and is a string's length from the
/// empty string.
pub proof fn lemma_edit_distance_laws(a: Seq<char>, b: Seq<char>)
    ensures
        spec_edit_distance(a, b) == spec_edit_distance(b, a),
        spec_edit_distance(a, seq![]) == a.len(),
        a.len() - b.len() <= spec_edit_distance(a, b),
        b.len() - a.len() <= spec_edit_distance(a, b),
        spec_edit_distance(a, b) <= a.len() || spec_edit_distance(a, b) <= b.len(),
{
    lemma_osa_symmetric(a, b, a.len() as int, b.len() as int);
    lemma_osa_lower(a, b, a.len() as int, b.len() as int);
    lemma_osa_bounds(a, b, a.len() as int, b.len() as int);
}

fn edit_distance_chars(a: &[char], b: &[char]) -> (d: usize)
    ensures
        d == spec_edit_distance(a@, b@),
{
    let n = a.len();
    let m = b.len();
    if n == 0 {
        return m;
    }
    if m == 0 {
        return n;
    }
    let mut prev: Vec<usize> = Vec::new();
    let mut curr: Vec<usize> = Vec::new();
    let mut k: usize = 0;
    while k < m
        invariant
            m == b@.len(),
            k <= m,
            prev@.len() == k,
            curr@.len() == k,
            forall|x: int| 0 <= x < k ==> prev@[x] == osa(a@, b@, 0, x),
        decreases m - k,
    {
        prev.push(k);
        curr.push(0);
        k += 1;
    }
    prev.push(m);
    curr.push(0);
    let mut prev2: Vec<usize> = Vec::new();
    let mut k2: usize = 0;
    while k2 < prev.len()
        invariant
            prev@.len() == m + 1,
            k2 <= m + 1,
            prev2@.len() == k2,
        decreases m + 1 - k2,
    {
        prev2.push(0);
        k2 += 1;
    }
    let mut r: usize = 0;
    while r < n
        invariant
            m == b@.len(),
            n == a@.len(),
            m >= 1,
            r <= n,
            prev@.len() == m + 1,
            curr@.len() == m + 1,
            prev2@.len() == m + 1,
            forall|x: int| 0 <= x <= m ==> prev@[x] == osa(a@, b@, r as int, x),
            r >= 1 ==> forall|x: int| 0 <= x <= m ==> prev2@[x] == osa(a@, b@, r - 1, x),
        decreases n - r,
    {
        let i = r + 1;
        curr.set(0, i);
        let mut c: usize = 0;
        while c < m
            invariant
                m == b@.len(),
                n == a@.len(),
                i == r + 1,
                1 <= i <= n,
                c <= m,
                prev@.len() == m + 1,
                curr@.len() == m + 1,
                prev2@.len() == m + 1,
                forall|x: int| 0 <= x <= m ==> prev@[x] == osa(a@, b@, i - 1, x),
                i >= 2 ==> forall|x: int| 0 <= x <= m ==> prev2@[x] == osa(a@, b@, i - 2, x),
                forall|x: int| 0 <= x <= c ==> curr@[x] == osa(a@, b@, i as int, x),
            decreases m - c,
        {
            let j = c + 1;
            proof {
                lemma_osa_bounds(a@, b@, i - 1, j as int);
                lemma_osa_bounds(a@, b@, i as int, j - 1);
                lemma_osa_bounds(a@, b@, i - 1, j - 1);
                lemma_osa_bounds(a@, b@, i as int, j as int);
                if j > 1 && i > 1 {
                    lemma_osa_bounds(a@, b@, i - 2, j - 2);
                }
            }
            let cost: usize = if a[i - 1] == b[j - 1] { 0 } else { 1 };
            let d1 = prev[j].saturating_add(1);
            let d2 = curr[j - 1].saturating_add(1);
            let d3 = prev[j - 1].saturating_add(cost);
            let m12 = if d1 <= d2 { d1 } else { d2 };
            let mut v = if m12 <= d3 { m12 } else { d3 };
            if i > 1 && j > 1 && a[i - 1] == b[j - 2] && a[i - 2] == b[j - 1] {
                let t = prev2[j - 2].saturating_add(1);
                if t < v {
                    v = t;
                }
            }
            curr.set(j, v);
            c += 1;
        }
        std::mem::swap(&mut prev2, &mut prev);
        std::mem::swap(&mut prev, &mut curr);
        r += 1;
    }
    prev[m]
}

/// `u8::to_ascii_lowercase` on characters.
pub open spec fn lower_char(c: char) -> char {
    if 'A' <= c <= 'Z' {
        ((c as u32) + 32) as char
    } else {
        c
    }
}

/// `str::to_ascii_lowercase`.
pub open spec fn lower(s: Seq<char>) -> Seq<char> {
    s.map_values(|c: char| lower_char(c))
}

pub(crate) fn lower_chars(s: &str) -> (r: Vec<char>)
    ensures
        r@ == lower(s@),
{
    let v = chars_of(s);
    let mut r: Vec<char> = Vec::new();
    let mut k: usize = 0;
    while k < v.len()
        invariant
            k <= v@.len(),
            v@ == s@,
            r@ == lower(v@).take(k as int),
        decreases v.len() - k,
    {
        let c = v[k];
        let lc = if 'A' <= c && c <= 'Z' {
            let u: u8 = ((c as u32) + 32) as u8;
            u as char
        } else {
            c
        };
        r.push(lc);
        k += 1;
        assert(r@ =~= lower(v@).take(k as int));
    }
    assert(lower(v@).take(v@.len() as int) =~= lower(v@));
    r
}

} // verus!

verus! {

/// Edit distance between two strings, over characters.
pub fn edit_distance(a: &str, b: &str) -> (d: usize)
    ensures
        d == spec_edit_distance(a@, b@),
{
    let av = chars_of(a);
    let bv = chars_of(b);
    edit_distance_chars(&av, &bv)
}

/// How far candidate `c` is from the name `n` (both lower-cased): a
/// prefix relation in either direction counts as 1.
pub open spec fn suggestion_distance(n: Seq<char>, c: Seq<char>) -> int {
    if starts_with(c, n) || starts_with(n, c) {
        1
    } else {
        spec_edit_distance(n, c)
    }
}

/// The largest distance still worth suggesting for a name of
/// `byte_len` bytes (its length in UTF-8).
pub open spec fn suggestion_threshold(byte_len: nat) -> int {
    if byte_len / 2 >= 2 {
        (byte_len / 2) as int
    } else {
        2
    }
}

/// Among the first `k` candidates, the index of the first one with the
/// smallest distance within the threshold.
pub open spec fn best_upto(n: Seq<char>, cands: Seq<Seq<char>>, thr: int, k: int) -> Option<int>
    decreases k,
{
    if k <= 0 {
        None
    } else {
        let prev = best_upto(n, cands, thr, k - 1);
        let d = suggestion_distance(n, lower(cands[k - 1]));
        if d <= thr && (prev is None || d < suggestion_distance(n, lower(cands[prev->0]))) {
            Some(k - 1)
        } else {
            prev
        }
    }
}

pub open spec fn cands_view(c: Seq<&str>) -> Seq<Seq<char>> {
    c.map_values(|s: &str| s@)
}

/// The candidate `did_you_mean` suggests for `name`, as an index.
pub open spec fn spec_did_you_mean(name: Seq<char>, cands: Seq<Seq<char>>) -> Option<int> {
    best_upto(lower(name), cands, suggestion_threshold(crate::strings::utf8_len(name)), cands.len() as int)
}

proof fn lemma_best_in_range(n: Seq<char>, cands: Seq<Seq<char>>, thr: int, k: int)
    ensures
        best_upto(n, cands, thr, k) matches Some(x) ==> 0 <= x < k,
    decreases k,
{
    if k > 0 {
        lemma_best_in_range(n, cands, thr, k - 1);
    }
}

/// The distance of the `j`th candidate from the lower-cased name `n`.
pub open spec fn cand_distance(n: Seq<char>, cands: Seq<Seq<char>>, j: int) -> int {
    suggestion_distance(n, lower(cands[j]))
}

proof fn lemma_best_upto_first_min(n: Seq<char>, cands: Seq<Seq<char>>, thr: int, k: int)
    requires
        0 <= k <= cands.len(),
    ensures
        best_upto(n, cands, thr, k) is None <==> forall|j: int| 0 <= j < k ==> #[trigger] cand_distance(n, cands, j) > thr,
        best_upto(n, cands, thr, k) matches Some(x) ==> {
            &&& 0 <= x < k
            &&& cand_distance(n, cands, x) <= thr
            &&& forall|j: int| 0 <= j < k ==> cand_distance(n, cands, x) <= #[trigger] cand_distance(n, cands, j)
            &&& forall|j: int| 0 <= j < x ==> cand_distance(n, cands, x) < #[trigger] cand_distance(n, cands, j)
        },
    decreases k,
{
    if k > 0 {
        lemma_best_upto_first_min(n, cands, thr, k - 1);
        let prev = best_upto(n, cands, thr, k - 1);
        let d = cand_distance(n, cands, k - 1);
        assert(d == suggestion_distance(n, lower(cands[k - 1])));
        if prev is Some {
            let x = prev->0;
            assert(cand_distance(n, cands, x) == suggestion_distance(n, lower(cands[x])));
        }
    }
}

/// `did_you_mean` picks the first candidate at the smallest distance,
/// provided that distance is within the threshold, and nothing exactly
/// when every candidate is farther than the threshold.
pub proof fn lemma_did_you_mean_first_min(name: Seq<char>, cands: Seq<Seq<char>>)
    ensures
        ({
            let n = lower(name);
            let thr = suggestion_threshold(crate::strings::utf8_len(name));
            &&& spec_did_you_mean(name, cands) is None <==> forall|j: int|
                0 <= j < cands.len() ==> #[trigger] cand_distance(n, cands, j) > thr
            &&& spec_did_you_mean(name, cands) matches Some(x) ==> {
                &&& 0 <= x < cands.len()
                &&& cand_distance(n, cands, x) <= thr
                &&& forall|j: int| 0 <= j < cands.len() ==> cand_distance(n, cands, x) <= #[trigger] cand_distance(n, cands, j)
                &&& forall|j: int| 0 <= j < x ==> cand_distance(n, cands, x) < #[trigger] cand_distance(n, cands, j)
            }
        }),
{
    lemma_best_upto_first_min(
        lower(name),
        cands,
        suggestion_threshold(crate::strings::utf8_len(name)),
        cands.len() as int,
    );
}

fn prefix_related(n: &[char], c: &[char]) -> (b: bool)
    ensures
        b == (starts_with(c@, n@) || starts_with(n@, c@)),
{
    crate::strings::starts_with_chars(c, n) || crate::strings::starts_with_chars(n, c)
}

/// Suggest the candidate closest to `name` (ASCII case-insensitively):
/// the first one with the smallest distance, provided that distance is
/// at most half the name's length (and at least 2). A candidate that
/// is a prefix of the name, or has it as a prefix, is at distance 1.
pub fn did_you_mean<'a>(name: &str, candidates: &[&'a str]) -> (r: Option<&'a str>)
    ensures
        r is Some <==> spec_did_you_mean(name@, cands_view(candidates@)) is Some,
        r matches Some(c) ==> 0 <= spec_did_you_mean(name@, cands_view(candidates@))->0
            < candidates@.len() && c == candidates@[spec_did_you_mean(
            name@,
            cands_view(candidates@),
        )->0],
{
    let nl = lower_chars(name);
    let half = crate::strings::utf8_byte_len(name) / 2;
    let threshold: u128 = if half >= 2 { half } else { 2 };
    let ghost thr = suggestion_threshold(crate::strings::utf8_len(name@));
    assert(threshold == thr);
    let ghost cv = cands_view(candidates@);
    let mut best: Option<(usize, usize)> = None;
    let mut k: usize = 0;
    while k < candidates.len()
        invariant
            k <= candidates@.len(),
            cv == cands_view(candidates@),
            nl@ == lower(name@),
            threshold == thr,
            match best {
                None => best_upto(nl@, cv, thr, k as int) is None,
                Some((x, d)) => best_upto(nl@, cv, thr, k as int) == Some(x as int) && x < k && d
                    == suggestion_distance(nl@, lower(cv[x as int])),
            },
        decreases candidates.len() - k,
    {
        let c: &str = candidates[k];
        let lc = lower_chars(c);
        assert(cv[k as int] == c@);
        let dist: usize = if prefix_related(&nl, &lc) {
            1
        } else {
            edit_distance_chars(&nl, &lc)
        };
        let better = match best {
            None => true,
            Some((_, d)) => dist < d,
        };
        if (dist as u128) <= threshold && better {
            best = Some((k, dist));
        }
        k += 1;
    }
    match best {
        None => None,
        Some((x, _)) => Some(candidates[x]),
    }
}

} // verus!
