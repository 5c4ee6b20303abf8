//! The schema generator's run around the extraction: the order in which
//! the headless modules are read, the name a module's path gives, the
//! notes that block the generated table, and whether a checked-in table
//! has drifted from a fresh one.
use vstd::prelude::*;

use crate::overrides::{entries_view, lex_lt, lemma_lex_total, lemma_lex_transitive, str_less};
use crate::schemagen::Extracted;
use crate::strings::{chars_of, chars_eq, trim, trim_chars};

verus! {

broadcast use vstd::seq_lib::to_multiset_build, vstd::seq_lib::to_multiset_insert;

/// Ordered by key, equal keys in any order.
pub open spec fn keys_sorted<T>(v: Seq<(String, T)>) -> bool {
    forall|i: int, j: int| 0 <= i < j < v.len() ==> !lex_lt(#[trigger] v[j].0@, #[trigger] v[i].0@)
}

/// Sorts `(key, payload)` pairs by key (equal keys keep their order):
/// the headless modules are read in the order of their module paths.
pub fn sort_by_key<T>(items: Vec<(String, T)>) -> (r: Vec<(String, T)>)
    ensures
        keys_sorted(r@),
        r@.to_multiset() == items@.to_multiset(),
{
    let ghost src = items@;
    let mut items = items;
    let mut acc: Vec<(String, T)> = Vec::new();
    let n = items.len();
    let mut k: usize = 0;
    assert(src.take(0) =~= Seq::<(String, T)>::empty());
    assert(items@ =~= src.skip(0));
    while k < n
        invariant
            k <= n,
            n == src.len(),
            items@ == src.skip(k as int),
            keys_sorted(acc@),
            acc@.to_multiset() == src.take(k as int).to_multiset(),
        decreases n - k,
    {
        let x = items.remove(0);
        assert(items@ =~= src.skip(k + 1));
        assert(src.take(k + 1) =~= src.take(k as int).push(x));
        let mut j: usize = 0;
        while j < acc.len() && !str_less(x.0.as_str(), acc[j].0.as_str())
            invariant
                j <= acc@.len(),
                forall|i: int| 0 <= i < j ==> !lex_lt(x.0@, #[trigger] acc@[i].0@),
            decreases acc.len() - j,
        {
            j += 1;
        }
        let ghost av = acc@;
        proof {
            let nv = av.insert(j as int, x);
            assert forall|a: int, b: int| 0 <= a < b < nv.len() implies !lex_lt(
                #[trigger] nv[b].0@,
                #[trigger] nv[a].0@,
            ) by {
                if b < j {
                    assert(nv[a] == av[a] && nv[b] == av[b]);
                } else if b == j {
                    assert(nv[a] == av[a]);
                } else if a == j {
                    assert(nv[b] == av[b - 1]);
                    assert(lex_lt(x.0@, av[j as int].0@));
                    if lex_lt(av[b - 1].0@, x.0@) {
                        lemma_lex_transitive(av[b - 1].0@, x.0@, av[j as int].0@);
                        if b - 1 == j {
                            lemma_lex_total(av[j as int].0@, av[j as int].0@);
                        }
                    }
                } else if a < j {
                    assert(nv[a] == av[a] && nv[b] == av[b - 1]);
                } else {
                    assert(nv[a] == av[a - 1] && nv[b] == av[b - 1]);
                }
            }
        }
        acc.insert(j, x);
        k += 1;
    }
    assert(src.take(n as int) =~= src);
    acc
}

/// The module name a module path gives: what follows its last `::`.
pub fn module_name_of(mod_path: &str) -> (r: String)
    ensures
        r@ == crate::render::last_segment(mod_path@),
{
    crate::render::last_segment_of(mod_path)
}

/// The prefix of a note that blocks the generated table.
pub open spec fn review_mark() -> Seq<char> {
    "review needed:"@
}

/// Every `(tag, note)` whose note asks for a review, entry by entry and
/// note by note.
pub open spec fn review_notes(es: Seq<crate::schemagen::SExtracted>) -> Seq<(Seq<char>, Seq<char>)>
    decreases es.len(),
{
    if es.len() == 0 {
        seq![]
    } else {
        review_notes(es.drop_last()) + review_of(es.last().tag, es.last().notes)
    }
}

/// The notes of one entry that ask for a review, with its tag.
pub open spec fn review_of(tag: Seq<char>, notes: Seq<Seq<char>>) -> Seq<(Seq<char>, Seq<char>)>
    decreases notes.len(),
{
    if notes.len() == 0 {
        seq![]
    } else {
        review_of(tag, notes.drop_last()) + if crate::strings::starts_with(notes.last(), review_mark()) {
            seq![(tag, notes.last())]
        } else {
            seq![]
        }
    }
}

/// The `(tag, note)` pairs whose note asks for a review; the table is
/// not written while there are any.
pub fn review_needed(entries: &[Extracted]) -> (r: Vec<(String, String)>)
    ensures
        crate::schemagen::pairs_view(r@) == review_notes(entries_view(entries@)),
{
    let ghost es = entries_view(entries@);
    let mark = chars_of("review needed:");
    let mut out: Vec<(String, String)> = Vec::new();
    let mut i: usize = 0;
    assert(es.take(0) =~= Seq::<crate::schemagen::SExtracted>::empty());
    while i < entries.len()
        invariant
            i <= entries@.len(),
            es == entries_view(entries@),
            mark@ == review_mark(),
            crate::schemagen::pairs_view(out@) == review_notes(es.take(i as int)),
        decreases entries.len() - i,
    {
        assert(es.take(i + 1).drop_last() =~= es.take(i as int));
        assert(es.take(i + 1).last() == entries@[i as int]@);
        let ghost base = crate::schemagen::pairs_view(out@);
        let e = &entries[i];
        let ghost nv = crate::schemagen::strs_view(e.notes@);
        let mut k: usize = 0;
        assert(nv.take(0) =~= Seq::<Seq<char>>::empty());
        assert(base + review_of(e.tag@, nv.take(0)) =~= base);
        while k < e.notes.len()
            invariant
                k <= e.notes@.len(),
                nv == crate::schemagen::strs_view(e.notes@),
                mark@ == review_mark(),
                crate::schemagen::pairs_view(out@) == base + review_of(e.tag@, nv.take(k as int)),
            decreases e.notes.len() - k,
        {
            assert(nv.take(k + 1).drop_last() =~= nv.take(k as int));
            assert(nv.take(k + 1).last() == e.notes@[k as int]@);
            let ghost pre = crate::schemagen::pairs_view(out@);
            let note = chars_of(e.notes[k].as_str());
            if crate::strings::starts_with_chars(note.as_slice(), mark.as_slice()) {
                out.push((e.tag.clone(), e.notes[k].clone()));
                assert(crate::schemagen::pairs_view(out@) =~= pre + seq![(e.tag@, e.notes@[k as int]@)]);
            } else {
                assert(pre + Seq::<(Seq<char>, Seq<char>)>::empty() =~= pre);
            }
            k += 1;
        }
        assert(nv.take(e.notes@.len() as int) =~= nv);
        i += 1;
    }
    assert(es.take(entries@.len() as int) =~= es);
    out
}

/// Whether a checked-in table differs from a freshly generated one,
/// surrounding whitespace aside.
pub fn schema_drifted(existing: &str, generated: &str) -> (r: bool)
    ensures
        r == (trim(existing@) != trim(generated@)),
{
    let a = chars_of(existing);
    let b = chars_of(generated);
    let ta = trim_chars(a.as_slice());
    let tb = trim_chars(b.as_slice());
    !chars_eq(ta.as_slice(), tb.as_slice())
}

} // verus!
