//! Style attributes: what a container accepts, the style pass-through
//! of leaves, and the "did you mean" hints for unknown attributes.
use vstd::prelude::*;

use crate::ast::{AstAttribute, SAttr};
use crate::diagnostics::{cands_view, did_you_mean, spec_did_you_mean};
use crate::emit::{push_str_lit, res_view, spec_ts, str_lit, ts};
use crate::error::{serr, SError, XmlError, XmlErrorKind};
use crate::events::strings_view;
use crate::schema::{
    is_known_shorthand_method, is_spacing_prefix, is_spacing_shorthand, is_valid_spacing_suffix,
    numeric_suffixes, spacing_prefixes, spec_is_known_shorthand, spec_is_spacing_shorthand,
    textual_suffixes, ContainerDef, LeafDef,
};
use crate::strings::{chars_of, matches_at, occurs_at, str_eq, string_of, trim, trim_chars};
use crate::values::{attr_value_tokens, cat3, join_comma, spec_attr_value, ticked};

verus! {

/// The first position at or after `i` where `p` occurs in `s`, or the
/// length of `s`.
pub open spec fn first_occ(s: Seq<char>, p: Seq<char>, i: int) -> int
    decreases s.len() - i,
{
    if i < 0 || i >= s.len() || i + p.len() > s.len() {
        s.len() as int
    } else if occurs_at(s, p, i) {
        i
    } else {
        first_occ(s, p, i + 1)
    }
}

/// `str::split` with a non-empty separator.
pub open spec fn split_by(s: Seq<char>, p: Seq<char>) -> Seq<Seq<char>>
    decreases s.len(),
{
    let k = first_occ(s, p, 0);
    if p.len() == 0 || k < 0 || k >= s.len() {
        seq![s]
    } else {
        proof {
            lemma_first_occ_bounds(s, p, 0);
        }
        seq![s.take(k)] + split_by(s.skip(k + p.len()), p)
    }
}

/// The pieces trimmed, empty ones dropped.
pub open spec fn clean(parts: Seq<Seq<char>>) -> Seq<Seq<char>>
    decreases parts.len(),
{
    if parts.len() == 0 {
        seq![]
    } else {
        clean(parts.drop_last()) + if trim(parts.last()).len() > 0 {
            seq![trim(parts.last())]
        } else {
            seq![]
        }
    }
}

/// The names a list of accepted attributes offers as suggestions: the
/// list split at `, `, trimmed, empty pieces dropped.
pub open spec fn candidates(list: Seq<char>) -> Seq<Seq<char>> {
    clean(split_by(list, seq![',', ' ']))
}

pub proof fn lemma_first_occ_bounds(s: Seq<char>, p: Seq<char>, i: int)
    requires
        0 <= i,
        p.len() > 0,
    ensures
        first_occ(s, p, i) == s.len() || (i <= first_occ(s, p, i) && first_occ(s, p, i) + p.len()
            <= s.len() && occurs_at(s, p, first_occ(s, p, i))),
    decreases s.len() - i,
{
    if i < s.len() && i + p.len() <= s.len() && !occurs_at(s, p, i) {
        lemma_first_occ_bounds(s, p, i + 1);
    }
}

proof fn lemma_first_occ_shift(s: Seq<char>, p: Seq<char>, start: int, j: int)
    requires
        0 <= start <= s.len(),
        0 <= j,
        p.len() > 0,
    ensures
        first_occ(s.skip(start), p, j) == first_occ(s, p, start + j) - start,
    decreases s.len() - start - j,
{
    let t = s.skip(start);
    if j < t.len() && j + p.len() <= t.len() {
        assert(occurs_at(t, p, j) == occurs_at(s, p, start + j)) by {
            assert(t.subrange(j, j + p.len()) =~= s.subrange(start + j, start + j + p.len()));
        }
        if !occurs_at(t, p, j) {
            lemma_first_occ_shift(s, p, start, j + 1);
        }
    }
}

pub(crate) fn first_occ_exec(s: &Vec<char>, p: &Vec<char>, i: usize) -> (r: usize)
    requires
        p@.len() > 0,
        i <= s@.len(),
    ensures
        r == first_occ(s@, p@, i as int),
{
    let mut k = i;
    while k < s.len() && (s.len() - k) >= p.len()
        invariant
            i <= k <= s@.len(),
            p@.len() > 0,
            first_occ(s@, p@, k as int) == first_occ(s@, p@, i as int),
        decreases s.len() - k,
    {
        if matches_at(s, p, k) {
            return k;
        }
        k += 1;
    }
    s.len()
}

/// The suggestion candidates of an accepted-attribute list.
pub fn candidate_list(list: &str) -> (r: Vec<String>)
    ensures
        strings_view(r@) == candidates(list@),
{
    let s = chars_of(list);
    let sep = [',', ' '];
    let sepv = crate::events::sub_vec(&sep, 0, 2);
    assert(sepv@ =~= seq![',', ' ']);
    let mut pieces: Vec<String> = Vec::new();
    let mut start: usize = 0;
    assert(s@.skip(0) =~= s@);
    assert(strings_view(pieces@) + candidates(s@.skip(0)) =~= candidates(s@));
    loop
        invariant
            start <= s@.len(),
            sepv@ == seq![',', ' '],
            s@ == list@,
            strings_view(pieces@) + candidates(s@.skip(start as int)) == candidates(s@),
        decreases s@.len() - start,
    {
        let ghost t = s@.skip(start as int);
        let k = first_occ_exec(&s, &sepv, start);
        proof {
            lemma_first_occ_bounds(s@, seq![',', ' '], start as int);
            lemma_first_occ_shift(s@, seq![',', ' '], start as int, 0);
        }
        let piece = crate::events::sub_vec(&s, start, k);
        let tp = trim_chars(&piece);
        let ghost before = strings_view(pieces@);
        if tp.len() > 0 {
            pieces.push(string_of(&tp));
        }
        proof {
            lemma_clean_single(piece@);
            if tp@.len() > 0 {
                assert(strings_view(pieces@) =~= before.push(tp@));
            } else {
                assert(strings_view(pieces@) =~= before);
            }
            assert(strings_view(pieces@) =~= before + clean(seq![piece@]));
        }
        if k >= s.len() {
            proof {
                assert(piece@ =~= t);
                assert(split_by(t, seq![',', ' ']) == seq![t]);
                assert(candidates(t) == clean(seq![t]));
            }
            return pieces;
        }
        proof {
            assert(piece@ =~= t.take(k - start));
            assert(split_by(t, seq![',', ' ']) == seq![t.take(k - start)] + split_by(
                t.skip(k - start + 2),
                seq![',', ' '],
            ));
            assert(t.skip(k - start + 2) =~= s@.skip(k + 2));
            lemma_clean_concat(seq![t.take(k - start)], split_by(s@.skip(k + 2), seq![',', ' ']));
            assert((before + clean(seq![piece@])) + candidates(s@.skip(k + 2)) =~= before + (clean(
                seq![piece@],
            ) + candidates(s@.skip(k + 2))));
        }
        start = k + 2;
    }
}

proof fn lemma_clean_single(x: Seq<char>)
    ensures
        clean(seq![x]) == if trim(x).len() > 0 {
            seq![trim(x)]
        } else {
            seq![]
        },
{
    assert(seq![x].drop_last() =~= Seq::<Seq<char>>::empty());
    assert(seq![x].last() == x);
    assert(clean(Seq::<Seq<char>>::empty()) =~= Seq::<Seq<char>>::empty());
}

proof fn lemma_clean_concat(a: Seq<Seq<char>>, b: Seq<Seq<char>>)
    ensures
        clean(a + b) == clean(a) + clean(b),
    decreases b.len(),
{
    if b.len() == 0 {
        assert(a + b =~= a);
    } else {
        lemma_clean_concat(a, b.drop_last());
        assert((a + b).drop_last() =~= a + b.drop_last());
        assert((a + b).last() == b.last());
    }
}

proof fn lemma_clean_one(a: Seq<Seq<char>>, x: Seq<char>)
    requires
        clean(a) == a,
    ensures
        clean(a.push(x)) == a + if trim(x).len() > 0 {
            seq![trim(x)]
        } else {
            seq![]
        },
{
    assert(a.push(x).drop_last() =~= a);
}

pub open spec fn extra_names(v: Seq<crate::schema::ExtraArg>) -> Seq<Seq<char>> {
    v.map_values(|e: crate::schema::ExtraArg| e.attr@)
}

pub open spec fn prop_names(v: Seq<crate::schema::PropDef>) -> Seq<Seq<char>> {
    v.map_values(|p: crate::schema::PropDef| p.name@)
}

pub open spec fn event_names(v: Seq<(&'static str, &'static str)>) -> Seq<Seq<char>> {
    v.map_values(|ev: (&'static str, &'static str)| ev.0@)
}

pub open spec fn slot_names(v: Seq<crate::schema::SlotDef>) -> Seq<Seq<char>> {
    v.map_values(|s: crate::schema::SlotDef| "slot=\""@ + s.name@ + "\""@)
}

/// The attribute names a leaf accepts, for diagnostics.
pub open spec fn leaf_attr_names(l: LeafDef) -> Seq<Seq<char>> {
    seq!["id"@] + extra_names(l.extra_args@) + prop_names(l.props@) + event_names(l.events@)
        + slot_names(l.slots@)
}

/// The accepted-attribute list of a leaf: `id`, its positional
/// arguments, props, events and `slot="…"` names, comma-separated.
pub open spec fn accepted_leaf(l: LeafDef) -> Seq<char> {
    join_comma(leaf_attr_names(l))
}

/// The attribute names a container with the given fixed flags
/// accepts, for diagnostics.
pub open spec fn container_attr_names(fixed: Seq<(&'static str, &'static str)>) -> Seq<Seq<char>> {
    seq!["id"@, "flex"@] + event_names(fixed) + seq![
        "shorthand style methods (gap_3, p_4, w_full, ...)"@,
    ]
}

pub open spec fn accepted_container(fixed: Seq<(&'static str, &'static str)>) -> Seq<char> {
    join_comma(container_attr_names(fixed))
}

fn join_strings(v: &Vec<String>) -> (r: String)
    ensures
        r@ == join_comma(strings_view(v@)),
{
    let mut out = String::new();
    let mut k: usize = 0;
    while k < v.len()
        invariant
            k <= v@.len(),
            out@ == join_comma(strings_view(v@).take(k as int)),
        decreases v.len() - k,
    {
        let ghost sv = strings_view(v@);
        assert(sv.take(k + 1).drop_last() =~= sv.take(k as int));
        if k > 0 {
            out.append(", ");
        }
        out.append(v[k].as_str());
        k += 1;
        assert(sv.take(k as int).last() == v@[k - 1]@);
    }
    assert(strings_view(v@).take(v@.len() as int) =~= strings_view(v@));
    out
}

pub fn accepted_leaf_attrs(l: &LeafDef) -> (r: String)
    ensures
        r@ == accepted_leaf(*l),
{
    let mut parts: Vec<String> = Vec::new();
    parts.push(crate::strings::to_owned("id"));
    let ghost mut want: Seq<Seq<char>> = seq!["id"@];
    assert(strings_view(parts@) =~= want);
    let mut k: usize = 0;
    while k < l.extra_args.len()
        invariant
            k <= l.extra_args@.len(),
            strings_view(parts@) == want + extra_names(l.extra_args@.take(k as int)),
            want == seq!["id"@],
        decreases l.extra_args.len() - k,
    {
        let ghost before = strings_view(parts@);
        parts.push(crate::strings::to_owned(l.extra_args[k].attr));
        assert(strings_view(parts@) =~= before.push(l.extra_args@[k as int].attr@));
        k += 1;
        assert(extra_names(l.extra_args@.take(k as int)) =~= extra_names(
            l.extra_args@.take(k - 1),
        ).push(l.extra_args@[k - 1].attr@));
        assert(strings_view(parts@) =~= want + extra_names(l.extra_args@.take(k as int)));
    }
    assert(l.extra_args@.take(k as int) =~= l.extra_args@);
    proof {
        want = strings_view(parts@);
    }
    let mut k: usize = 0;
    while k < l.props.len()
        invariant
            k <= l.props@.len(),
            strings_view(parts@) == want + prop_names(l.props@.take(k as int)),
        decreases l.props.len() - k,
    {
        let ghost before = strings_view(parts@);
        parts.push(crate::strings::to_owned(l.props[k].name));
        assert(strings_view(parts@) =~= before.push(l.props@[k as int].name@));
        k += 1;
        assert(prop_names(l.props@.take(k as int)) =~= prop_names(l.props@.take(k - 1)).push(
            l.props@[k - 1].name@,
        ));
        assert(strings_view(parts@) =~= want + prop_names(l.props@.take(k as int)));
    }
    assert(l.props@.take(k as int) =~= l.props@);
    proof {
        want = strings_view(parts@);
    }
    let mut k: usize = 0;
    while k < l.events.len()
        invariant
            k <= l.events@.len(),
            strings_view(parts@) == want + event_names(l.events@.take(k as int)),
        decreases l.events.len() - k,
    {
        let ghost before = strings_view(parts@);
        parts.push(crate::strings::to_owned(l.events[k].0));
        assert(strings_view(parts@) =~= before.push(l.events@[k as int].0@));
        k += 1;
        assert(event_names(l.events@.take(k as int)) =~= event_names(l.events@.take(k - 1)).push(
            l.events@[k - 1].0@,
        ));
        assert(strings_view(parts@) =~= want + event_names(l.events@.take(k as int)));
    }
    assert(l.events@.take(k as int) =~= l.events@);
    proof {
        want = strings_view(parts@);
    }
    let mut k: usize = 0;
    while k < l.slots.len()
        invariant
            k <= l.slots@.len(),
            strings_view(parts@) == want + slot_names(l.slots@.take(k as int)),
        decreases l.slots.len() - k,
    {
        let ghost before = strings_view(parts@);
        parts.push(cat3("slot=\"", l.slots[k].name, "\""));
        assert(strings_view(parts@) =~= before.push("slot=\""@ + l.slots@[k as int].name@ + "\""@));
        k += 1;
        assert(slot_names(l.slots@.take(k as int)) =~= slot_names(l.slots@.take(k - 1)).push(
            "slot=\""@ + l.slots@[k - 1].name@ + "\""@,
        ));
        assert(strings_view(parts@) =~= want + slot_names(l.slots@.take(k as int)));
    }
    assert(l.slots@.take(k as int) =~= l.slots@);
    assert(strings_view(parts@) =~= leaf_attr_names(*l));
    join_strings(&parts)
}

pub fn accepted_container_attrs(fixed: &[(&'static str, &'static str)]) -> (r: String)
    ensures
        r@ == accepted_container(fixed@),
{
    let mut parts: Vec<String> = Vec::new();
    parts.push(crate::strings::to_owned("id"));
    parts.push(crate::strings::to_owned("flex"));
    let ghost want: Seq<Seq<char>> = seq!["id"@, "flex"@];
    assert(strings_view(parts@) =~= want);
    let mut k: usize = 0;
    while k < fixed.len()
        invariant
            k <= fixed@.len(),
            want == seq!["id"@, "flex"@],
            strings_view(parts@) == want + event_names(fixed@.take(k as int)),
        decreases fixed.len() - k,
    {
        let ghost before = strings_view(parts@);
        parts.push(crate::strings::to_owned(fixed[k].0));
        assert(strings_view(parts@) =~= before.push(fixed@[k as int].0@));
        k += 1;
        assert(event_names(fixed@.take(k as int)) =~= event_names(
            fixed@.take(k - 1),
        ).push(fixed@[k - 1].0@));
        assert(strings_view(parts@) =~= want + event_names(fixed@.take(k as int)));
    }
    assert(fixed@.take(k as int) =~= fixed@);
    parts.push(crate::strings::to_owned("shorthand style methods (gap_3, p_4, w_full, ...)"));
    assert(strings_view(parts@) =~= container_attr_names(fixed@));
    join_strings(&parts)
}

/// The hint appended to an unknown-attribute error: the closest
/// accepted name, if one is close enough.
pub open spec fn hint(name: Seq<char>, list: Seq<char>) -> Seq<char> {
    match spec_did_you_mean(name, candidates(list)) {
        Some(i) => " — did you mean "@ + ticked(candidates(list)[i]) + "?"@,
        None => seq![],
    }
}

pub fn suggestion_hint(name: &str, list: &str) -> (r: String)
    ensures
        r@ == hint(name@, list@),
{
    let cands = candidate_list(list);
    let mut refs: Vec<&str> = Vec::new();
    let mut k: usize = 0;
    while k < cands.len()
        invariant
            k <= cands@.len(),
            refs@.len() == k,
            forall|i: int| 0 <= i < k ==> #[trigger] refs@[i]@ == cands@[i]@,
        decreases cands.len() - k,
    {
        refs.push(cands[k].as_str());
        k += 1;
    }
    assert(cands_view(refs@) =~= strings_view(cands@));
    match did_you_mean(name, &refs) {
        Some(s) => {
            let ghost i = spec_did_you_mean(name@, cands_view(refs@))->0;
            assert(s@ == cands_view(refs@)[i]);
            let mut out = cat3(" — did you mean `", s, "`?");
            proof {
                reveal_strlit(" — did you mean `");
                reveal_strlit(" — did you mean ");
                reveal_strlit("`?");
                reveal_strlit("?");
                reveal_strlit("`");
                assert(out@ =~= hint(name@, list@));
            }
            out
        },
        None => String::new(),
    }
}

/// Whether a leaf attribute is a `Styled` pass-through: container
/// style vocabulary that is not also one of the leaf's own names.
pub open spec fn leaf_style_attr(name: Seq<char>, l: LeafDef) -> bool {
    &&& (spec_is_known_shorthand(name) || spacing_prefixes().contains(name)
        || spec_is_spacing_shorthand(name))
    &&& name != "id"@
    &&& !(exists|i: int| 0 <= i < l.extra_args@.len() && #[trigger] l.extra_args@[i].attr@ == name)
    &&& !(exists|i: int| 0 <= i < l.props@.len() && #[trigger] l.props@[i].name@ == name)
    &&& !(exists|i: int| 0 <= i < l.events@.len() && #[trigger] l.events@[i].0@ == name)
}

pub fn is_leaf_style_attr(name: &str, l: &LeafDef) -> (b: bool)
    ensures
        b == leaf_style_attr(name@, *l),
{
    if !(is_known_shorthand_method(name) || is_spacing_prefix(name) || is_spacing_shorthand(name)) {
        return false;
    }
    if str_eq(name, "id") {
        return false;
    }
    let mut k: usize = 0;
    while k < l.extra_args.len()
        invariant
            k <= l.extra_args@.len(),
            forall|i: int| 0 <= i < k ==> #[trigger] l.extra_args@[i].attr@ != name@,
        decreases l.extra_args.len() - k,
    {
        if str_eq(l.extra_args[k].attr, name) {
            return false;
        }
        k += 1;
    }
    let mut k: usize = 0;
    while k < l.props.len()
        invariant
            k <= l.props@.len(),
            forall|i: int| 0 <= i < k ==> #[trigger] l.props@[i].name@ != name@,
        decreases l.props.len() - k,
    {
        if str_eq(l.props[k].name, name) {
            return false;
        }
        k += 1;
    }
    let mut k: usize = 0;
    while k < l.events.len()
        invariant
            k <= l.events@.len(),
            forall|i: int| 0 <= i < k ==> #[trigger] l.events@[i].0@ != name@,
        decreases l.events.len() - k,
    {
        if str_eq(l.events[k].0, name) {
            return false;
        }
        k += 1;
    }
    true
}

/// The first fixed flag of a container named `name`, with its method.
pub open spec fn find_fixed(m: Seq<(&'static str, &'static str)>, name: Seq<char>) -> Option<
    (&'static str, &'static str),
>
    decreases m.len(),
{
    if m.len() == 0 {
        None
    } else if m[0].0@ == name {
        Some(m[0])
    } else {
        find_fixed(m.drop_first(), name)
    }
}

/// `let __el = ::gpui::Styled::<m>(__el<args>);`
pub open spec fn styled(m: Seq<char>, args: Seq<char>) -> Seq<char> {
    "let __el = ::gpui::Styled::"@ + m + "(__el"@ + args + ");"@
}

/// The statement one style attribute contributes to a container (or to
/// a leaf's rendered element) with the given fixed flags.
pub open spec fn spec_container_attr(a: SAttr, fixed: Seq<(&'static str, &'static str)>, tag: Seq<char>) -> Result<
    Seq<char>,
    SError,
> {
    let n = a.name;
    let style = spec_is_known_shorthand(n) || spec_is_spacing_shorthand(n);
    if n == "id"@ {
        match spec_attr_value(a) {
            Ok(v) => Ok("let __el = ::gpui::InteractiveElement::id(__el, "@ + v + ");"@),
            Err(e) => Err(e),
        }
    } else if a.expr is None && find_fixed(fixed, n) is Some {
        let fm = find_fixed(fixed, n)->0;
        Ok(styled(fm.1@, seq![]))
    } else if a.expr is Some && (spacing_prefixes().contains(n) || style) {
        match spec_ts(a.expr->0, a.offset, "expression for "@ + ticked(n)) {
            Ok(p) => Ok(styled(n, ", "@ + p)),
            Err(e) => Err(e),
        }
    } else if a.expr is None && spacing_prefixes().contains(n) {
        if numeric_suffixes().contains(a.raw) || textual_suffixes().contains(a.raw) {
            Ok(styled(n + seq!['_'] + a.raw, seq![]))
        } else {
            Err(
                serr(
                    XmlErrorKind::InvalidExpression,
                    "invalid spacing suffix "@ + ticked(a.raw) + " for "@ + ticked(n)
                        + "; expected a number (0, 1, 2, …) or `full`"@,
                    Some(a.offset),
                ),
            )
        }
    } else if a.expr is None && style {
        if a.raw == "true"@ {
            Ok(styled(n, seq![]))
        } else {
            Err(
                serr(
                    XmlErrorKind::InvalidExpression,
                    "attribute "@ + ticked(n) + " is a flag (no value); drop `=\""@ + a.raw
                        + "\"` and use `<"@ + n + ">` instead"@,
                    Some(a.offset),
                ),
            )
        }
    } else {
        Err(
            serr(
                XmlErrorKind::UnknownAttribute,
                "unknown attribute "@ + ticked(n) + " on <"@ + tag
                    + ">; containers only accept shorthand style attributes ("@
                    + accepted_container(fixed) + ")"@ + hint(n, accepted_container(fixed)),
                None,
            ),
        )
    }
}

/// Whatever a container attribute is accepted as, it contributes one
/// `let __el = …;` statement to the element being built: never nothing.
pub proof fn lemma_container_attr_statement(a: SAttr, fixed: Seq<(&'static str, &'static str)>, tag: Seq<char>)
    ensures
        spec_container_attr(a, fixed, tag) matches Ok(s) ==> s.len() > 11 && s.subrange(0, 11)
            == "let __el = "@ && s.last() == ';',
{
    reveal_strlit("let __el = ");
    reveal_strlit("let __el = ::gpui::InteractiveElement::id(__el, ");
    reveal_strlit("let __el = ::gpui::Styled::");
    reveal_strlit(");");
    if let Ok(s) = spec_container_attr(a, fixed, tag) {
        let head = if a.name == "id"@ {
            "let __el = ::gpui::InteractiveElement::id(__el, "@
        } else {
            "let __el = ::gpui::Styled::"@
        };
        assert(s.subrange(0, 11) =~= head.subrange(0, 11));
        assert(head.subrange(0, 11) =~= "let __el = "@);
    }
}

fn find_fixed_in(m: &[(&'static str, &'static str)], name: &str) -> (r: Option<
    (&'static str, &'static str),
>)
    ensures
        r == find_fixed(m@, name@),
{
    let mut k: usize = 0;
    assert(m@.skip(0) =~= m@);
    while k < m.len()
        invariant
            k <= m@.len(),
            find_fixed(m@.skip(k as int), name@) == find_fixed(m@, name@),
        decreases m.len() - k,
    {
        assert(m@.skip(k as int)[0] == m@[k as int]);
        if str_eq(m[k].0, name) {
            return Some(m[k]);
        }
        assert(m@.skip(k as int).drop_first() =~= m@.skip(k + 1));
        k += 1;
    }
    None
}

fn styled_stmt(m: &str, args: &str) -> (r: String)
    ensures
        r@ == styled(m@, args@),
{
    let mut out = cat3("let __el = ::gpui::Styled::", m, "(__el");
    out.append(args);
    out.append(");");
    out
}

/// The statement one container attribute contributes, or why the
/// attribute is refused.
pub fn apply_container_attr(a: &AstAttribute, fixed: &[(&'static str, &'static str)], tag: &str) -> (r: Result<
    String,
    XmlError,
>)
    ensures
        res_view(r) == spec_container_attr(a@, fixed@, tag@),
{
    let n = a.name.as_str();
    let style = is_known_shorthand_method(n) || is_spacing_shorthand(n);
    if str_eq(n, "id") {
        return match attr_value_tokens(a) {
            Ok(v) => Ok(cat3("let __el = ::gpui::InteractiveElement::id(__el, ", v.as_str(), ");")),
            Err(e) => Err(e),
        };
    }
    if a.expr.is_none() {
        if let Some(fm) = find_fixed_in(fixed, n) {
            proof {
                reveal_strlit("");
            }
            return Ok(styled_stmt(fm.1, ""));
        }
    }
    if let Some(x) = &a.expr {
        if is_spacing_prefix(n) || style {
            let ctx = cat3("expression for `", n, "`");
            proof {
                reveal_strlit("expression for `");
                reveal_strlit("expression for ");
                reveal_strlit("`");
                assert(ctx@ =~= "expression for "@ + ticked(n@));
            }
            return match ts(x.as_str(), a.byte_offset, ctx.as_str()) {
                Ok(p) => {
                    let args = cat3(", ", p.as_str(), "");
                    proof {
                        reveal_strlit("");
                    }
                    Ok(styled_stmt(n, args.as_str()))
                },
                Err(e) => Err(e),
            };
        }
    }
    let raw = a.raw.as_str();
    if a.expr.is_none() && is_spacing_prefix(n) {
        if !is_valid_spacing_suffix(raw) {
            let mut m = cat3("invalid spacing suffix `", raw, "` for `");
            m.append(n);
            m.append("`; expected a number (0, 1, 2, …) or `full`");
            proof {
                reveal_strlit("invalid spacing suffix `");
                reveal_strlit("invalid spacing suffix ");
                reveal_strlit("` for `");
                reveal_strlit(" for ");
                reveal_strlit("`; expected a number (0, 1, 2, …) or `full`");
                reveal_strlit("; expected a number (0, 1, 2, …) or `full`");
                reveal_strlit("`");
                assert(m@ =~= "invalid spacing suffix "@ + ticked(a.raw@) + " for "@ + ticked(n@)
                    + "; expected a number (0, 1, 2, …) or `full`"@);
            }
            return Err(XmlError::new(XmlErrorKind::InvalidExpression, m).at(a.byte_offset));
        }
        let meth = cat3(n, "_", raw);
        proof {
            reveal_strlit("_");
            reveal_strlit("");
            assert(meth@ =~= n@ + seq!['_'] + raw@);
        }
        return Ok(styled_stmt(meth.as_str(), ""));
    }
    if a.expr.is_none() && style {
        if str_eq(raw, "true") {
            proof {
                reveal_strlit("");
            }
            return Ok(styled_stmt(n, ""));
        }
        let mut m = crate::strings::to_owned("attribute ");
        m.append("`");
        m.append(n);
        m.append("`");
        m.append(" is a flag (no value); drop `=\"");
        m.append(raw);
        m.append("\"` and use `<");
        m.append(n);
        m.append(">` instead");
        assert(m@ =~= "attribute "@ + ticked(n@) + " is a flag (no value); drop `=\""@ + a.raw@
            + "\"` and use `<"@ + n@ + ">` instead"@);
        return Err(XmlError::new(XmlErrorKind::InvalidExpression, m).at(a.byte_offset));
    }
    let acc = accepted_container_attrs(fixed);
    let h = suggestion_hint(n, acc.as_str());
    let mut m = cat3("unknown attribute `", n, "` on <");
    m.append(tag);
    m.append(">; containers only accept shorthand style attributes (");
    m.append(acc.as_str());
    m.append(")");
    m.append(h.as_str());
    proof {
        reveal_strlit("unknown attribute `");
        reveal_strlit("unknown attribute ");
        reveal_strlit("` on <");
        reveal_strlit(" on <");
        reveal_strlit("`");
        assert(m@ =~= "unknown attribute "@ + ticked(n@) + " on <"@ + tag@
            + ">; containers only accept shorthand style attributes ("@ + accepted_container(fixed@)
            + ")"@ + hint(n@, accepted_container(fixed@)));
    }
    Err(XmlError::new(XmlErrorKind::UnknownAttribute, m))
}

} // verus!
