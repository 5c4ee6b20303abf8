//! The overrides table of the schema generator and how it is merged
//! into the extracted entries: entries are keyed and ordered by tag
//! (the last extracted entry of a tag wins), tags that an override turns
//! into control flow are dropped, and each remaining entry takes the
//! fields that its tag's first override sets.
use vstd::prelude::*;

use crate::schema::PropValue;
use crate::schemagen::{
    pairs_view, props_view, slots_view, strs_view, Extracted, PropInfo, SExtracted, SlotInfo,
};
use crate::strings::{chars_of, str_eq, to_owned};

verus! {

/// Strict lexicographic order of strings by their characters' code
/// points (the order of `str`'s `Ord`).
pub open spec fn lex_lt(a: Seq<char>, b: Seq<char>) -> bool
    decreases a.len(),
{
    if a.len() == 0 {
        b.len() > 0
    } else if b.len() == 0 {
        false
    } else if a[0] != b[0] {
        a[0] < b[0]
    } else {
        lex_lt(a.drop_first(), b.drop_first())
    }
}

/// No string precedes itself.
pub proof fn lemma_lex_irreflexive(a: Seq<char>)
    ensures
        !lex_lt(a, a),
    decreases a.len(),
{
    if a.len() > 0 {
        lemma_lex_irreflexive(a.drop_first());
    }
}

/// Of two different strings, one precedes the other, and not both.
pub proof fn lemma_lex_total(a: Seq<char>, b: Seq<char>)
    ensures
        a != b ==> lex_lt(a, b) || lex_lt(b, a),
        !(lex_lt(a, b) && lex_lt(b, a)),
    decreases a.len(),
{
    if a.len() > 0 && b.len() > 0 {
        if a[0] == b[0] {
            lemma_lex_total(a.drop_first(), b.drop_first());
            if a != b {
                assert(a.drop_first() != b.drop_first()) by {
                    if a.drop_first() =~= b.drop_first() {
                        assert(a =~= seq![a[0]] + a.drop_first());
                        assert(b =~= seq![b[0]] + b.drop_first());
                    }
                }
            }
        }
    } else if a.len() == 0 && b.len() == 0 {
        assert(a =~= b);
    }
}

/// The order is transitive.
pub proof fn lemma_lex_transitive(a: Seq<char>, b: Seq<char>, c: Seq<char>)
    requires
        lex_lt(a, b),
        lex_lt(b, c),
    ensures
        lex_lt(a, c),
    decreases a.len(),
{
    if a.len() > 0 && b.len() > 0 && c.len() > 0 && a[0] == b[0] && b[0] == c[0] {
        lemma_lex_transitive(a.drop_first(), b.drop_first(), c.drop_first());
    }
}

/// `a < b` in the order of `lex_lt`.
pub fn str_less(a: &str, b: &str) -> (r: bool)
    ensures
        r == lex_lt(a@, b@),
{
    let av = chars_of(a);
    let bv = chars_of(b);
    let mut i: usize = 0;
    assert(a@.skip(0) =~= a@);
    assert(b@.skip(0) =~= b@);
    while i < av.len() && i < bv.len() && av[i] == bv[i]
        invariant
            i <= av@.len(),
            i <= bv@.len(),
            av@ == a@,
            bv@ == b@,
            lex_lt(a@, b@) == lex_lt(a@.skip(i as int), b@.skip(i as int)),
        decreases av.len() - i,
    {
        assert(a@.skip(i as int).drop_first() =~= a@.skip(i + 1));
        assert(b@.skip(i as int).drop_first() =~= b@.skip(i + 1));
        i += 1;
    }
    if i == av.len() {
        i < bv.len()
    } else if i == bv.len() {
        false
    } else {
        av[i] < bv[i]
    }
}

/// Entries with strictly increasing tags.
pub open spec fn tags_sorted(v: Seq<SExtracted>) -> bool {
    forall|i: int, j: int| 0 <= i < j < v.len() ==> lex_lt(#[trigger] v[i].tag, #[trigger] v[j].tag)
}

/// `out` lists, ordered by tag, exactly the entries that `f` gives a tag.
pub open spec fn lists(out: Seq<SExtracted>, f: spec_fn(Seq<char>) -> Option<SExtracted>) -> bool {
    &&& tags_sorted(out)
    &&& forall|j: int| 0 <= j < out.len() ==> f(#[trigger] out[j].tag) == Some(out[j])
    &&& forall|t: Seq<char>| #[trigger] f(t) is Some ==> exists|j: int| 0 <= j < out.len() && out[j].tag == t
}

/// Two listings of the same function are the same sequence.
pub proof fn lemma_lists_unique(
    a: Seq<SExtracted>,
    b: Seq<SExtracted>,
    f: spec_fn(Seq<char>) -> Option<SExtracted>,
)
    requires
        lists(a, f),
        lists(b, f),
    ensures
        a == b,
    decreases a.len() + b.len(),
{
    if a.len() == 0 || b.len() == 0 {
        if a.len() > 0 {
            assert(f(a[0].tag) is Some);
            let j = choose|j: int| 0 <= j < b.len() && b[j].tag == a[0].tag;
        }
        if b.len() > 0 {
            assert(f(b[0].tag) is Some);
            let j = choose|j: int| 0 <= j < a.len() && a[j].tag == b[0].tag;
        }
        assert(a =~= b);
    } else {
        // The first entries have the least tag of all, so they agree.
        assert(f(a[0].tag) is Some);
        assert(f(b[0].tag) is Some);
        let ja = choose|j: int| 0 <= j < b.len() && b[j].tag == a[0].tag;
        let jb = choose|j: int| 0 <= j < a.len() && a[j].tag == b[0].tag;
        if ja > 0 {
            assert(lex_lt(b[0].tag, b[ja].tag));
            if jb > 0 {
                assert(lex_lt(a[0].tag, a[jb].tag));
                lemma_lex_total(a[0].tag, b[0].tag);
            } else {
                lemma_lex_irreflexive(a[0].tag);
            }
        }
        assert(b[0].tag == a[0].tag);
        assert(a[0] == b[0]);
        let g = |t: Seq<char>| if t == a[0].tag { None } else { f(t) };
        assert(lists(a.drop_first(), g)) by {
            assert forall|i: int, j: int| 0 <= i < j < a.drop_first().len() implies lex_lt(
                #[trigger] a.drop_first()[i].tag,
                #[trigger] a.drop_first()[j].tag,
            ) by {
                assert(a.drop_first()[i] == a[i + 1]);
                assert(a.drop_first()[j] == a[j + 1]);
            }
            assert forall|j: int| 0 <= j < a.drop_first().len() implies g(
                #[trigger] a.drop_first()[j].tag,
            ) == Some(a.drop_first()[j]) by {
                assert(a.drop_first()[j] == a[j + 1]);
                assert(lex_lt(a[0].tag, a[j + 1].tag));
                lemma_lex_irreflexive(a[0].tag);
            }
            assert forall|t: Seq<char>| #[trigger] g(t) is Some implies exists|j: int|
                0 <= j < a.drop_first().len() && a.drop_first()[j].tag == t by {
                assert(f(t) is Some);
                let j = choose|j: int| 0 <= j < a.len() && a[j].tag == t;
                assert(j != 0);
                assert(a.drop_first()[j - 1] == a[j]);
            }
        }
        assert(lists(b.drop_first(), g)) by {
            assert forall|i: int, j: int| 0 <= i < j < b.drop_first().len() implies lex_lt(
                #[trigger] b.drop_first()[i].tag,
                #[trigger] b.drop_first()[j].tag,
            ) by {
                assert(b.drop_first()[i] == b[i + 1]);
                assert(b.drop_first()[j] == b[j + 1]);
            }
            assert forall|j: int| 0 <= j < b.drop_first().len() implies g(
                #[trigger] b.drop_first()[j].tag,
            ) == Some(b.drop_first()[j]) by {
                assert(b.drop_first()[j] == b[j + 1]);
                assert(lex_lt(b[0].tag, b[j + 1].tag));
                lemma_lex_irreflexive(b[0].tag);
            }
            assert forall|t: Seq<char>| #[trigger] g(t) is Some implies exists|j: int|
                0 <= j < b.drop_first().len() && b.drop_first()[j].tag == t by {
                assert(f(t) is Some);
                let j = choose|j: int| 0 <= j < b.len() && b[j].tag == t;
                assert(j != 0);
                assert(b.drop_first()[j - 1] == b[j]);
            }
        }
        lemma_lists_unique(a.drop_first(), b.drop_first(), g);
        assert(a =~= seq![a[0]] + a.drop_first());
        assert(b =~= seq![b[0]] + b.drop_first());
    }
}

/// The container part of an override: fixed attribute → method pairs.
#[derive(Debug)]
pub struct ContainerOverride {
    pub fixed_methods: Vec<(String, String)>,
}

/// One `[[override_]]` entry of the overrides file.
#[derive(Debug)]
pub struct OverrideEntry {
    pub tag: String,
    /// `Leaf`, `Container` or `ControlFlow`.
    pub kind: String,
    /// Replaces the detected factory path.
    pub factory: Option<String>,
    pub container: Option<ContainerOverride>,
    /// The control-flow variant, for `kind = "ControlFlow"`.
    pub control_flow: Option<String>,
    pub supports_text_child: Option<bool>,
    pub needs_window: Option<bool>,
    pub children_before_render: Option<bool>,
    pub unwrap_children: Option<bool>,
    /// Replaces the slots: (XML slot name, builder method).
    pub slots: Option<Vec<(String, String)>>,
    /// Merged into the props: (XML name, setter, `PropValue` variant name).
    pub props: Option<Vec<(String, String, String)>>,
    /// Replaces the events: (XML attribute, setter).
    pub events: Option<Vec<(String, String)>>,
}

pub struct SOverride {
    pub tag: Seq<char>,
    pub kind: Seq<char>,
    pub factory: Option<Seq<char>>,
    pub container: Option<Seq<(Seq<char>, Seq<char>)>>,
    pub control_flow: Option<Seq<char>>,
    pub supports_text_child: Option<bool>,
    pub needs_window: Option<bool>,
    pub children_before_render: Option<bool>,
    pub unwrap_children: Option<bool>,
    pub slots: Option<Seq<(Seq<char>, Seq<char>)>>,
    pub props: Option<Seq<(Seq<char>, Seq<char>, Seq<char>)>>,
    pub events: Option<Seq<(Seq<char>, Seq<char>)>>,
}

pub open spec fn triples_view(v: Seq<(String, String, String)>) -> Seq<(Seq<char>, Seq<char>, Seq<char>)> {
    v.map_values(|p: (String, String, String)| (p.0@, p.1@, p.2@))
}

pub open spec fn opt_pairs(o: Option<Vec<(String, String)>>) -> Option<Seq<(Seq<char>, Seq<char>)>> {
    match o {
        Some(v) => Some(pairs_view(v@)),
        None => None,
    }
}

impl View for OverrideEntry {
    type V = SOverride;

    open spec fn view(&self) -> SOverride {
        SOverride {
            tag: self.tag@,
            kind: self.kind@,
            factory: crate::schemagen::ov(self.factory),
            container: match self.container {
                Some(c) => Some(pairs_view(c.fixed_methods@)),
                None => None,
            },
            control_flow: crate::schemagen::ov(self.control_flow),
            supports_text_child: self.supports_text_child,
            needs_window: self.needs_window,
            children_before_render: self.children_before_render,
            unwrap_children: self.unwrap_children,
            slots: opt_pairs(self.slots),
            props: match self.props {
                Some(v) => Some(triples_view(v@)),
                None => None,
            },
            events: opt_pairs(self.events),
        }
    }
}

pub open spec fn ovs_view(v: Seq<OverrideEntry>) -> Seq<SOverride> {
    v.map_values(|o: OverrideEntry| o@)
}

pub open spec fn entries_view(v: Seq<Extracted>) -> Seq<SExtracted> {
    v.map_values(|e: Extracted| e@)
}

/// The prop kind named by its `PropValue` variant name.
pub open spec fn spec_prop_value(raw: Seq<char>) -> Option<PropValue> {
    if raw == "String"@ {
        Some(PropValue::String)
    } else if raw == "Bool"@ {
        Some(PropValue::Bool)
    } else if raw == "Variant"@ {
        Some(PropValue::Variant)
    } else if raw == "Flag"@ {
        Some(PropValue::Flag)
    } else if raw == "Unknown"@ {
        Some(PropValue::Unknown)
    } else if raw == "Float64"@ {
        Some(PropValue::Float64)
    } else if raw == "Float32"@ {
        Some(PropValue::Float32)
    } else if raw == "UInt"@ {
        Some(PropValue::UInt)
    } else if raw == "BadgeVariant"@ {
        Some(PropValue::BadgeVariant)
    } else if raw == "HeadingLevel"@ {
        Some(PropValue::HeadingLevel)
    } else if raw == "IconSource"@ {
        Some(PropValue::IconSource)
    } else if raw == "ImageSource"@ {
        Some(PropValue::ImageSource)
    } else if raw == "KeybindingInputMode"@ {
        Some(PropValue::KeybindingInputMode)
    } else if raw == "Spacing"@ {
        Some(PropValue::Spacing)
    } else if raw == "Inset"@ {
        Some(PropValue::Inset)
    } else if raw == "AlignItems"@ {
        Some(PropValue::AlignItems)
    } else if raw == "JustifyContent"@ {
        Some(PropValue::JustifyContent)
    } else if raw == "Length"@ {
        Some(PropValue::Length)
    } else if raw == "Color"@ {
        Some(PropValue::Color)
    } else if raw == "Custom"@ {
        Some(PropValue::Custom)
    } else {
        None
    }
}

/// Reads a `PropValue` variant name; `None` for any other text.
pub fn parse_prop_value(raw: &str) -> (r: Option<PropValue>)
    ensures
        r == spec_prop_value(raw@),
{
    if str_eq(raw, "String") {
        Some(PropValue::String)
    } else if str_eq(raw, "Bool") {
        Some(PropValue::Bool)
    } else if str_eq(raw, "Variant") {
        Some(PropValue::Variant)
    } else if str_eq(raw, "Flag") {
        Some(PropValue::Flag)
    } else if str_eq(raw, "Unknown") {
        Some(PropValue::Unknown)
    } else if str_eq(raw, "Float64") {
        Some(PropValue::Float64)
    } else if str_eq(raw, "Float32") {
        Some(PropValue::Float32)
    } else if str_eq(raw, "UInt") {
        Some(PropValue::UInt)
    } else if str_eq(raw, "BadgeVariant") {
        Some(PropValue::BadgeVariant)
    } else if str_eq(raw, "HeadingLevel") {
        Some(PropValue::HeadingLevel)
    } else if str_eq(raw, "IconSource") {
        Some(PropValue::IconSource)
    } else if str_eq(raw, "ImageSource") {
        Some(PropValue::ImageSource)
    } else if str_eq(raw, "KeybindingInputMode") {
        Some(PropValue::KeybindingInputMode)
    } else if str_eq(raw, "Spacing") {
        Some(PropValue::Spacing)
    } else if str_eq(raw, "Inset") {
        Some(PropValue::Inset)
    } else if str_eq(raw, "AlignItems") {
        Some(PropValue::AlignItems)
    } else if str_eq(raw, "JustifyContent") {
        Some(PropValue::JustifyContent)
    } else if str_eq(raw, "Length") {
        Some(PropValue::Length)
    } else if str_eq(raw, "Color") {
        Some(PropValue::Color)
    } else if str_eq(raw, "Custom") {
        Some(PropValue::Custom)
    } else {
        None
    }
}

/// The index of the first prop named `name`, from position `i` on.
pub open spec fn prop_index(props: Seq<(Seq<char>, Seq<char>, PropValue)>, name: Seq<char>, i: int) -> Option<
    int,
>
    decreases props.len() - i,
{
    if i < 0 || i >= props.len() {
        None
    } else if props[i].0 == name {
        Some(i)
    } else {
        prop_index(props, name, i + 1)
    }
}

/// One override prop merged into the props: a known name takes the new
/// setter and kind, a new name is appended; an entry whose kind is not
/// a `PropValue` name changes nothing.
pub open spec fn merge_prop(
    props: Seq<(Seq<char>, Seq<char>, PropValue)>,
    p: (Seq<char>, Seq<char>, Seq<char>),
) -> Seq<(Seq<char>, Seq<char>, PropValue)> {
    match spec_prop_value(p.2) {
        None => props,
        Some(v) => match prop_index(props, p.0, 0) {
            Some(i) => props.update(i, (props[i].0, p.1, v)),
            None => props.push((p.0, p.1, v)),
        },
    }
}

/// The override props merged in, in order.
pub open spec fn merge_props(
    props: Seq<(Seq<char>, Seq<char>, PropValue)>,
    ps: Seq<(Seq<char>, Seq<char>, Seq<char>)>,
) -> Seq<(Seq<char>, Seq<char>, PropValue)>
    decreases ps.len(),
{
    if ps.len() == 0 {
        props
    } else {
        merge_prop(merge_props(props, ps.drop_last()), ps.last())
    }
}

/// Whether a pair list has a pair whose first part is `name`.
pub open spec fn in_names(pairs: Seq<(Seq<char>, Seq<char>)>, name: Seq<char>) -> bool {
    exists|i: int| 0 <= i < pairs.len() && #[trigger] pairs[i].0 == name
}

/// A prop that a structural override takes over: `child` / `children`
/// under `children_before_render = true`, and the named slots.
pub open spec fn removed_by(o: SOverride, name: Seq<char>) -> bool {
    (o.children_before_render == Some(true) && (name == "child"@ || name == "children"@)) || (
    o.slots matches Some(sl) && in_names(sl, name))
}

/// The props that `o` does not take over, in order.
pub open spec fn keep_props(props: Seq<(Seq<char>, Seq<char>, PropValue)>, o: SOverride) -> Seq<
    (Seq<char>, Seq<char>, PropValue),
>
    decreases props.len(),
{
    if props.len() == 0 {
        seq![]
    } else {
        keep_props(props.drop_last(), o) + if removed_by(o, props.last().0) {
            seq![]
        } else {
            seq![props.last()]
        }
    }
}

/// `s` up to its first backtick.
pub open spec fn until_tick(s: Seq<char>) -> Seq<char>
    decreases s.len(),
{
    if s.len() == 0 {
        s
    } else if s[0] == '`' {
        seq![]
    } else {
        seq![s[0]] + until_tick(s.drop_first())
    }
}

/// A prop name that `o` handles explicitly: one of its props, one of
/// its slots, or `child` / `children` under `children_before_render`.
pub open spec fn cleared_by(o: SOverride, name: Seq<char>) -> bool {
    (o.props matches Some(ps) && exists|i: int| 0 <= i < ps.len() && #[trigger] ps[i].0 == name) || (
    o.slots matches Some(sl) && in_names(sl, name)) || (o.children_before_render == Some(true) && (
    name == "child"@ || name == "children"@))
}

pub open spec fn review_prefix() -> Seq<char> {
    "review needed: prop `"@
}

/// A note stays unless it asks to review a prop that `o` handles.
pub open spec fn note_kept(o: SOverride, note: Seq<char>) -> bool {
    !(crate::strings::starts_with(note, review_prefix()) && cleared_by(
        o,
        until_tick(note.skip(review_prefix().len() as int)),
    ))
}

/// The notes that stay, in order.
pub open spec fn keep_notes(notes: Seq<Seq<char>>, o: SOverride) -> Seq<Seq<char>>
    decreases notes.len(),
{
    if notes.len() == 0 {
        seq![]
    } else {
        keep_notes(notes.drop_last(), o) + if note_kept(o, notes.last()) {
            seq![notes.last()]
        } else {
            seq![]
        }
    }
}

/// An extracted entry with its override applied.
pub open spec fn merge_entry(e: SExtracted, o: SOverride) -> SExtracted {
    let props = match o.props {
        Some(ps) => merge_props(e.props, ps),
        None => e.props,
    };
    SExtracted {
        factory: match o.factory {
            Some(f) => f,
            None => e.factory,
        },
        supports_text_child: match o.supports_text_child {
            Some(v) => v,
            None => e.supports_text_child,
        },
        needs_window: match o.needs_window {
            Some(v) => v,
            None => e.needs_window,
        },
        children_before_render: match o.children_before_render {
            Some(v) => v,
            None => e.children_before_render,
        },
        unwrap_children: match o.unwrap_children {
            Some(v) => v,
            None => e.unwrap_children,
        },
        slots: match o.slots {
            Some(sl) => sl,
            None => e.slots,
        },
        props: keep_props(props, o),
        events: match o.events {
            Some(ev) => ev,
            None => e.events,
        },
        notes: keep_notes(e.notes, o),
        ..e
    }
}

fn clone_prop(p: &PropInfo) -> (r: PropInfo)
    ensures
        (r.name@, r.setter@, r.value) == (p.name@, p.setter@, p.value),
{
    PropInfo { name: p.name.clone(), setter: p.setter.clone(), value: p.value }
}

fn clone_pairs(v: &Vec<(String, String)>) -> (r: Vec<(String, String)>)
    ensures
        pairs_view(r@) == pairs_view(v@),
{
    let mut out: Vec<(String, String)> = Vec::new();
    let mut k: usize = 0;
    while k < v.len()
        invariant
            k <= v@.len(),
            pairs_view(out@) == pairs_view(v@.take(k as int)),
        decreases v.len() - k,
    {
        let ghost pre = out@;
        out.push((v[k].0.clone(), v[k].1.clone()));
        assert(pairs_view(out@) =~= pairs_view(pre).push((v@[k as int].0@, v@[k as int].1@)));
        assert(v@.take(k + 1) =~= v@.take(k as int).push(v@[k as int]));
        assert(pairs_view(v@.take(k + 1)) =~= pairs_view(v@.take(k as int)).push(
            (v@[k as int].0@, v@[k as int].1@),
        ));
        k += 1;
    }
    assert(v@.take(v@.len() as int) =~= v@);
    out
}

fn slots_of(v: &Vec<(String, String)>) -> (r: Vec<SlotInfo>)
    ensures
        slots_view(r@) == pairs_view(v@),
{
    let mut out: Vec<SlotInfo> = Vec::new();
    let mut k: usize = 0;
    while k < v.len()
        invariant
            k <= v@.len(),
            slots_view(out@) == pairs_view(v@.take(k as int)),
        decreases v.len() - k,
    {
        let ghost pre = out@;
        out.push(SlotInfo { name: v[k].0.clone(), setter: v[k].1.clone() });
        assert(slots_view(out@) =~= slots_view(pre).push((v@[k as int].0@, v@[k as int].1@)));
        assert(v@.take(k + 1) =~= v@.take(k as int).push(v@[k as int]));
        assert(pairs_view(v@.take(k + 1)) =~= pairs_view(v@.take(k as int)).push(
            (v@[k as int].0@, v@[k as int].1@),
        ));
        k += 1;
    }
    assert(v@.take(v@.len() as int) =~= v@);
    out
}

fn merge_prop_into(props: &mut Vec<PropInfo>, p: &(String, String, String))
    ensures
        props_view(final(props)@) == merge_prop(props_view(old(props)@), (p.0@, p.1@, p.2@)),
{
    let ghost pv = props_view(props@);
    let value = match parse_prop_value(p.2.as_str()) {
        Some(v) => v,
        None => return,
    };
    let mut i: usize = 0;
    while i < props.len()
        invariant
            i <= props@.len(),
            pv == props_view(props@),
            pv == props_view(old(props)@),
            spec_prop_value(p.2@) == Some(value),
            prop_index(pv, p.0@, 0) == prop_index(pv, p.0@, i as int),
        decreases props.len() - i,
    {
        assert(pv[i as int].0 == props@[i as int].name@);
        if str_eq(props[i].name.as_str(), p.0.as_str()) {
            assert(prop_index(pv, p.0@, i as int) == Some(i as int));
            let name = props[i].name.clone();
            let setter = p.1.clone();
            props.set(i, PropInfo { name, setter, value });
            assert(props_view(props@) =~= pv.update(i as int, (pv[i as int].0, p.1@, value)));
            return;
        }
        i += 1;
    }
    props.push(PropInfo { name: p.0.clone(), setter: p.1.clone(), value });
    assert(props_view(props@) =~= pv.push((p.0@, p.1@, value)));
}

fn merge_props_into(props: &mut Vec<PropInfo>, ps: &Vec<(String, String, String)>)
    ensures
        props_view(final(props)@) == merge_props(props_view(old(props)@), triples_view(ps@)),
{
    let ghost p0 = props_view(props@);
    let ghost tv = triples_view(ps@);
    let mut k: usize = 0;
    assert(tv.take(0) =~= Seq::<(Seq<char>, Seq<char>, Seq<char>)>::empty());
    while k < ps.len()
        invariant
            k <= ps@.len(),
            tv == triples_view(ps@),
            props_view(props@) == merge_props(p0, tv.take(k as int)),
        decreases ps.len() - k,
    {
        assert(tv.take(k + 1).drop_last() =~= tv.take(k as int));
        assert(tv.take(k + 1).last() == (ps@[k as int].0@, ps@[k as int].1@, ps@[k as int].2@));
        merge_prop_into(props, &ps[k]);
        k += 1;
    }
    assert(tv.take(ps@.len() as int) =~= tv);
}

fn in_names_of(pairs: &Vec<(String, String)>, name: &str) -> (b: bool)
    ensures
        b == in_names(pairs_view(pairs@), name@),
{
    let ghost pv = pairs_view(pairs@);
    let mut k: usize = 0;
    while k < pairs.len()
        invariant
            k <= pairs@.len(),
            pv == pairs_view(pairs@),
            forall|i: int| 0 <= i < k ==> pv[i].0 != name@,
        decreases pairs.len() - k,
    {
        assert(pv[k as int].0 == pairs@[k as int].0@);
        if str_eq(pairs[k].0.as_str(), name) {
            return true;
        }
        k += 1;
    }
    false
}

fn is_removed_by(o: &OverrideEntry, name: &str) -> (b: bool)
    ensures
        b == removed_by(o@, name@),
{
    (o.children_before_render == Some(true) && (str_eq(name, "child") || str_eq(name, "children")))
        || match &o.slots {
        Some(sl) => in_names_of(sl, name),
        None => false,
    }
}

fn in_first_of(ps: &Vec<(String, String, String)>, name: &str) -> (b: bool)
    ensures
        b == exists|i: int| 0 <= i < ps@.len() && #[trigger] triples_view(ps@)[i].0 == name@,
{
    let ghost tv = triples_view(ps@);
    let mut k: usize = 0;
    while k < ps.len()
        invariant
            k <= ps@.len(),
            tv == triples_view(ps@),
            forall|i: int| 0 <= i < k ==> tv[i].0 != name@,
        decreases ps.len() - k,
    {
        assert(tv[k as int].0 == ps@[k as int].0@);
        if str_eq(ps[k].0.as_str(), name) {
            return true;
        }
        k += 1;
    }
    false
}

fn is_cleared_by(o: &OverrideEntry, name: &str) -> (b: bool)
    ensures
        b == cleared_by(o@, name@),
{
    let in_props = match &o.props {
        Some(ps) => {
            let b = in_first_of(ps, name);
            assert(o@.props == Some(triples_view(ps@)));
            b
        },
        None => false,
    };
    assert(in_props == (o@.props matches Some(ps) && exists|i: int| 0 <= i < ps.len() && #[trigger] ps[i].0 == name@));
    let in_slots = match &o.slots {
        Some(sl) => in_names_of(sl, name),
        None => false,
    };
    in_props || in_slots || (o.children_before_render == Some(true) && (str_eq(name, "child") || str_eq(
        name,
        "children",
    )))
}

fn until_tick_of(s: &[char], from: usize) -> (r: Vec<char>)
    requires
        from <= s@.len(),
    ensures
        r@ == until_tick(s@.skip(from as int)),
{
    let mut out: Vec<char> = Vec::new();
    let mut k: usize = from;
    while k < s.len() && s[k] != '`'
        invariant
            from <= k <= s@.len(),
            out@ + until_tick(s@.skip(k as int)) == until_tick(s@.skip(from as int)),
        decreases s.len() - k,
    {
        assert(s@.skip(k as int).drop_first() =~= s@.skip(k + 1));
        let ghost pre = out@;
        out.push(s[k]);
        assert(pre + until_tick(s@.skip(k as int)) =~= out@ + until_tick(s@.skip(k + 1)));
        k += 1;
    }
    assert(out@ + until_tick(s@.skip(k as int)) =~= out@);
    out
}

fn is_note_kept(o: &OverrideEntry, note: &str) -> (b: bool)
    ensures
        b == note_kept(o@, note@),
{
    let nv = chars_of(note);
    let pv = chars_of("review needed: prop `");
    if !crate::strings::starts_with_chars(nv.as_slice(), pv.as_slice()) {
        return true;
    }
    let name = until_tick_of(nv.as_slice(), pv.len());
    let ns = crate::strings::string_of(name.as_slice());
    !is_cleared_by(o, ns.as_str())
}

fn keep_props_of(props: &Vec<PropInfo>, o: &OverrideEntry) -> (r: Vec<PropInfo>)
    ensures
        props_view(r@) == keep_props(props_view(props@), o@),
{
    let ghost pv = props_view(props@);
    let mut out: Vec<PropInfo> = Vec::new();
    let mut k: usize = 0;
    assert(pv.take(0) =~= Seq::<(Seq<char>, Seq<char>, PropValue)>::empty());
    while k < props.len()
        invariant
            k <= props@.len(),
            pv == props_view(props@),
            props_view(out@) == keep_props(pv.take(k as int), o@),
        decreases props.len() - k,
    {
        let ghost pre = props_view(out@);
        assert(pv.take(k + 1).drop_last() =~= pv.take(k as int));
        assert(pv.take(k + 1).last() == pv[k as int]);
        if !is_removed_by(o, props[k].name.as_str()) {
            out.push(clone_prop(&props[k]));
            assert(props_view(out@) =~= pre + seq![pv[k as int]]);
        } else {
            assert(pre + Seq::<(Seq<char>, Seq<char>, PropValue)>::empty() =~= pre);
        }
        k += 1;
    }
    assert(pv.take(props@.len() as int) =~= pv);
    out
}

fn keep_notes_of(notes: &Vec<String>, o: &OverrideEntry) -> (r: Vec<String>)
    ensures
        strs_view(r@) == keep_notes(strs_view(notes@), o@),
{
    let ghost nv = strs_view(notes@);
    let mut out: Vec<String> = Vec::new();
    let mut k: usize = 0;
    assert(nv.take(0) =~= Seq::<Seq<char>>::empty());
    while k < notes.len()
        invariant
            k <= notes@.len(),
            nv == strs_view(notes@),
            strs_view(out@) == keep_notes(nv.take(k as int), o@),
        decreases notes.len() - k,
    {
        let ghost pre = strs_view(out@);
        assert(nv.take(k + 1).drop_last() =~= nv.take(k as int));
        assert(nv.take(k + 1).last() == nv[k as int]);
        if is_note_kept(o, notes[k].as_str()) {
            out.push(notes[k].clone());
            assert(strs_view(out@) =~= pre + seq![nv[k as int]]);
        } else {
            assert(pre + Seq::<Seq<char>>::empty() =~= pre);
        }
        k += 1;
    }
    assert(nv.take(notes@.len() as int) =~= nv);
    out
}

/// Applies one override to an extracted entry (see `merge_entry`).
pub fn merge_override(e: Extracted, o: &OverrideEntry) -> (r: Extracted)
    ensures
        r@ == merge_entry(e@, o@),
{
    let mut e = e;
    if let Some(f) = &o.factory {
        e.factory = f.clone();
    }
    if let Some(v) = o.supports_text_child {
        e.supports_text_child = v;
    }
    if let Some(v) = o.needs_window {
        e.needs_window = v;
    }
    if let Some(v) = o.children_before_render {
        e.children_before_render = v;
    }
    if let Some(v) = o.unwrap_children {
        e.unwrap_children = v;
    }
    if let Some(sl) = &o.slots {
        e.slots = slots_of(sl);
    }
    if let Some(ps) = &o.props {
        merge_props_into(&mut e.props, ps);
    }
    if let Some(ev) = &o.events {
        e.events = clone_pairs(ev);
    }
    e.props = keep_props_of(&e.props, o);
    e.notes = keep_notes_of(&e.notes, o);
    e
}

/// The first override for tag `t`, from position `i` on.
pub open spec fn first_override(ovs: Seq<SOverride>, t: Seq<char>, i: int) -> Option<SOverride>
    decreases ovs.len() - i,
{
    if i < 0 || i >= ovs.len() {
        None
    } else if ovs[i].tag == t {
        Some(ovs[i])
    } else {
        first_override(ovs, t, i + 1)
    }
}

/// Whether an override turns tag `t` into control flow.
pub open spec fn replaced(ovs: Seq<SOverride>, t: Seq<char>) -> bool {
    exists|i: int| 0 <= i < ovs.len() && #[trigger] ovs[i].tag == t && ovs[i].kind == "ControlFlow"@
}

/// The last entry with tag `t`.
pub open spec fn last_with_tag(es: Seq<SExtracted>, t: Seq<char>) -> Option<SExtracted>
    decreases es.len(),
{
    if es.len() == 0 {
        None
    } else if es.last().tag == t {
        Some(es.last())
    } else {
        last_with_tag(es.drop_last(), t)
    }
}

/// The last entry of each tag that is not turned into control flow.
pub open spec fn kept_for(es: Seq<SExtracted>, ovs: Seq<SOverride>) -> spec_fn(Seq<char>) -> Option<
    SExtracted,
> {
    |t: Seq<char>|
        if replaced(ovs, t) {
            None
        } else {
            last_with_tag(es, t)
        }
}

/// What the overrides make of the entries, by tag: the last entry of
/// the tag, unless an override turns the tag into control flow, with
/// the tag's first override applied.
pub open spec fn merged_for(es: Seq<SExtracted>, ovs: Seq<SOverride>) -> spec_fn(Seq<char>) -> Option<
    SExtracted,
> {
    |t: Seq<char>|
        match kept_for(es, ovs)(t) {
            Some(e) => Some(
                match first_override(ovs, t, 0) {
                    Some(o) => merge_entry(e, o),
                    None => e,
                },
            ),
            None => None,
        }
}

proof fn lemma_last_with_tag(es: Seq<SExtracted>, t: Seq<char>)
    ensures
        last_with_tag(es, t) is Some <==> exists|i: int| 0 <= i < es.len() && #[trigger] es[i].tag == t,
        last_with_tag(es, t) matches Some(e) ==> e.tag == t,
    decreases es.len(),
{
    if es.len() > 0 {
        lemma_last_with_tag(es.drop_last(), t);
        if es.last().tag != t {
            if exists|i: int| 0 <= i < es.len() && #[trigger] es[i].tag == t {
                let i = choose|i: int| 0 <= i < es.len() && #[trigger] es[i].tag == t;
                assert(i < es.len() - 1);
                assert(es.drop_last()[i].tag == t);
            }
        } else {
            assert(es[es.len() - 1].tag == t);
        }
    }
}

/// The merged table has its tags strictly ascending, and holds exactly
/// the tags of the extracted entries that no override turns into
/// control flow: one entry each.
pub proof fn lemma_merged_tags(es: Seq<SExtracted>, ovs: Seq<SOverride>, out: Seq<SExtracted>)
    requires
        lists(out, merged_for(es, ovs)),
    ensures
        tags_sorted(out),
        forall|t: Seq<char>|
            (exists|j: int| 0 <= j < out.len() && #[trigger] out[j].tag == t) <==> ((exists|i: int|
                0 <= i < es.len() && #[trigger] es[i].tag == t) && !replaced(ovs, t)),
{
    let g = merged_for(es, ovs);
    assert forall|t: Seq<char>|
        (exists|j: int| 0 <= j < out.len() && #[trigger] out[j].tag == t) <==> ((exists|i: int|
            0 <= i < es.len() && #[trigger] es[i].tag == t) && !replaced(ovs, t)) by {
        lemma_last_with_tag(es, t);
        if exists|j: int| 0 <= j < out.len() && #[trigger] out[j].tag == t {
            let j = choose|j: int| 0 <= j < out.len() && #[trigger] out[j].tag == t;
            assert(g(out[j].tag) == Some(out[j]));
        }
        if (exists|i: int| 0 <= i < es.len() && #[trigger] es[i].tag == t) && !replaced(ovs, t) {
            assert(g(t) is Some);
        }
    }
}

proof fn lemma_prop_index(props: Seq<(Seq<char>, Seq<char>, PropValue)>, name: Seq<char>, i: int)
    requires
        0 <= i,
    ensures
        prop_index(props, name, i) matches Some(k) ==> i <= k < props.len() && props[k].0 == name,
    decreases props.len() - i,
{
    if i < props.len() && props[i].0 != name {
        lemma_prop_index(props, name, i + 1);
    }
}

/// Whether some prop is exactly `(name, setter, value)`.
pub open spec fn has_prop(props: Seq<(Seq<char>, Seq<char>, PropValue)>, q: (Seq<char>, Seq<char>, PropValue)) -> bool {
    exists|i: int| 0 <= i < props.len() && #[trigger] props[i] == q
}

/// Merging one override prop keeps every prop of another name, and
/// holds the merged prop itself when its kind reads.
proof fn lemma_merge_prop(
    props: Seq<(Seq<char>, Seq<char>, PropValue)>,
    p: (Seq<char>, Seq<char>, Seq<char>),
    q: (Seq<char>, Seq<char>, PropValue),
)
    ensures
        has_prop(props, q) && q.0 != p.0 ==> has_prop(merge_prop(props, p), q),
        spec_prop_value(p.2) matches Some(v) ==> has_prop(merge_prop(props, p), (p.0, p.1, v)),
{
    lemma_prop_index(props, p.0, 0);
    let r = merge_prop(props, p);
    if has_prop(props, q) && q.0 != p.0 {
        let i = choose|i: int| 0 <= i < props.len() && #[trigger] props[i] == q;
        assert(r[i] == q);
    }
    if let Some(v) = spec_prop_value(p.2) {
        match prop_index(props, p.0, 0) {
            Some(k) => assert(r[k] == (p.0, p.1, v)),
            None => assert(r[props.len() as int] == (p.0, p.1, v)),
        }
    }
}

/// Each override prop whose kind reads, and that no later override
/// prop of the same name overrides, is in the merged props with its
/// setter and kind.
pub proof fn lemma_merge_props_has(
    props: Seq<(Seq<char>, Seq<char>, PropValue)>,
    ps: Seq<(Seq<char>, Seq<char>, Seq<char>)>,
    k: int,
)
    requires
        0 <= k < ps.len(),
        spec_prop_value(ps[k].2) is Some,
        forall|j: int| k < j < ps.len() ==> #[trigger] ps[j].0 != ps[k].0,
    ensures
        has_prop(merge_props(props, ps), (ps[k].0, ps[k].1, spec_prop_value(ps[k].2)->0)),
    decreases ps.len(),
{
    let q = (ps[k].0, ps[k].1, spec_prop_value(ps[k].2)->0);
    if k == ps.len() - 1 {
        lemma_merge_prop(merge_props(props, ps.drop_last()), ps.last(), q);
    } else {
        let d = ps.drop_last();
        assert(d[k] == ps[k]);
        assert forall|j: int| k < j < d.len() implies #[trigger] d[j].0 != d[k].0 by {
            assert(d[j] == ps[j]);
        }
        lemma_merge_props_has(props, d, k);
        assert(ps.last().0 != ps[k].0);
        lemma_merge_prop(merge_props(props, d), ps.last(), q);
    }
}

/// Taking over props keeps every prop the override does not remove.
pub proof fn lemma_keep_props_has(
    props: Seq<(Seq<char>, Seq<char>, PropValue)>,
    o: SOverride,
    q: (Seq<char>, Seq<char>, PropValue),
)
    requires
        has_prop(props, q),
        !removed_by(o, q.0),
    ensures
        has_prop(keep_props(props, o), q),
    decreases props.len(),
{
    let i = choose|i: int| 0 <= i < props.len() && #[trigger] props[i] == q;
    let kp = keep_props(props.drop_last(), o);
    if i == props.len() - 1 {
        assert(keep_props(props, o)[kp.len() as int] == q);
    } else {
        assert(props.drop_last()[i] == q);
        lemma_keep_props_has(props.drop_last(), o, q);
        let j = choose|j: int| 0 <= j < kp.len() && #[trigger] kp[j] == q;
        assert(keep_props(props, o)[j] == q);
    }
}

/// An entry with its override applied takes the override's factory,
/// and holds each override prop whose kind reads, that the override
/// does not take over as a slot or as `child`/`children`, and that no
/// later override prop of the same name overrides, with its setter and
/// kind.
pub proof fn lemma_merge_entry_props(e: SExtracted, o: SOverride, k: int)
    requires
        o.props matches Some(ps) && 0 <= k < ps.len() && spec_prop_value(ps[k].2) is Some
            && !removed_by(o, ps[k].0) && forall|j: int| k < j < ps.len() ==> #[trigger] ps[j].0 != ps[k].0,
    ensures
        o.factory matches Some(f) ==> merge_entry(e, o).factory == f,
        has_prop(
            merge_entry(e, o).props,
            (o.props->0[k].0, o.props->0[k].1, spec_prop_value(o.props->0[k].2)->0),
        ),
        merge_entry(e, o).tag == e.tag,
{
    let ps = o.props->0;
    lemma_merge_props_has(e.props, ps, k);
    lemma_keep_props_has(merge_props(e.props, ps), o, (ps[k].0, ps[k].1, spec_prop_value(ps[k].2)->0));
}

proof fn lemma_insert_sorted(av: Seq<SExtracted>, j: int, e: SExtracted)
    requires
        tags_sorted(av),
        0 <= j <= av.len(),
        forall|i: int| 0 <= i < j ==> lex_lt(#[trigger] av[i].tag, e.tag),
        j < av.len() ==> lex_lt(e.tag, av[j].tag),
    ensures
        tags_sorted(av.insert(j, e)),
{
    let nv = av.insert(j, e);
    assert forall|a: int, b: int| 0 <= a < b < nv.len() implies lex_lt(
        #[trigger] nv[a].tag,
        #[trigger] nv[b].tag,
    ) by {
        if b < j {
            assert(nv[a] == av[a] && nv[b] == av[b]);
        } else if b == j {
            assert(nv[a] == av[a]);
        } else if a == j {
            assert(nv[b] == av[b - 1]);
            if b - 1 > j {
                assert(lex_lt(av[j].tag, av[b - 1].tag));
                lemma_lex_transitive(e.tag, av[j].tag, av[b - 1].tag);
            }
        } else if a < j {
            assert(nv[a] == av[a] && nv[b] == av[b - 1]);
            if a < b - 1 {
                assert(lex_lt(av[a].tag, av[b - 1].tag));
            } else {
                assert(false);
            }
        } else {
            assert(nv[a] == av[a - 1] && nv[b] == av[b - 1]);
        }
    }
}

fn is_replaced(ovs: &[OverrideEntry], t: &str) -> (b: bool)
    ensures
        b == replaced(ovs_view(ovs@), t@),
{
    let ghost ov = ovs_view(ovs@);
    let mut k: usize = 0;
    while k < ovs.len()
        invariant
            k <= ovs@.len(),
            ov == ovs_view(ovs@),
            forall|i: int| 0 <= i < k ==> !(#[trigger] ov[i].tag == t@ && ov[i].kind == "ControlFlow"@),
        decreases ovs.len() - k,
    {
        assert(ov[k as int] == ovs@[k as int]@);
        if str_eq(ovs[k].tag.as_str(), t) && str_eq(ovs[k].kind.as_str(), "ControlFlow") {
            assert(ov[k as int].tag == t@ && ov[k as int].kind == "ControlFlow"@);
            return true;
        }
        k += 1;
    }
    false
}

fn first_override_in(ovs: &[OverrideEntry], t: &str) -> (r: Option<usize>)
    ensures
        match r {
            Some(k) => k < ovs@.len() && first_override(ovs_view(ovs@), t@, 0) == Some(ovs@[k as int]@),
            None => first_override(ovs_view(ovs@), t@, 0) is None,
        },
{
    let ghost ov = ovs_view(ovs@);
    let mut k: usize = 0;
    while k < ovs.len()
        invariant
            k <= ovs@.len(),
            ov == ovs_view(ovs@),
            first_override(ov, t@, 0) == first_override(ov, t@, k as int),
        decreases ovs.len() - k,
    {
        assert(ov[k as int] == ovs@[k as int]@);
        if str_eq(ovs[k].tag.as_str(), t) {
            return Some(k);
        }
        k += 1;
    }
    None
}

/// The entries keyed by tag: for each tag, the last entry with it, in
/// tag order; tags that an override turns into control flow are left
/// out.
fn keep_last_by_tag(entries: Vec<Extracted>, ovs: &[OverrideEntry]) -> (r: Vec<Extracted>)
    ensures
        lists(entries_view(r@), kept_for(entries_view(entries@), ovs_view(ovs@))),
{
    let ghost es = entries_view(entries@);
    let ghost ov = ovs_view(ovs@);
    let mut entries = entries;
    let mut acc: Vec<Extracted> = Vec::new();
    let mut k: usize = 0;
    let n = entries.len();
    assert(es.take(0) =~= Seq::<SExtracted>::empty());
    assert(entries_view(entries@) =~= es.skip(0));
    while k < n
        invariant
            k <= n,
            n == es.len(),
            entries_view(entries@) == es.skip(k as int),
            ov == ovs_view(ovs@),
            lists(entries_view(acc@), kept_for(es.take(k as int), ov)),
        decreases n - k,
    {
        let ghost av = entries_view(acc@);
        let ghost f_old = kept_for(es.take(k as int), ov);
        let ghost f_new = kept_for(es.take(k + 1), ov);
        assert(entries_view(entries@).len() == n - k);
        assert(entries_view(entries@)[0] == es[k as int]);
        let ghost pre = entries@;
        let e = entries.remove(0);
        assert(entries@ =~= pre.drop_first());
        assert(e@ == es[k as int]);
        assert forall|i: int| 0 <= i < entries@.len() implies #[trigger] entries_view(entries@)[i] == es.skip(
            k + 1,
        )[i] by {
            assert(entries@[i] == pre[i + 1]);
            assert(entries_view(pre)[i + 1] == es.skip(k as int)[i + 1]);
        }
        assert(entries_view(entries@) =~= es.skip(k + 1));
        assert(es.take(k + 1).drop_last() =~= es.take(k as int));
        assert(es.take(k + 1).last() == es[k as int]);
        let ghost t = e@.tag;
        assert forall|u: Seq<char>| u != t implies #[trigger] f_new(u) == f_old(u) by {}
        if is_replaced(ovs, e.tag.as_str()) {
            assert(f_new(t) is None);
            assert forall|u: Seq<char>| #[trigger] f_new(u) == f_old(u) by {
                if u == t {
                    assert(f_old(u) is None);
                }
            }
            assert(f_new =~= f_old);
        } else {
            assert(f_new(t) == Some(e@));
            let mut j: usize = 0;
            while j < acc.len() && str_less(acc[j].tag.as_str(), e.tag.as_str())
                invariant
                    j <= acc@.len(),
                    av == entries_view(acc@),
                    forall|i: int| 0 <= i < j ==> lex_lt(#[trigger] av[i].tag, t),
                    t == e@.tag,
                decreases acc.len() - j,
            {
                assert(av[j as int] == acc@[j as int]@);
                j += 1;
            }
            if j < acc.len() && str_eq(acc[j].tag.as_str(), e.tag.as_str()) {
                assert(av[j as int].tag == t);
                acc.set(j, e);
                let ghost nv = entries_view(acc@);
                assert(nv =~= av.update(j as int, es[k as int]));
                assert(lists(nv, f_new)) by {
                    assert forall|a: int, b: int| 0 <= a < b < nv.len() implies lex_lt(
                        #[trigger] nv[a].tag,
                        #[trigger] nv[b].tag,
                    ) by {
                        assert(av[a].tag == nv[a].tag && av[b].tag == nv[b].tag);
                    }
                    assert forall|i: int| 0 <= i < nv.len() implies f_new(#[trigger] nv[i].tag) == Some(
                        nv[i],
                    ) by {
                        if i != j {
                            if av[i].tag == t {
                                if i < j {
                                    assert(lex_lt(av[i].tag, av[j as int].tag));
                                } else {
                                    assert(lex_lt(av[j as int].tag, av[i].tag));
                                }
                                lemma_lex_irreflexive(t);
                            }
                            assert(f_old(av[i].tag) == Some(av[i]));
                        }
                    }
                    assert forall|u: Seq<char>| #[trigger] f_new(u) is Some implies exists|i: int|
                        0 <= i < nv.len() && nv[i].tag == u by {
                        if u == t {
                            assert(nv[j as int].tag == u);
                        } else {
                            assert(f_old(u) is Some);
                            let i = choose|i: int| 0 <= i < av.len() && av[i].tag == u;
                            assert(nv[i].tag == u);
                        }
                    }
                }
            } else {
                proof {
                    if j < av.len() {
                        lemma_lex_total(t, av[j as int].tag);
                    }
                    lemma_insert_sorted(av, j as int, e@);
                }
                acc.insert(j, e);
                let ghost nv = entries_view(acc@);
                assert(nv =~= av.insert(j as int, es[k as int]));
                assert(lists(nv, f_new)) by {
                    assert forall|i: int| 0 <= i < nv.len() implies f_new(#[trigger] nv[i].tag) == Some(
                        nv[i],
                    ) by {
                        if i != j {
                            let i0 = if i < j {
                                i
                            } else {
                                i - 1
                            };
                            assert(nv[i] == av[i0]);
                            assert(f_old(av[i0].tag) == Some(av[i0]));
                            if av[i0].tag == t {
                                if i0 < j {
                                    assert(lex_lt(av[i0].tag, t));
                                } else {
                                    assert(lex_lt(t, av[j as int].tag));
                                    if i0 > j {
                                        assert(lex_lt(av[j as int].tag, av[i0].tag));
                                        lemma_lex_transitive(t, av[j as int].tag, av[i0].tag);
                                    }
                                }
                                lemma_lex_irreflexive(t);
                            }
                        }
                    }
                    assert forall|u: Seq<char>| #[trigger] f_new(u) is Some implies exists|i: int|
                        0 <= i < nv.len() && nv[i].tag == u by {
                        if u == t {
                            assert(nv[j as int].tag == u);
                        } else {
                            assert(f_old(u) is Some);
                            let i = choose|i: int| 0 <= i < av.len() && av[i].tag == u;
                            if i < j {
                                assert(nv[i].tag == u);
                            } else {
                                assert(nv[i + 1].tag == u);
                            }
                        }
                    }
                }
            }
        }
        k += 1;
    }
    assert(es.take(n as int) =~= es);
    acc
}

/// Merges the overrides into the extracted entries: one entry per tag,
/// in tag order, the last extracted entry of a tag winning; tags that an
/// override turns into control flow are dropped; each entry takes the
/// fields its tag's first override sets (see `merge_entry`).
pub fn apply_overrides(entries: Vec<Extracted>, overrides: &[OverrideEntry]) -> (r: Vec<Extracted>)
    ensures
        lists(entries_view(r@), merged_for(entries_view(entries@), ovs_view(overrides@))),
{
    let ghost es = entries_view(entries@);
    let ghost ov = ovs_view(overrides@);
    let ghost f = kept_for(es, ov);
    let ghost g = merged_for(es, ov);
    let mut acc = keep_last_by_tag(entries, overrides);
    let ghost av = entries_view(acc@);
    let n = acc.len();
    let mut out: Vec<Extracted> = Vec::new();
    let mut k: usize = 0;
    assert(entries_view(acc@) =~= av.skip(0));
    while k < n
        invariant
            k <= n,
            n == av.len(),
            lists(av, f),
            f == kept_for(es, ov),
            g == merged_for(es, ov),
            ov == ovs_view(overrides@),
            entries_view(acc@) == av.skip(k as int),
            out@.len() == k,
            forall|i: int| 0 <= i < k ==> #[trigger] out@[i]@ == g(av[i].tag)->0 && out@[i]@.tag == av[i].tag,
        decreases n - k,
    {
        assert(entries_view(acc@).len() == n - k);
        assert(entries_view(acc@)[0] == av[k as int]);
        let ghost pre = acc@;
        let e = acc.remove(0);
        assert(acc@ =~= pre.drop_first());
        assert forall|i: int| 0 <= i < acc@.len() implies #[trigger] entries_view(acc@)[i] == av.skip(k + 1)[i] by {
            assert(acc@[i] == pre[i + 1]);
            assert(entries_view(pre)[i + 1] == av.skip(k as int)[i + 1]);
        }
        assert(entries_view(acc@) =~= av.skip(k + 1));
        assert(f(av[k as int].tag) == Some(av[k as int]));
        let merged = match first_override_in(overrides, e.tag.as_str()) {
            Some(oi) => merge_override(e, &overrides[oi]),
            None => e,
        };
        out.push(merged);
        k += 1;
    }
    let ghost outv = entries_view(out@);
    assert(lists(outv, g)) by {
        assert forall|j: int| 0 <= j < outv.len() implies #[trigger] outv[j].tag == av[j].tag by {
            assert(out@[j]@.tag == av[j].tag);
        }
        assert forall|a: int, b: int| 0 <= a < b < outv.len() implies lex_lt(
            #[trigger] outv[a].tag,
            #[trigger] outv[b].tag,
        ) by {
            assert(outv[a].tag == av[a].tag && outv[b].tag == av[b].tag);
        }
        assert forall|j: int| 0 <= j < outv.len() implies g(#[trigger] outv[j].tag) == Some(outv[j]) by {
            assert(outv[j].tag == av[j].tag);
            assert(f(av[j].tag) == Some(av[j]));
            assert(out@[j]@ == g(av[j].tag)->0);
        }
        assert forall|t: Seq<char>| #[trigger] g(t) is Some implies exists|j: int|
            0 <= j < outv.len() && outv[j].tag == t by {
            assert(f(t) is Some);
            let j = choose|j: int| 0 <= j < av.len() && av[j].tag == t;
            assert(outv[j].tag == av[j].tag);
        }
    }
    out
}

/// The entry a control-flow override stands for in the generated
/// table: only its tag and a note naming its variant.
pub open spec fn synthetic(o: SOverride) -> SExtracted {
    SExtracted {
        tag: o.tag,
        factory: seq![],
        extra_args: seq![],
        needs_app: false,
        needs_window: false,
        render: crate::schemagen::RenderKind::Compose,
        props: seq![],
        events: seq![],
        supports_text_child: false,
        children_before_render: false,
        unwrap_children: false,
        slots: seq![],
        notes: seq!["control flow: "@ + crate::render::opt_debug(o.control_flow)],
    }
}

/// An override as an entry of its own: a control-flow override gives a
/// marker entry, any other kind none.
pub fn override_to_extracted(o: &OverrideEntry) -> (r: Option<Extracted>)
    ensures
        match r {
            Some(e) => o@.kind == "ControlFlow"@ && e@ == synthetic(o@),
            None => o@.kind != "ControlFlow"@,
        },
{
    if !str_eq(o.kind.as_str(), "ControlFlow") {
        return None;
    }
    let d = crate::render::debug_opt(&o.control_flow);
    let note = crate::values::cat2("control flow: ", d.as_str());
    let mut notes: Vec<String> = Vec::new();
    notes.push(note);
    let e = Extracted {
        tag: o.tag.clone(),
        factory: String::new(),
        extra_args: Vec::new(),
        needs_app: false,
        needs_window: false,
        render: crate::schemagen::RenderKind::Compose,
        props: Vec::new(),
        events: Vec::new(),
        supports_text_child: false,
        children_before_render: false,
        unwrap_children: false,
        slots: Vec::new(),
        notes,
    };
    assert(e@ =~= synthetic(o@)) by {
        assert(e@.factory =~= Seq::<char>::empty());
        assert(e@.extra_args =~= Seq::<(crate::schema::ExtraArgKind, Seq<char>)>::empty());
        assert(e@.props =~= Seq::<(Seq<char>, Seq<char>, PropValue)>::empty());
        assert(e@.events =~= Seq::<(Seq<char>, Seq<char>)>::empty());
        assert(e@.slots =~= Seq::<(Seq<char>, Seq<char>)>::empty());
        assert(e@.notes =~= seq!["control flow: "@ + crate::render::opt_debug(o@.control_flow)]);
    }
    Some(e)
}

/// The first control-flow override for tag `t`.
pub open spec fn first_cf(ovs: Seq<SOverride>, t: Seq<char>) -> Option<SOverride>
    decreases ovs.len(),
{
    if ovs.len() == 0 {
        None
    } else {
        match first_cf(ovs.drop_last(), t) {
            Some(o) => Some(o),
            None => if ovs.last().tag == t && ovs.last().kind == "ControlFlow"@ {
                Some(ovs.last())
            } else {
                None
            },
        }
    }
}

/// The generated table by tag: a control-flow override's marker for
/// its tag, else what the overrides make of the extracted entries.
pub open spec fn table_for(es: Seq<SExtracted>, ovs: Seq<SOverride>) -> spec_fn(Seq<char>) -> Option<
    SExtracted,
> {
    |t: Seq<char>|
        match first_cf(ovs, t) {
            Some(o) => Some(synthetic(o)),
            None => merged_for(es, ovs)(t),
        }
}

proof fn lemma_search_absent(av: Seq<SExtracted>, j: int, t: Seq<char>)
    requires
        tags_sorted(av),
        0 <= j <= av.len(),
        forall|i: int| 0 <= i < j ==> lex_lt(#[trigger] av[i].tag, t),
        j < av.len() ==> av[j].tag != t && !lex_lt(av[j].tag, t),
    ensures
        j < av.len() ==> lex_lt(t, av[j].tag),
        forall|i: int| 0 <= i < av.len() ==> #[trigger] av[i].tag != t,
{
    if j < av.len() {
        lemma_lex_total(t, av[j].tag);
    }
    assert forall|i: int| 0 <= i < av.len() implies #[trigger] av[i].tag != t by {
        lemma_lex_irreflexive(t);
        if i > j {
            assert(lex_lt(av[j].tag, av[i].tag));
            lemma_lex_transitive(t, av[j].tag, av[i].tag);
        }
    }
}

proof fn lemma_insert_listing(
    av: Seq<SExtracted>,
    j: int,
    x: SExtracted,
    f_old: spec_fn(Seq<char>) -> Option<SExtracted>,
    f_new: spec_fn(Seq<char>) -> Option<SExtracted>,
)
    requires
        lists(av, f_old),
        0 <= j <= av.len(),
        forall|i: int| 0 <= i < j ==> lex_lt(#[trigger] av[i].tag, x.tag),
        j < av.len() ==> lex_lt(x.tag, av[j].tag),
        forall|i: int| 0 <= i < av.len() ==> #[trigger] av[i].tag != x.tag,
        f_new(x.tag) == Some(x),
        forall|u: Seq<char>| u != x.tag ==> #[trigger] f_new(u) == f_old(u),
    ensures
        lists(av.insert(j, x), f_new),
{
    lemma_insert_sorted(av, j, x);
    let nv = av.insert(j, x);
    assert forall|i: int| 0 <= i < nv.len() implies f_new(#[trigger] nv[i].tag) == Some(nv[i]) by {
        if i != j {
            let i0 = if i < j {
                i
            } else {
                i - 1
            };
            assert(nv[i] == av[i0]);
            assert(f_old(av[i0].tag) == Some(av[i0]));
        }
    }
    assert forall|u: Seq<char>| #[trigger] f_new(u) is Some implies exists|i: int|
        0 <= i < nv.len() && nv[i].tag == u by {
        if u == x.tag {
            assert(nv[j].tag == u);
        } else {
            assert(f_old(u) is Some);
            let i = choose|i: int| 0 <= i < av.len() && av[i].tag == u;
            if i < j {
                assert(nv[i].tag == u);
            } else {
                assert(nv[i + 1].tag == u);
            }
        }
    }
}

/// The generated table: the entries with the overrides merged in (see
/// `apply_overrides`), and a marker entry for each tag that a
/// control-flow override names (its first such override), all in tag
/// order.
pub fn schema_entries(extracted: Vec<Extracted>, overrides: &[OverrideEntry]) -> (r: Vec<Extracted>)
    ensures
        lists(entries_view(r@), table_for(entries_view(extracted@), ovs_view(overrides@))),
{
    let ghost es = entries_view(extracted@);
    let ghost ov = ovs_view(overrides@);
    let mut out = apply_overrides(extracted, overrides);
    let mut k: usize = 0;
    assert(ov.take(0) =~= Seq::<SOverride>::empty());
    assert((|t: Seq<char>|
        match first_cf(ov.take(0), t) {
            Some(o) => Some(synthetic(o)),
            None => merged_for(es, ov)(t),
        }) =~= merged_for(es, ov));
    while k < overrides.len()
        invariant
            k <= overrides@.len(),
            ov == ovs_view(overrides@),
            lists(
                entries_view(out@),
                |t: Seq<char>|
                    match first_cf(ov.take(k as int), t) {
                        Some(o) => Some(synthetic(o)),
                        None => merged_for(es, ov)(t),
                    },
            ),
        decreases overrides.len() - k,
    {
        let ghost av = entries_view(out@);
        let ghost f_old = |t: Seq<char>|
            match first_cf(ov.take(k as int), t) {
                Some(o) => Some(synthetic(o)),
                None => merged_for(es, ov)(t),
            };
        let ghost f_new = |t: Seq<char>|
            match first_cf(ov.take(k + 1), t) {
                Some(o) => Some(synthetic(o)),
                None => merged_for(es, ov)(t),
            };
        assert(ov.take(k + 1).drop_last() =~= ov.take(k as int));
        assert(ov.take(k + 1).last() == overrides@[k as int]@);
        let ghost o = overrides@[k as int]@;
        assert forall|u: Seq<char>| u != o.tag implies #[trigger] f_new(u) == f_old(u) by {}
        match override_to_extracted(&overrides[k]) {
            None => {
                assert(f_new =~= f_old) by {
                    assert forall|u: Seq<char>| #[trigger] f_new(u) == f_old(u) by {}
                }
            },
            Some(x) => {
                let ghost t = o.tag;
                assert(replaced(ov, t)) by {
                    assert(ov[k as int].tag == t);
                }
                assert(merged_for(es, ov)(t) is None);
                let mut j: usize = 0;
                while j < out.len() && str_less(out[j].tag.as_str(), x.tag.as_str())
                    invariant
                        j <= out@.len(),
                        av == entries_view(out@),
                        forall|i: int| 0 <= i < j ==> lex_lt(#[trigger] av[i].tag, t),
                        t == x@.tag,
                    decreases out.len() - j,
                {
                    assert(av[j as int] == out@[j as int]@);
                    j += 1;
                }
                if j < out.len() && str_eq(out[j].tag.as_str(), x.tag.as_str()) {
                    assert(av[j as int].tag == t);
                    assert(f_old(t) is Some);
                    assert(first_cf(ov.take(k as int), t) is Some);
                    assert(f_new =~= f_old) by {
                        assert forall|u: Seq<char>| #[trigger] f_new(u) == f_old(u) by {}
                    }
                } else {
                    proof {
                        if j < av.len() {
                            assert(av[j as int] == out@[j as int]@);
                        }
                        lemma_search_absent(av, j as int, t);
                        if f_old(t) is Some {
                            let i = choose|i: int| 0 <= i < av.len() && av[i].tag == t;
                        }
                        assert(first_cf(ov.take(k as int), t) is None);
                        assert(f_new(t) == Some(x@));
                        lemma_insert_listing(av, j as int, x@, f_old, f_new);
                    }
                    out.insert(j, x);
                    assert(entries_view(out@) =~= av.insert(j as int, x@));
                }
            },
        }
        k += 1;
    }
    assert(ov.take(overrides@.len() as int) =~= ov);
    assert(table_for(es, ov) =~= (|t: Seq<char>|
        match first_cf(ov.take(overrides@.len() as int), t) {
            Some(o) => Some(synthetic(o)),
            None => merged_for(es, ov)(t),
        }));
    out
}

/// The generated table lists each tag once.
pub proof fn lemma_table_tags_distinct(es: Seq<SExtracted>, ovs: Seq<SOverride>, table: Seq<SExtracted>)
    requires
        lists(table, table_for(es, ovs)),
    ensures
        forall|i: int, j: int| 0 <= i < table.len() && 0 <= j < table.len() && i != j ==> #[trigger] table[i].tag
            != #[trigger] table[j].tag,
{
    assert forall|i: int, j: int| 0 <= i < table.len() && 0 <= j < table.len() && i != j implies #[trigger] table[i].tag
        != #[trigger] table[j].tag by {
        if i < j {
            assert(lex_lt(table[i].tag, table[j].tag));
            lemma_lex_irreflexive(table[i].tag);
        } else {
            assert(lex_lt(table[j].tag, table[i].tag));
            lemma_lex_irreflexive(table[j].tag);
        }
    }
}

/// The generated table depends on the extracted entries only through
/// the last entry of each tag: reading the headless modules in another
/// order that keeps those gives the same table.
pub proof fn lemma_table_order_free(
    es1: Seq<SExtracted>,
    es2: Seq<SExtracted>,
    ovs: Seq<SOverride>,
    table1: Seq<SExtracted>,
    table2: Seq<SExtracted>,
)
    requires
        forall|t: Seq<char>| #[trigger] last_with_tag(es1, t) == last_with_tag(es2, t),
        lists(table1, table_for(es1, ovs)),
        lists(table2, table_for(es2, ovs)),
    ensures
        table1 == table2,
{
    assert(table_for(es1, ovs) =~= table_for(es2, ovs)) by {
        assert forall|t: Seq<char>| #[trigger] table_for(es1, ovs)(t) == table_for(es2, ovs)(t) by {
            assert(last_with_tag(es1, t) == last_with_tag(es2, t));
        }
    }
    lemma_lists_unique(table1, table2, table_for(es1, ovs));
}

proof fn lemma_keep_props_kept(props: Seq<(Seq<char>, Seq<char>, PropValue)>, o: SOverride)
    ensures
        forall|i: int| 0 <= i < keep_props(props, o).len() ==> !removed_by(o, #[trigger] keep_props(props, o)[i].0),
    decreases props.len(),
{
    if props.len() > 0 {
        lemma_keep_props_kept(props.drop_last(), o);
        let k = keep_props(props.drop_last(), o);
        assert forall|i: int| 0 <= i < keep_props(props, o).len() implies !removed_by(
            o,
            #[trigger] keep_props(props, o)[i].0,
        ) by {
            if i < k.len() {
                assert(keep_props(props, o)[i] == k[i]);
            }
        }
    }
}

proof fn lemma_keep_notes_kept(notes: Seq<Seq<char>>, o: SOverride)
    ensures
        forall|i: int| 0 <= i < keep_notes(notes, o).len() ==> note_kept(o, #[trigger] keep_notes(notes, o)[i]),
    decreases notes.len(),
{
    if notes.len() > 0 {
        lemma_keep_notes_kept(notes.drop_last(), o);
        let k = keep_notes(notes.drop_last(), o);
        assert forall|i: int| 0 <= i < keep_notes(notes, o).len() implies note_kept(
            o,
            #[trigger] keep_notes(notes, o)[i],
        ) by {
            if i < k.len() {
                assert(keep_notes(notes, o)[i] == k[i]);
            }
        }
    }
}

/// After an override is applied, no prop is one that the override takes
/// over structurally (`child` / `children` under
/// `children_before_render`, the named slots), and no note asks to
/// review a prop that the override handles.
pub proof fn lemma_override_leaves_no_taken_props(e: SExtracted, o: SOverride)
    ensures
        forall|i: int| 0 <= i < merge_entry(e, o).props.len() ==> !removed_by(o, #[trigger] merge_entry(e, o).props[i].0),
        forall|i: int| 0 <= i < merge_entry(e, o).notes.len() ==> note_kept(o, #[trigger] merge_entry(e, o).notes[i]),
{
    let props = match o.props {
        Some(ps) => merge_props(e.props, ps),
        None => e.props,
    };
    lemma_keep_props_kept(props, o);
    lemma_keep_notes_kept(e.notes, o);
}

} // verus!
