//! Rendering the schema entries as Rust source: the `Debug` form of a
//! string (quoted and escaped) and the text of each entry.
use vstd::prelude::*;

use crate::schema::{ExtraArgKind, PropValue};
use crate::schemagen::{
    extra_view, pairs_view, props_view, slots_view, ExtraArgInfo, Extracted, PropInfo, RenderKind,
    SExtracted, SlotInfo,
};
use crate::overrides::{OverrideEntry, SOverride};
use crate::error::{decimal, push_decimal};
use crate::strings::{chars_of, push_char, str_eq};

verus! {

/// What `<str as Debug>::fmt` writes for `s`: the string quoted, with
/// the characters escaped as `char::escape_debug` does.
pub uninterp spec fn str_debug(s: Seq<char>) -> Seq<char>;

/// Printable ASCII other than `"` and `\`: the characters that `Debug`
/// writes unchanged.
pub open spec fn plain_ascii(s: Seq<char>) -> bool {
    forall|i: int| 0 <= i < s.len() ==> ' ' <= #[trigger] s[i] <= '~' && s[i] != '"' && s[i] != '\\'
}

/// `format!("{:?}", s)`: `s` in double quotes, escaped as `Debug`
/// escapes a `str`. Claimed: the text depends on `s` alone, and a
/// string of plain printable ASCII is only quoted.
#[verifier::external_body]
pub(crate) fn debug_str(s: &str) -> (r: String)
    ensures
        r@ == str_debug(s@),
        plain_ascii(s@) ==> r@ == seq!['"'] + s@ + seq!['"'],
{
    format!("{:?}", s)
}

/// What `Debug` writes for an `Option<String>`.
pub open spec fn opt_debug(o: Option<Seq<char>>) -> Seq<char> {
    match o {
        Some(s) => "Some("@ + str_debug(s) + ")"@,
        None => "None"@,
    }
}

/// `format!("{:?}", o)` for an optional string.
pub fn debug_opt(o: &Option<String>) -> (r: String)
    ensures
        r@ == opt_debug(crate::schemagen::ov(*o)),
{
    match o {
        Some(s) => {
            let d = debug_str(s.as_str());
            crate::values::cat3("Some(", d.as_str(), ")")
        },
        None => crate::strings::to_owned("None"),
    }
}

/// `true` / `false`.
pub open spec fn bool_text(b: bool) -> Seq<char> {
    if b {
        "true"@
    } else {
        "false"@
    }
}

fn bool_str(b: bool) -> (r: &'static str)
    ensures
        r@ == bool_text(b),
{
    if b {
        "true"
    } else {
        "false"
    }
}

/// The path of an `ExtraArgKind` variant.
pub open spec fn extra_kind_text(k: ExtraArgKind) -> Seq<char> {
    match k {
        ExtraArgKind::Text => "ExtraArgKind::Text"@,
        ExtraArgKind::Custom => "ExtraArgKind::Custom"@,
        ExtraArgKind::Callback => "ExtraArgKind::Callback"@,
        ExtraArgKind::UInt => "ExtraArgKind::UInt"@,
        ExtraArgKind::HeadingLevel => "ExtraArgKind::HeadingLevel"@,
        ExtraArgKind::IconSource => "ExtraArgKind::IconSource"@,
        ExtraArgKind::ImageSource => "ExtraArgKind::ImageSource"@,
        ExtraArgKind::KeybindingInputMode => "ExtraArgKind::KeybindingInputMode"@,
        ExtraArgKind::StringList => "ExtraArgKind::StringList"@,
        ExtraArgKind::Borrow => "ExtraArgKind::Borrow"@,
        ExtraArgKind::Color => "ExtraArgKind::Color"@,
    }
}

fn extra_kind_str(k: ExtraArgKind) -> (r: &'static str)
    ensures
        r@ == extra_kind_text(k),
{
    match k {
        ExtraArgKind::Text => "ExtraArgKind::Text",
        ExtraArgKind::Custom => "ExtraArgKind::Custom",
        ExtraArgKind::Callback => "ExtraArgKind::Callback",
        ExtraArgKind::UInt => "ExtraArgKind::UInt",
        ExtraArgKind::HeadingLevel => "ExtraArgKind::HeadingLevel",
        ExtraArgKind::IconSource => "ExtraArgKind::IconSource",
        ExtraArgKind::ImageSource => "ExtraArgKind::ImageSource",
        ExtraArgKind::KeybindingInputMode => "ExtraArgKind::KeybindingInputMode",
        ExtraArgKind::StringList => "ExtraArgKind::StringList",
        ExtraArgKind::Borrow => "ExtraArgKind::Borrow",
        ExtraArgKind::Color => "ExtraArgKind::Color",
    }
}

/// The path of a `PropValue` variant.
pub open spec fn prop_value_text(v: PropValue) -> Seq<char> {
    match v {
        PropValue::String => "PropValue::String"@,
        PropValue::Bool => "PropValue::Bool"@,
        PropValue::Variant => "PropValue::Variant"@,
        PropValue::Flag => "PropValue::Flag"@,
        PropValue::Unknown => "PropValue::Unknown"@,
        PropValue::Float64 => "PropValue::Float64"@,
        PropValue::Float32 => "PropValue::Float32"@,
        PropValue::UInt => "PropValue::UInt"@,
        PropValue::BadgeVariant => "PropValue::BadgeVariant"@,
        PropValue::HeadingLevel => "PropValue::HeadingLevel"@,
        PropValue::IconSource => "PropValue::IconSource"@,
        PropValue::ImageSource => "PropValue::ImageSource"@,
        PropValue::KeybindingInputMode => "PropValue::KeybindingInputMode"@,
        PropValue::Spacing => "PropValue::Spacing"@,
        PropValue::Inset => "PropValue::Inset"@,
        PropValue::AlignItems => "PropValue::AlignItems"@,
        PropValue::JustifyContent => "PropValue::JustifyContent"@,
        PropValue::Length => "PropValue::Length"@,
        PropValue::Color => "PropValue::Color"@,
        PropValue::Custom => "PropValue::Custom"@,
    }
}

/// The names the generated table writes read back as the same prop
/// kinds: `prop_value_text(v)` is `PropValue::` and a name that
/// `parse_prop_value` reads as `v`.
pub proof fn lemma_prop_value_names_read_back(v: PropValue)
    ensures
        prop_value_text(v).take(11) == "PropValue::"@,
        crate::overrides::spec_prop_value(prop_value_text(v).skip(11)) == Some(v),
{
    reveal_strlit("PropValue::");
    reveal_strlit("String");
    reveal_strlit("PropValue::String");
    reveal_strlit("Bool");
    reveal_strlit("PropValue::Bool");
    reveal_strlit("Variant");
    reveal_strlit("PropValue::Variant");
    reveal_strlit("Flag");
    reveal_strlit("PropValue::Flag");
    reveal_strlit("Unknown");
    reveal_strlit("PropValue::Unknown");
    reveal_strlit("Float64");
    reveal_strlit("PropValue::Float64");
    reveal_strlit("Float32");
    reveal_strlit("PropValue::Float32");
    reveal_strlit("UInt");
    reveal_strlit("PropValue::UInt");
    reveal_strlit("BadgeVariant");
    reveal_strlit("PropValue::BadgeVariant");
    reveal_strlit("HeadingLevel");
    reveal_strlit("PropValue::HeadingLevel");
    reveal_strlit("IconSource");
    reveal_strlit("PropValue::IconSource");
    reveal_strlit("ImageSource");
    reveal_strlit("PropValue::ImageSource");
    reveal_strlit("KeybindingInputMode");
    reveal_strlit("PropValue::KeybindingInputMode");
    reveal_strlit("Spacing");
    reveal_strlit("PropValue::Spacing");
    reveal_strlit("Inset");
    reveal_strlit("PropValue::Inset");
    reveal_strlit("AlignItems");
    reveal_strlit("PropValue::AlignItems");
    reveal_strlit("JustifyContent");
    reveal_strlit("PropValue::JustifyContent");
    reveal_strlit("Length");
    reveal_strlit("PropValue::Length");
    reveal_strlit("Color");
    reveal_strlit("PropValue::Color");
    reveal_strlit("Custom");
    reveal_strlit("PropValue::Custom");
    assert(prop_value_text(v).take(11) =~= "PropValue::"@);
    match v {
        PropValue::String => {
            assert(prop_value_text(v).skip(11) =~= "String"@);
            assert("String"@[0] != "Length"@[0]);
            assert("String"@[0] != "Custom"@[0]);
        },
        PropValue::Bool => {
            assert(prop_value_text(v).skip(11) =~= "Bool"@);
            assert("Bool"@[0] != "Flag"@[0]);
            assert("Bool"@[0] != "UInt"@[0]);
        },
        PropValue::Variant => {
            assert(prop_value_text(v).skip(11) =~= "Variant"@);
            assert("Variant"@[0] != "Unknown"@[0]);
            assert("Variant"@[0] != "Float64"@[0]);
            assert("Variant"@[0] != "Float32"@[0]);
            assert("Variant"@[0] != "Spacing"@[0]);
        },
        PropValue::Flag => {
            assert(prop_value_text(v).skip(11) =~= "Flag"@);
            assert("Flag"@[0] != "Bool"@[0]);
            assert("Flag"@[0] != "UInt"@[0]);
        },
        PropValue::Unknown => {
            assert(prop_value_text(v).skip(11) =~= "Unknown"@);
            assert("Unknown"@[0] != "Variant"@[0]);
            assert("Unknown"@[0] != "Float64"@[0]);
            assert("Unknown"@[0] != "Float32"@[0]);
            assert("Unknown"@[0] != "Spacing"@[0]);
        },
        PropValue::Float64 => {
            assert(prop_value_text(v).skip(11) =~= "Float64"@);
            assert("Float64"@[0] != "Variant"@[0]);
            assert("Float64"@[0] != "Unknown"@[0]);
            assert("Float64"@[5] != "Float32"@[5]);
            assert("Float64"@[0] != "Spacing"@[0]);
        },
        PropValue::Float32 => {
            assert(prop_value_text(v).skip(11) =~= "Float32"@);
            assert("Float32"@[0] != "Variant"@[0]);
            assert("Float32"@[0] != "Unknown"@[0]);
            assert("Float32"@[5] != "Float64"@[5]);
            assert("Float32"@[0] != "Spacing"@[0]);
        },
        PropValue::UInt => {
            assert(prop_value_text(v).skip(11) =~= "UInt"@);
            assert("UInt"@[0] != "Bool"@[0]);
            assert("UInt"@[0] != "Flag"@[0]);
        },
        PropValue::BadgeVariant => {
            assert(prop_value_text(v).skip(11) =~= "BadgeVariant"@);
            assert("BadgeVariant"@[0] != "HeadingLevel"@[0]);
        },
        PropValue::HeadingLevel => {
            assert(prop_value_text(v).skip(11) =~= "HeadingLevel"@);
            assert("HeadingLevel"@[0] != "BadgeVariant"@[0]);
        },
        PropValue::IconSource => {
            assert(prop_value_text(v).skip(11) =~= "IconSource"@);
            assert("IconSource"@[0] != "AlignItems"@[0]);
        },
        PropValue::ImageSource => {
            assert(prop_value_text(v).skip(11) =~= "ImageSource"@);
        },
        PropValue::KeybindingInputMode => {
            assert(prop_value_text(v).skip(11) =~= "KeybindingInputMode"@);
        },
        PropValue::Spacing => {
            assert(prop_value_text(v).skip(11) =~= "Spacing"@);
            assert("Spacing"@[0] != "Variant"@[0]);
            assert("Spacing"@[0] != "Unknown"@[0]);
            assert("Spacing"@[0] != "Float64"@[0]);
            assert("Spacing"@[0] != "Float32"@[0]);
        },
        PropValue::Inset => {
            assert(prop_value_text(v).skip(11) =~= "Inset"@);
            assert("Inset"@[0] != "Color"@[0]);
        },
        PropValue::AlignItems => {
            assert(prop_value_text(v).skip(11) =~= "AlignItems"@);
            assert("AlignItems"@[0] != "IconSource"@[0]);
        },
        PropValue::JustifyContent => {
            assert(prop_value_text(v).skip(11) =~= "JustifyContent"@);
        },
        PropValue::Length => {
            assert(prop_value_text(v).skip(11) =~= "Length"@);
            assert("Length"@[0] != "String"@[0]);
            assert("Length"@[0] != "Custom"@[0]);
        },
        PropValue::Color => {
            assert(prop_value_text(v).skip(11) =~= "Color"@);
            assert("Color"@[0] != "Inset"@[0]);
        },
        PropValue::Custom => {
            assert(prop_value_text(v).skip(11) =~= "Custom"@);
            assert("Custom"@[0] != "String"@[0]);
            assert("Custom"@[0] != "Length"@[0]);
        },
    }
}

fn prop_value_str(v: PropValue) -> (r: &'static str)
    ensures
        r@ == prop_value_text(v),
{
    match v {
        PropValue::String => "PropValue::String",
        PropValue::Bool => "PropValue::Bool",
        PropValue::Variant => "PropValue::Variant",
        PropValue::Flag => "PropValue::Flag",
        PropValue::Unknown => "PropValue::Unknown",
        PropValue::Float64 => "PropValue::Float64",
        PropValue::Float32 => "PropValue::Float32",
        PropValue::UInt => "PropValue::UInt",
        PropValue::BadgeVariant => "PropValue::BadgeVariant",
        PropValue::HeadingLevel => "PropValue::HeadingLevel",
        PropValue::IconSource => "PropValue::IconSource",
        PropValue::ImageSource => "PropValue::ImageSource",
        PropValue::KeybindingInputMode => "PropValue::KeybindingInputMode",
        PropValue::Spacing => "PropValue::Spacing",
        PropValue::Inset => "PropValue::Inset",
        PropValue::AlignItems => "PropValue::AlignItems",
        PropValue::JustifyContent => "PropValue::JustifyContent",
        PropValue::Length => "PropValue::Length",
        PropValue::Color => "PropValue::Color",
        PropValue::Custom => "PropValue::Custom",
    }
}

/// The `ExtraArg` literals of a leaf, each followed by `, `.
pub open spec fn extra_args_text(args: Seq<(ExtraArgKind, Seq<char>)>) -> Seq<char>
    decreases args.len(),
{
    if args.len() == 0 {
        seq![]
    } else {
        extra_args_text(args.drop_last()) + "ExtraArg { kind: "@ + extra_kind_text(args.last().0)
            + ", attr: "@ + str_debug(args.last().1) + " }, "@
    }
}

/// Renders a leaf's positional arguments as `ExtraArg` literals.
pub fn render_extra_args(args: &[ExtraArgInfo]) -> (r: String)
    ensures
        r@ == extra_args_text(extra_view(args@)),
{
    let ghost av = extra_view(args@);
    let mut out = String::new();
    let mut k: usize = 0;
    assert(av.take(0) =~= Seq::<(ExtraArgKind, Seq<char>)>::empty());
    while k < args.len()
        invariant
            k <= args@.len(),
            av == extra_view(args@),
            out@ == extra_args_text(av.take(k as int)),
        decreases args.len() - k,
    {
        assert(av.take(k + 1).drop_last() =~= av.take(k as int));
        assert(av.take(k + 1).last() == (args@[k as int].kind, args@[k as int].attr@));
        out.append("ExtraArg { kind: ");
        out.append(extra_kind_str(args[k].kind));
        out.append(", attr: ");
        let d = debug_str(args[k].attr.as_str());
        out.append(d.as_str());
        out.append(" }, ");
        k += 1;
    }
    assert(av.take(args@.len() as int) =~= av);
    out
}

/// The `PropDef` literals of a leaf, one per line.
pub open spec fn props_text(props: Seq<(Seq<char>, Seq<char>, PropValue)>) -> Seq<char>
    decreases props.len(),
{
    if props.len() == 0 {
        seq![]
    } else {
        props_text(props.drop_last()) + "PropDef { name: "@ + str_debug(props.last().0) + ", setter: "@
            + str_debug(props.last().1) + ", value: "@ + prop_value_text(props.last().2)
            + " },\n            "@
    }
}

/// Renders a leaf's props as `PropDef` literals.
pub fn render_props(props: &[PropInfo]) -> (r: String)
    ensures
        r@ == props_text(props_view(props@)),
{
    let ghost pv = props_view(props@);
    let mut out = String::new();
    let mut k: usize = 0;
    assert(pv.take(0) =~= Seq::<(Seq<char>, Seq<char>, PropValue)>::empty());
    while k < props.len()
        invariant
            k <= props@.len(),
            pv == props_view(props@),
            out@ == props_text(pv.take(k as int)),
        decreases props.len() - k,
    {
        assert(pv.take(k + 1).drop_last() =~= pv.take(k as int));
        assert(pv.take(k + 1).last() == (props@[k as int].name@, props@[k as int].setter@, props@[k as int].value));
        out.append("PropDef { name: ");
        let d = debug_str(props[k].name.as_str());
        out.append(d.as_str());
        out.append(", setter: ");
        let d2 = debug_str(props[k].setter.as_str());
        out.append(d2.as_str());
        out.append(", value: ");
        out.append(prop_value_str(props[k].value));
        out.append(" },\n            ");
        k += 1;
    }
    assert(pv.take(props@.len() as int) =~= pv);
    out
}

/// `(a, b)` pairs of `Debug`-quoted strings, each followed by `, `.
pub open spec fn pairs_text(pairs: Seq<(Seq<char>, Seq<char>)>) -> Seq<char>
    decreases pairs.len(),
{
    if pairs.len() == 0 {
        seq![]
    } else {
        pairs_text(pairs.drop_last()) + "("@ + str_debug(pairs.last().0) + ", "@ + str_debug(
            pairs.last().1,
        ) + "), "@
    }
}

/// Renders `(xml attribute, setter)` pairs (a leaf's events, a
/// container's fixed methods).
pub fn render_pairs(pairs: &[(String, String)]) -> (r: String)
    ensures
        r@ == pairs_text(pairs_view(pairs@)),
{
    let ghost pv = pairs_view(pairs@);
    let mut out = String::new();
    let mut k: usize = 0;
    assert(pv.take(0) =~= Seq::<(Seq<char>, Seq<char>)>::empty());
    while k < pairs.len()
        invariant
            k <= pairs@.len(),
            pv == pairs_view(pairs@),
            out@ == pairs_text(pv.take(k as int)),
        decreases pairs.len() - k,
    {
        assert(pv.take(k + 1).drop_last() =~= pv.take(k as int));
        assert(pv.take(k + 1).last() == (pairs@[k as int].0@, pairs@[k as int].1@));
        out.append("(");
        let d = debug_str(pairs[k].0.as_str());
        out.append(d.as_str());
        out.append(", ");
        let d2 = debug_str(pairs[k].1.as_str());
        out.append(d2.as_str());
        out.append("), ");
        k += 1;
    }
    assert(pv.take(pairs@.len() as int) =~= pv);
    out
}

/// One `SlotDef` literal.
pub open spec fn slot_text(s: (Seq<char>, Seq<char>)) -> Seq<char> {
    "SlotDef { name: "@ + str_debug(s.0) + ", setter: "@ + str_debug(s.1) + " }"@
}

/// The `SlotDef` literals, joined by `, `.
pub open spec fn slots_text(slots: Seq<(Seq<char>, Seq<char>)>) -> Seq<char>
    decreases slots.len(),
{
    if slots.len() == 0 {
        seq![]
    } else if slots.len() == 1 {
        slot_text(slots[0])
    } else {
        slots_text(slots.drop_last()) + ", "@ + slot_text(slots.last())
    }
}

fn render_slots(slots: &[SlotInfo]) -> (r: String)
    ensures
        r@ == slots_text(slots_view(slots@)),
{
    let ghost sv = slots_view(slots@);
    let mut out = String::new();
    let mut k: usize = 0;
    assert(sv.take(0) =~= Seq::<(Seq<char>, Seq<char>)>::empty());
    while k < slots.len()
        invariant
            k <= slots@.len(),
            sv == slots_view(slots@),
            out@ == slots_text(sv.take(k as int)),
        decreases slots.len() - k,
    {
        assert(sv.take(k + 1).drop_last() =~= sv.take(k as int));
        assert(sv.take(k + 1).last() == (slots@[k as int].name@, slots@[k as int].setter@));
        if k > 0 {
            out.append(", ");
        }
        out.append("SlotDef { name: ");
        let d = debug_str(slots[k].name.as_str());
        out.append(d.as_str());
        out.append(", setter: ");
        let d2 = debug_str(slots[k].setter.as_str());
        out.append(d2.as_str());
        out.append(" }");
        k += 1;
    }
    assert(sv.take(slots@.len() as int) =~= sv);
    out
}

/// The render mode a leaf is listed with (`Compose` renders as `Apply`).
pub open spec fn mode_text(r: RenderKind) -> Seq<char> {
    match r {
        RenderKind::Default => "RenderMode::Default"@,
        RenderKind::Apply => "RenderMode::Apply"@,
        RenderKind::Compose => "RenderMode::Apply"@,
    }
}

/// The `ComponentKind::Leaf(LeafDef { … })` expression of an entry.
pub open spec fn kind_text(e: SExtracted) -> Seq<char> {
    "ComponentKind::Leaf(LeafDef {\n            factory: "@ + str_debug(e.factory)
        + ",\n            extra_args: &["@ + extra_args_text(e.extra_args) + "],\n            render: "@
        + mode_text(e.render) + ",\n            needs_app: "@ + bool_text(e.needs_app)
        + ",\n            needs_window: "@ + bool_text(e.needs_window) + ",\n            props: &["@
        + props_text(e.props) + "],\n            events: &["@ + pairs_text(e.events)
        + "],\n            supports_text_child: "@ + bool_text(e.supports_text_child)
        + ",\n            children_before_render: "@ + bool_text(e.children_before_render)
        + ",\n            unwrap_children: "@ + bool_text(e.unwrap_children)
        + ",\n            slots: &["@ + slots_text(e.slots) + "],\n        })"@
}

/// Renders an entry's `ComponentKind::Leaf` expression.
pub fn render_kind(e: &Extracted) -> (r: String)
    ensures
        r@ == kind_text(e@),
{
    let mut s = crate::strings::to_owned("ComponentKind::Leaf(LeafDef {\n            factory: ");
    let d = debug_str(e.factory.as_str());
    s.append(d.as_str());
    s.append(",\n            extra_args: &[");
    let x = render_extra_args(e.extra_args.as_slice());
    s.append(x.as_str());
    s.append("],\n            render: ");
    let m = match e.render {
        RenderKind::Default => "RenderMode::Default",
        _ => "RenderMode::Apply",
    };
    s.append(m);
    s.append(",\n            needs_app: ");
    s.append(bool_str(e.needs_app));
    s.append(",\n            needs_window: ");
    s.append(bool_str(e.needs_window));
    s.append(",\n            props: &[");
    let p = render_props(e.props.as_slice());
    s.append(p.as_str());
    s.append("],\n            events: &[");
    let ev = render_pairs(e.events.as_slice());
    s.append(ev.as_str());
    s.append("],\n            supports_text_child: ");
    s.append(bool_str(e.supports_text_child));
    s.append(",\n            children_before_render: ");
    s.append(bool_str(e.children_before_render));
    s.append(",\n            unwrap_children: ");
    s.append(bool_str(e.unwrap_children));
    s.append(",\n            slots: &[");
    let sl = render_slots(e.slots.as_slice());
    s.append(sl.as_str());
    s.append("],\n        })");
    s
}

/// What follows the last `::` of a path (all of it when it has none).
pub open spec fn last_segment(s: Seq<char>) -> Seq<char>
    decreases s.len(),
{
    if s.len() < 2 {
        s
    } else if s[s.len() - 2] == ':' && s[s.len() - 1] == ':' {
        seq![]
    } else {
        last_segment(s.drop_last()) + seq![s.last()]
    }
}

pub(crate) fn last_segment_of(s: &str) -> (r: String)
    ensures
        r@ == last_segment(s@),
{
    let v = chars_of(s);
    let mut j: usize = v.len();
    assert(s@.take(j as int) =~= s@);
    assert(s@.skip(j as int) =~= Seq::<char>::empty());
    while j >= 2 && !(v[j - 2] == ':' && v[j - 1] == ':')
        invariant
            j <= v@.len(),
            v@ == s@,
            last_segment(s@) == last_segment(s@.take(j as int)) + s@.skip(j as int),
        decreases j,
    {
        assert(s@.take(j as int).drop_last() =~= s@.take(j - 1));
        assert(seq![s@[j - 1]] + s@.skip(j as int) =~= s@.skip(j - 1));
        j -= 1;
    }
    if j < 2 {
        assert(last_segment(s@.take(j as int)) == s@.take(j as int));
        assert(s@.take(j as int) + s@.skip(j as int) =~= s@);
        return crate::strings::string_of(v.as_slice());
    }
    let mut out = String::new();
    let mut k = j;
    while k < v.len()
        invariant
            j <= k <= v@.len(),
            v@ == s@,
            out@ == s@.subrange(j as int, k as int),
        decreases v.len() - k,
    {
        push_char(&mut out, v[k]);
        assert(out@ =~= s@.subrange(j as int, k + 1));
        k += 1;
    }
    assert(s@.skip(j as int) =~= s@.subrange(j as int, v@.len() as int));
    out
}

/// The doc string of an entry: the module it comes from.
pub open spec fn doc_text(e: SExtracted) -> Seq<char> {
    "auto-generated from `headless::"@ + last_segment(e.factory) + "`"@
}

/// The notes of an entry as comments, one per line.
pub open spec fn notes_text(notes: Seq<Seq<char>>) -> Seq<char>
    decreases notes.len(),
{
    if notes.len() == 0 {
        seq![]
    } else {
        notes_text(notes.drop_last()) + "    // NOTE: "@ + notes.last() + "\n"@
    }
}

/// One entry of the generated table, followed by its notes.
pub open spec fn entry_text(e: SExtracted) -> Seq<char> {
    "    ComponentDef {\n        tag: "@ + str_debug(e.tag) + ",\n        kind: "@ + kind_text(e)
        + ",\n        doc: "@ + str_debug(doc_text(e)) + ",\n    },\n"@ + notes_text(e.notes)
}

/// Renders one entry of the generated table.
pub fn render_entry(e: &Extracted) -> (r: String)
    ensures
        r@ == entry_text(e@),
{
    let mut s = crate::strings::to_owned("    ComponentDef {\n        tag: ");
    let t = debug_str(e.tag.as_str());
    s.append(t.as_str());
    s.append(",\n        kind: ");
    let k = render_kind(e);
    s.append(k.as_str());
    s.append(",\n        doc: ");
    let seg = last_segment_of(e.factory.as_str());
    let doc = crate::values::cat3("auto-generated from `headless::", seg.as_str(), "`");
    let d = debug_str(doc.as_str());
    s.append(d.as_str());
    s.append(",\n    },\n");
    let ghost base = s@;
    let ghost nv = crate::schemagen::strs_view(e.notes@);
    let mut i: usize = 0;
    assert(nv.take(0) =~= Seq::<Seq<char>>::empty());
    while i < e.notes.len()
        invariant
            i <= e.notes@.len(),
            nv == crate::schemagen::strs_view(e.notes@),
            s@ == base + notes_text(nv.take(i as int)),
        decreases e.notes.len() - i,
    {
        assert(nv.take(i + 1).drop_last() =~= nv.take(i as int));
        assert(nv.take(i + 1).last() == e.notes@[i as int]@);
        s.append("    // NOTE: ");
        s.append(e.notes[i].as_str());
        s.append("\n");
        i += 1;
    }
    assert(nv.take(e.notes@.len() as int) =~= nv);
    s
}

/// The `ControlFlowDef` variant of a control-flow name.
pub open spec fn cf_variant(cf: Seq<char>) -> Option<Seq<char>> {
    if cf == "If"@ {
        Some("ControlFlowDef::If"@)
    } else if cf == "ElseIf"@ {
        Some("ControlFlowDef::ElseIf"@)
    } else if cf == "Else"@ {
        Some("ControlFlowDef::Else"@)
    } else if cf == "For"@ {
        Some("ControlFlowDef::For"@)
    } else if cf == "Fragment"@ {
        Some("ControlFlowDef::Fragment"@)
    } else if cf == "Include"@ {
        Some("ControlFlowDef::Include"@)
    } else if cf == "Template"@ {
        Some("ControlFlowDef::Template"@)
    } else if cf == "Slot"@ {
        Some("ControlFlowDef::Slot"@)
    } else if cf == "Match"@ {
        Some("ControlFlowDef::Match"@)
    } else if cf == "Case"@ {
        Some("ControlFlowDef::Case"@)
    } else if cf == "State"@ {
        Some("ControlFlowDef::State"@)
    } else if cf == "VirtualList"@ {
        Some("ControlFlowDef::VirtualList"@)
    } else if cf == "UniformVirtualList"@ {
        Some("ControlFlowDef::UniformVirtualList"@)
    } else {
        None
    }
}

fn cf_variant_of(cf: &str) -> (r: Option<&'static str>)
    ensures
        match r {
            Some(v) => cf_variant(cf@) == Some(v@),
            None => cf_variant(cf@) is None,
        },
{
    if str_eq(cf, "If") {
        Some("ControlFlowDef::If")
    } else if str_eq(cf, "ElseIf") {
        Some("ControlFlowDef::ElseIf")
    } else if str_eq(cf, "Else") {
        Some("ControlFlowDef::Else")
    } else if str_eq(cf, "For") {
        Some("ControlFlowDef::For")
    } else if str_eq(cf, "Fragment") {
        Some("ControlFlowDef::Fragment")
    } else if str_eq(cf, "Include") {
        Some("ControlFlowDef::Include")
    } else if str_eq(cf, "Template") {
        Some("ControlFlowDef::Template")
    } else if str_eq(cf, "Slot") {
        Some("ControlFlowDef::Slot")
    } else if str_eq(cf, "Match") {
        Some("ControlFlowDef::Match")
    } else if str_eq(cf, "Case") {
        Some("ControlFlowDef::Case")
    } else if str_eq(cf, "State") {
        Some("ControlFlowDef::State")
    } else if str_eq(cf, "VirtualList") {
        Some("ControlFlowDef::VirtualList")
    } else if str_eq(cf, "UniformVirtualList") {
        Some("ControlFlowDef::UniformVirtualList")
    } else {
        None
    }
}

/// The table entry an override contributes of its own: a container's
/// `ContainerDef` or a control-flow marker; nothing for a leaf, for an
/// unknown kind, for a container without its container part, or for
/// an unknown control-flow name.
pub open spec fn override_text(o: SOverride) -> Option<Seq<char>> {
    if o.kind == "Container"@ {
        match o.container {
            Some(fixed) => Some(
                "    ComponentDef {\n            tag: "@ + str_debug(o.tag)
                    + ",\n            kind: ComponentKind::Container(ContainerDef {\n                fixed_methods: &["@
                    + pairs_text(fixed)
                    + "],\n                style_hint: \"the gpui Styled trait (`.flex`, `.items_center`, `.gap_3()`, \u{2026})\",\n            }),\n            doc: \"from `overrides.toml`\",\n        },\n"@,
            ),
            None => None,
        }
    } else if o.kind == "ControlFlow"@ {
        match o.control_flow {
            Some(cf) => match cf_variant(cf) {
                Some(v) => Some(
                    "    ComponentDef {\n            tag: "@ + str_debug(o.tag)
                        + ",\n            kind: ComponentKind::ControlFlow("@ + v
                        + "),\n            doc: \"from `overrides.toml`\",\n        },\n"@,
                ),
                None => None,
            },
            None => None,
        }
    } else {
        None
    }
}

/// Renders the table entry an override contributes of its own (see
/// `override_text`).
pub fn render_override(o: &OverrideEntry) -> (r: Option<String>)
    ensures
        match r {
            Some(t) => override_text(o@) == Some(t@),
            None => override_text(o@) is None,
        },
{
    if str_eq(o.kind.as_str(), "Container") {
        match &o.container {
            Some(c) => {
                let mut s = crate::strings::to_owned("    ComponentDef {\n            tag: ");
                let t = debug_str(o.tag.as_str());
                s.append(t.as_str());
                s.append(
                    ",\n            kind: ComponentKind::Container(ContainerDef {\n                fixed_methods: &[",
                );
                let f = render_pairs(c.fixed_methods.as_slice());
                s.append(f.as_str());
                s.append(
                    "],\n                style_hint: \"the gpui Styled trait (`.flex`, `.items_center`, `.gap_3()`, \u{2026})\",\n            }),\n            doc: \"from `overrides.toml`\",\n        },\n",
                );
                Some(s)
            },
            None => None,
        }
    } else if str_eq(o.kind.as_str(), "ControlFlow") {
        match &o.control_flow {
            Some(cf) => match cf_variant_of(cf.as_str()) {
                Some(v) => {
                    let mut s = crate::strings::to_owned("    ComponentDef {\n            tag: ");
                    let t = debug_str(o.tag.as_str());
                    s.append(t.as_str());
                    s.append(",\n            kind: ComponentKind::ControlFlow(");
                    s.append(v);
                    s.append("),\n            doc: \"from `overrides.toml`\",\n        },\n");
                    Some(s)
                },
                None => None,
            },
            None => None,
        }
    } else {
        None
    }
}

/// The generated file's opening comment.
pub open spec fn header_text(entries: nat, overrides: nat, skipped: nat) -> Seq<char> {
    "//! Auto-generated by `gen-schema` \u{2014} DO NOT EDIT.\n//! Regenerate with `cargo run -p yororen_ui_xml --bin gen-schema`.\n//!\n//! Source of truth: `yororen-ui-core/src/headless/*.rs`\n//! plus `yororen-ui-xml/overrides.toml`.\n//! Last regenerated with: "@
        + decimal(entries) + " entries ("@ + decimal(overrides) + " from overrides), "@ + decimal(skipped)
        + " skipped.\n//!\n//! Skipped files (need manual schema entry or a schema\n//! extension \u{2014} see `gen_schema.rs` notes):\n"@
}

/// The skipped modules, one comment line each.
pub open spec fn skipped_text(skipped: Seq<(Seq<char>, Seq<char>)>) -> Seq<char>
    decreases skipped.len(),
{
    if skipped.len() == 0 {
        seq![]
    } else {
        skipped_text(skipped.drop_last()) + "//! - `"@ + skipped.last().0 + "`: "@ + skipped.last().1
            + "\n"@
    }
}

/// The entries of the generated table; marker entries (no factory) are
/// left out.
pub open spec fn entries_text(es: Seq<SExtracted>) -> Seq<char>
    decreases es.len(),
{
    if es.len() == 0 {
        seq![]
    } else {
        entries_text(es.drop_last()) + if es.last().factory.len() == 0 {
            seq![]
        } else {
            entry_text(es.last())
        }
    }
}

/// What the overrides contribute of their own, in order.
pub open spec fn overrides_text(ovs: Seq<SOverride>) -> Seq<char>
    decreases ovs.len(),
{
    if ovs.len() == 0 {
        seq![]
    } else {
        overrides_text(ovs.drop_last()) + match override_text(ovs.last()) {
            Some(t) => t,
            None => seq![],
        }
    }
}

pub open spec fn preamble_text() -> Seq<char> {
    "\n#![cfg_attr(rustfmt, rustfmt::skip)]\n#![allow(dead_code)]\n\nuse crate::schema::{ComponentDef, ComponentKind, ContainerDef, ControlFlowDef, ExtraArg, ExtraArgKind, LeafDef, PropDef, PropValue, RenderMode, SlotDef};\n\n/// Auto-generated schema entries for every leaf component\n/// extracted from the headless source. Combined with the\n/// hand-written `BUILTINS` in `schema.rs` (which holds the\n/// Phase 1 container / control-flow entries), the macro\n/// codegen can resolve any known tag.\npub static BUILTINS_GENERATED: &[ComponentDef] = &[\n"@
}

pub open spec fn middle_text() -> Seq<char> {
    "];\n\n/// Container / control-flow entries sourced from\n/// `overrides.toml`. These have no headless equivalent\n/// (they're XML-only pseudo-tags or layout containers).\npub static BUILTINS_OVERRIDES: &[ComponentDef] = &[\n"@
}

/// The generated schema module: the opening comment with the counts and
/// the skipped modules, the table of entries, and the table of what the
/// overrides contribute.
pub open spec fn module_text(
    es: Seq<SExtracted>,
    skipped: Seq<(Seq<char>, Seq<char>)>,
    ovs: Seq<SOverride>,
) -> Seq<char> {
    header_text(es.len(), ovs.len(), skipped.len()) + skipped_text(skipped) + preamble_text()
        + entries_text(es) + middle_text() + overrides_text(ovs) + "];\n"@
}

fn render_skipped(skipped: &[(String, String)]) -> (r: String)
    ensures
        r@ == skipped_text(pairs_view(skipped@)),
{
    let ghost sk = pairs_view(skipped@);
    let mut s = String::new();
    let mut k: usize = 0;
    assert(sk.take(0) =~= Seq::<(Seq<char>, Seq<char>)>::empty());
    while k < skipped.len()
        invariant
            k <= skipped@.len(),
            sk == pairs_view(skipped@),
            s@ == skipped_text(sk.take(k as int)),
        decreases skipped.len() - k,
    {
        assert(sk.take(k + 1).drop_last() =~= sk.take(k as int));
        assert(sk.take(k + 1).last() == (skipped@[k as int].0@, skipped@[k as int].1@));
        s.append("//! - `");
        s.append(skipped[k].0.as_str());
        s.append("`: ");
        s.append(skipped[k].1.as_str());
        s.append("\n");
        k += 1;
    }
    assert(sk.take(skipped@.len() as int) =~= sk);
    s
}

fn render_entries(entries: &[Extracted]) -> (r: String)
    ensures
        r@ == entries_text(crate::overrides::entries_view(entries@)),
{
    let ghost es = crate::overrides::entries_view(entries@);
    let mut s = String::new();
    let mut i: usize = 0;
    assert(es.take(0) =~= Seq::<SExtracted>::empty());
    proof {
        reveal_strlit("");
    }
    while i < entries.len()
        invariant
            i <= entries@.len(),
            es == crate::overrides::entries_view(entries@),
            ""@.len() == 0,
            s@ == entries_text(es.take(i as int)),
        decreases entries.len() - i,
    {
        assert(es.take(i + 1).drop_last() =~= es.take(i as int));
        assert(es.take(i + 1).last() == entries@[i as int]@);
        let ghost pre = s@;
        if !str_eq(entries[i].factory.as_str(), "") {
            proof {
                assert(es[i as int].factory == entries@[i as int].factory@);
                if es[i as int].factory.len() == 0 {
                    assert(entries@[i as int].factory@ =~= ""@);
                }
            }
            let t = render_entry(&entries[i]);
            s.append(t.as_str());
        } else {
            assert(es[i as int].factory.len() == 0);
            assert(pre + Seq::<char>::empty() =~= pre);
        }
        i += 1;
    }
    assert(es.take(entries@.len() as int) =~= es);
    s
}

fn render_overrides(overrides: &[OverrideEntry]) -> (r: String)
    ensures
        r@ == overrides_text(crate::overrides::ovs_view(overrides@)),
{
    let ghost ov = crate::overrides::ovs_view(overrides@);
    let mut s = String::new();
    let mut j: usize = 0;
    assert(ov.take(0) =~= Seq::<SOverride>::empty());
    while j < overrides.len()
        invariant
            j <= overrides@.len(),
            ov == crate::overrides::ovs_view(overrides@),
            s@ == overrides_text(ov.take(j as int)),
        decreases overrides.len() - j,
    {
        assert(ov.take(j + 1).drop_last() =~= ov.take(j as int));
        assert(ov.take(j + 1).last() == overrides@[j as int]@);
        let ghost pre = s@;
        match render_override(&overrides[j]) {
            Some(t) => s.append(t.as_str()),
            None => {
                assert(pre + Seq::<char>::empty() =~= pre);
            },
        }
        j += 1;
    }
    assert(ov.take(overrides@.len() as int) =~= ov);
    s
}

/// Renders the generated schema module (see `module_text`).
pub fn render_module(entries: &[Extracted], skipped: &[(String, String)], overrides: &[OverrideEntry]) -> (r:
    String)
    ensures
        r@ == module_text(
            crate::overrides::entries_view(entries@),
            pairs_view(skipped@),
            crate::overrides::ovs_view(overrides@),
        ),
{
    let mut s = crate::strings::to_owned(
        "//! Auto-generated by `gen-schema` \u{2014} DO NOT EDIT.\n//! Regenerate with `cargo run -p yororen_ui_xml --bin gen-schema`.\n//!\n//! Source of truth: `yororen-ui-core/src/headless/*.rs`\n//! plus `yororen-ui-xml/overrides.toml`.\n//! Last regenerated with: ",
    );
    push_decimal(&mut s, entries.len());
    s.append(" entries (");
    push_decimal(&mut s, overrides.len());
    s.append(" from overrides), ");
    push_decimal(&mut s, skipped.len());
    s.append(
        " skipped.\n//!\n//! Skipped files (need manual schema entry or a schema\n//! extension \u{2014} see `gen_schema.rs` notes):\n",
    );
    let sk = render_skipped(skipped);
    s.append(sk.as_str());
    s.append(
        "\n#![cfg_attr(rustfmt, rustfmt::skip)]\n#![allow(dead_code)]\n\nuse crate::schema::{ComponentDef, ComponentKind, ContainerDef, ControlFlowDef, ExtraArg, ExtraArgKind, LeafDef, PropDef, PropValue, RenderMode, SlotDef};\n\n/// Auto-generated schema entries for every leaf component\n/// extracted from the headless source. Combined with the\n/// hand-written `BUILTINS` in `schema.rs` (which holds the\n/// Phase 1 container / control-flow entries), the macro\n/// codegen can resolve any known tag.\npub static BUILTINS_GENERATED: &[ComponentDef] = &[\n",
    );
    let es = render_entries(entries);
    s.append(es.as_str());
    s.append(
        "];\n\n/// Container / control-flow entries sourced from\n/// `overrides.toml`. These have no headless equivalent\n/// (they're XML-only pseudo-tags or layout containers).\npub static BUILTINS_OVERRIDES: &[ComponentDef] = &[\n",
    );
    let ov = render_overrides(overrides);
    s.append(ov.as_str());
    s.append("];\n");
    s
}

} // verus!
