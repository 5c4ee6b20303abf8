//! What the runtime renderer of XML decides before it builds anything:
//! which elements are containers, built-in leaves or registered custom
//! components, which layout shorthands a container honours, and how a
//! built-in leaf is configured from its literal attributes. Building the
//! elements themselves is left to the caller.
use vstd::prelude::*;

use crate::ast::{AstElement, SAttr, SElement};
use crate::schema::{class_of, ComponentKind, KindClass};
use crate::strings::{str_eq, to_owned};

verus! {

/// The first attribute named `name`.
pub open spec fn find_attr(attrs: Seq<SAttr>, name: Seq<char>) -> Option<SAttr>
    decreases attrs.len(),
{
    if attrs.len() == 0 {
        None
    } else if attrs[0].name == name {
        Some(attrs[0])
    } else {
        find_attr(attrs.drop_first(), name)
    }
}

fn find_attr_index(element: &AstElement, name: &str) -> (r: Option<usize>)
    ensures
        match r {
            Some(k) => k < element.attributes@.len() && find_attr(element@.attrs, name@) == Some(
                element.attributes@[k as int]@,
            ),
            None => find_attr(element@.attrs, name@) is None,
        },
{
    let ghost av = element@.attrs;
    let mut k: usize = 0;
    assert(av.skip(0) =~= av);
    while k < element.attributes.len()
        invariant
            k <= element.attributes@.len(),
            av == element@.attrs,
            av.len() == element.attributes@.len(),
            find_attr(av, name@) == find_attr(av.skip(k as int), name@),
        decreases element.attributes.len() - k,
    {
        assert(av[k as int] == element.attributes@[k as int]@);
        assert(av.skip(k as int)[0] == av[k as int]);
        if str_eq(element.attributes[k].name.as_str(), name) {
            return Some(k);
        }
        assert(av.skip(k as int).drop_first() =~= av.skip(k + 1));
        k += 1;
    }
    assert(av.skip(k as int) =~= Seq::<SAttr>::empty());
    None
}

/// Whether the element has an attribute named `name`.
pub fn attr_present(element: &AstElement, name: &str) -> (b: bool)
    ensures
        b == find_attr(element@.attrs, name@) is Some,
{
    find_attr_index(element, name).is_some()
}

/// The literal text of the first attribute named `name`.
pub fn attr_str(element: &AstElement, name: &str) -> (r: Option<String>)
    ensures
        crate::schemagen::ov(r) == match find_attr(element@.attrs, name@) {
            Some(a) => Some(a.raw),
            None => None,
        },
{
    match find_attr_index(element, name) {
        Some(k) => Some(element.attributes[k].raw.clone()),
        None => None,
    }
}

/// A boolean attribute: `true` / `false` literally; absent or anything
/// else gives `None`.
pub open spec fn spec_opt_bool(a: Option<SAttr>) -> Option<bool> {
    match a {
        Some(a) => if a.raw == "true"@ {
            Some(true)
        } else if a.raw == "false"@ {
            Some(false)
        } else {
            None
        },
        None => None,
    }
}

/// The value of a boolean attribute (see `spec_opt_bool`).
pub fn attr_opt_bool(element: &AstElement, name: &str) -> (r: Option<bool>)
    ensures
        r == spec_opt_bool(find_attr(element@.attrs, name@)),
{
    match find_attr_index(element, name) {
        Some(k) => {
            let raw = element.attributes[k].raw.as_str();
            if str_eq(raw, "true") {
                Some(true)
            } else if str_eq(raw, "false") {
                Some(false)
            } else {
                None
            }
        },
        None => None,
    }
}

/// Whether a boolean attribute is literally `true`.
pub fn attr_bool(element: &AstElement, name: &str) -> (b: bool)
    ensures
        b == (spec_opt_bool(find_attr(element@.attrs, name@)) == Some(true)),
{
    match attr_opt_bool(element, name) {
        Some(v) => v,
        None => false,
    }
}

/// A button's action variant.
#[derive(Debug, Clone, Copy, PartialEq, Eq, Structural)]
pub enum ActionVariant {
    Primary,
    Neutral,
    Danger,
}

/// The variant an attribute names: `primary`, `neutral` or `danger`.
pub open spec fn spec_variant(a: Option<SAttr>) -> Option<ActionVariant> {
    match a {
        Some(a) => if a.raw == "primary"@ {
            Some(ActionVariant::Primary)
        } else if a.raw == "neutral"@ {
            Some(ActionVariant::Neutral)
        } else if a.raw == "danger"@ {
            Some(ActionVariant::Danger)
        } else {
            None
        },
        None => None,
    }
}

/// The action variant of the attribute `name` (see `spec_variant`).
pub fn attr_variant(element: &AstElement, name: &str) -> (r: Option<ActionVariant>)
    ensures
        r == spec_variant(find_attr(element@.attrs, name@)),
{
    match find_attr_index(element, name) {
        Some(k) => {
            let raw = element.attributes[k].raw.as_str();
            if str_eq(raw, "primary") {
                Some(ActionVariant::Primary)
            } else if str_eq(raw, "neutral") {
                Some(ActionVariant::Neutral)
            } else if str_eq(raw, "danger") {
                Some(ActionVariant::Danger)
            } else {
                None
            }
        },
        None => None,
    }
}

/// The heading level an attribute names: `H1` … `H6`.
pub open spec fn spec_heading_level(a: Option<SAttr>) -> Option<u8> {
    match a {
        Some(a) => if a.raw == "H1"@ {
            Some(1u8)
        } else if a.raw == "H2"@ {
            Some(2u8)
        } else if a.raw == "H3"@ {
            Some(3u8)
        } else if a.raw == "H4"@ {
            Some(4u8)
        } else if a.raw == "H5"@ {
            Some(5u8)
        } else if a.raw == "H6"@ {
            Some(6u8)
        } else {
            None
        },
        None => None,
    }
}

/// The heading level of the attribute `name` (see `spec_heading_level`).
pub fn attr_heading_level(element: &AstElement, name: &str) -> (r: Option<u8>)
    ensures
        r == spec_heading_level(find_attr(element@.attrs, name@)),
{
    match find_attr_index(element, name) {
        Some(k) => {
            let raw = element.attributes[k].raw.as_str();
            if str_eq(raw, "H1") {
                Some(1)
            } else if str_eq(raw, "H2") {
                Some(2)
            } else if str_eq(raw, "H3") {
                Some(3)
            } else if str_eq(raw, "H4") {
                Some(4)
            } else if str_eq(raw, "H5") {
                Some(5)
            } else if str_eq(raw, "H6") {
                Some(6)
            } else {
                None
            }
        },
        None => None,
    }
}

/// A built-in leaf as the runtime renderer builds it, configured from
/// the element's literal attributes.
#[derive(Debug)]
pub enum RuntimeLeaf {
    Label {
        id: String,
        text: String,
        strong: bool,
        muted: bool,
        mono: bool,
        inherit_color: bool,
        ellipsis: bool,
        wrap: bool,
    },
    Button {
        id: String,
        caption: Option<String>,
        variant: Option<ActionVariant>,
        disabled: Option<bool>,
        clickable: bool,
        /// Event attributes present on the element, which the runtime
        /// ignores (with a warning).
        ignored_events: Vec<String>,
    },
    Heading { id: String, level: u8, text: String },
    ListItem {
        id: String,
        title: String,
        selected: Option<bool>,
        disabled: Option<bool>,
        ignored_events: Vec<String>,
    },
}

pub enum SRuntimeLeaf {
    Label {
        id: Seq<char>,
        text: Seq<char>,
        strong: bool,
        muted: bool,
        mono: bool,
        inherit_color: bool,
        ellipsis: bool,
        wrap: bool,
    },
    Button {
        id: Seq<char>,
        caption: Option<Seq<char>>,
        variant: Option<ActionVariant>,
        disabled: Option<bool>,
        clickable: bool,
        ignored_events: Seq<Seq<char>>,
    },
    Heading { id: Seq<char>, level: u8, text: Seq<char> },
    ListItem {
        id: Seq<char>,
        title: Seq<char>,
        selected: Option<bool>,
        disabled: Option<bool>,
        ignored_events: Seq<Seq<char>>,
    },
}

impl View for RuntimeLeaf {
    type V = SRuntimeLeaf;

    open spec fn view(&self) -> SRuntimeLeaf {
        match self {
            RuntimeLeaf::Label { id, text, strong, muted, mono, inherit_color, ellipsis, wrap } =>
                SRuntimeLeaf::Label {
                id: id@,
                text: text@,
                strong: *strong,
                muted: *muted,
                mono: *mono,
                inherit_color: *inherit_color,
                ellipsis: *ellipsis,
                wrap: *wrap,
            },
            RuntimeLeaf::Button { id, caption, variant, disabled, clickable, ignored_events } =>
                SRuntimeLeaf::Button {
                id: id@,
                caption: crate::schemagen::ov(*caption),
                variant: *variant,
                disabled: *disabled,
                clickable: *clickable,
                ignored_events: crate::schemagen::strs_view(ignored_events@),
            },
            RuntimeLeaf::Heading { id, level, text } => SRuntimeLeaf::Heading {
                id: id@,
                level: *level,
                text: text@,
            },
            RuntimeLeaf::ListItem { id, title, selected, disabled, ignored_events } =>
                SRuntimeLeaf::ListItem {
                id: id@,
                title: title@,
                selected: *selected,
                disabled: *disabled,
                ignored_events: crate::schemagen::strs_view(ignored_events@),
            },
        }
    }
}

/// The raw text of the attribute `name`, or the empty string.
pub open spec fn raw_or_empty(attrs: Seq<SAttr>, name: Seq<char>) -> Seq<char> {
    match find_attr(attrs, name) {
        Some(a) => a.raw,
        None => seq![],
    }
}

/// The events of `events` that the element carries as attributes.
pub open spec fn present_events(attrs: Seq<SAttr>, events: Seq<Seq<char>>) -> Seq<Seq<char>>
    decreases events.len(),
{
    if events.len() == 0 {
        seq![]
    } else {
        present_events(attrs, events.drop_last()) + if find_attr(attrs, events.last()) is Some {
            seq![events.last()]
        } else {
            seq![]
        }
    }
}

/// How the runtime renderer configures the built-in leaf `e`, whose
/// schema entry lists `events`: the id is the `id` attribute (else
/// `<tag>-runtime`); `Label`, `Button`, `Heading` and `ListItem` take
/// their literal attributes; any other leaf is refused.
pub open spec fn spec_plan_leaf(e: SElement, events: Seq<Seq<char>>) -> Result<SRuntimeLeaf, Seq<char>> {
    let a = e.attrs;
    let id = match find_attr(a, "id"@) {
        Some(x) => x.raw,
        None => e.tag + "-runtime"@,
    };
    let flag = |n: Seq<char>| spec_opt_bool(find_attr(a, n)) == Some(true);
    if e.tag == "Label"@ {
        Ok(
            SRuntimeLeaf::Label {
                id,
                text: raw_or_empty(a, "text"@),
                strong: flag("strong"@),
                muted: flag("muted"@),
                mono: flag("mono"@),
                inherit_color: flag("inherit_color"@),
                ellipsis: flag("ellipsis"@),
                wrap: flag("wrap"@),
            },
        )
    } else if e.tag == "Button"@ {
        Ok(
            SRuntimeLeaf::Button {
                id,
                caption: match find_attr(a, "caption"@) {
                    Some(x) => Some(x.raw),
                    None => None,
                },
                variant: spec_variant(find_attr(a, "variant"@)),
                disabled: spec_opt_bool(find_attr(a, "disabled"@)),
                clickable: flag("clickable"@),
                ignored_events: present_events(a, events),
            },
        )
    } else if e.tag == "Heading"@ {
        Ok(
            SRuntimeLeaf::Heading {
                id,
                level: match spec_heading_level(find_attr(a, "level"@)) {
                    Some(l) => l,
                    None => 1u8,
                },
                text: raw_or_empty(a, "text"@),
            },
        )
    } else if e.tag == "ListItem"@ {
        Ok(
            SRuntimeLeaf::ListItem {
                id,
                title: raw_or_empty(a, "title"@),
                selected: spec_opt_bool(find_attr(a, "selected"@)),
                disabled: spec_opt_bool(find_attr(a, "disabled"@)),
                ignored_events: present_events(a, events),
            },
        )
    } else {
        Err("runtime rendering for built-in leaf <"@ + e.tag + "> is not yet implemented"@)
    }
}

fn str_or_empty(element: &AstElement, name: &str) -> (r: String)
    ensures
        r@ == raw_or_empty(element@.attrs, name@),
{
    match attr_str(element, name) {
        Some(s) => s,
        None => String::new(),
    }
}

fn events_present(element: &AstElement, events: &[&str]) -> (r: Vec<String>)
    ensures
        crate::schemagen::strs_view(r@) == present_events(element@.attrs, crate::strings::strs_view(events@)),
{
    let ghost ev = crate::strings::strs_view(events@);
    let mut out: Vec<String> = Vec::new();
    let mut k: usize = 0;
    assert(ev.take(0) =~= Seq::<Seq<char>>::empty());
    while k < events.len()
        invariant
            k <= events@.len(),
            ev == crate::strings::strs_view(events@),
            crate::schemagen::strs_view(out@) == present_events(element@.attrs, ev.take(k as int)),
        decreases events.len() - k,
    {
        assert(ev.take(k + 1).drop_last() =~= ev.take(k as int));
        assert(ev.take(k + 1).last() == events@[k as int]@);
        let ghost pre = crate::schemagen::strs_view(out@);
        if attr_present(element, events[k]) {
            out.push(to_owned(events[k]));
            assert(crate::schemagen::strs_view(out@) =~= pre + seq![events@[k as int]@]);
        } else {
            assert(pre + Seq::<Seq<char>>::empty() =~= pre);
        }
        k += 1;
    }
    assert(ev.take(events@.len() as int) =~= ev);
    out
}

/// Configures a built-in leaf for the runtime renderer (see
/// `spec_plan_leaf`); `events` are the event attributes of its schema
/// entry.
pub fn plan_leaf(element: &AstElement, events: &[&str]) -> (r: Result<RuntimeLeaf, String>)
    ensures
        match r {
            Ok(l) => spec_plan_leaf(element@, crate::strings::strs_view(events@)) == Ok::<
                SRuntimeLeaf,
                Seq<char>,
            >(l@),
            Err(m) => spec_plan_leaf(element@, crate::strings::strs_view(events@)) == Err::<
                SRuntimeLeaf,
                Seq<char>,
            >(m@),
        },
{
    let id = match attr_str(element, "id") {
        Some(s) => s,
        None => crate::values::cat2(element.tag.as_str(), "-runtime"),
    };
    let tag = element.tag.as_str();
    if str_eq(tag, "Label") {
        Ok(RuntimeLeaf::Label {
            id,
            text: str_or_empty(element, "text"),
            strong: attr_bool(element, "strong"),
            muted: attr_bool(element, "muted"),
            mono: attr_bool(element, "mono"),
            inherit_color: attr_bool(element, "inherit_color"),
            ellipsis: attr_bool(element, "ellipsis"),
            wrap: attr_bool(element, "wrap"),
        })
    } else if str_eq(tag, "Button") {
        Ok(RuntimeLeaf::Button {
            id,
            caption: attr_str(element, "caption"),
            variant: attr_variant(element, "variant"),
            disabled: attr_opt_bool(element, "disabled"),
            clickable: attr_bool(element, "clickable"),
            ignored_events: events_present(element, events),
        })
    } else if str_eq(tag, "Heading") {
        let level = match attr_heading_level(element, "level") {
            Some(l) => l,
            None => 1,
        };
        Ok(RuntimeLeaf::Heading { id, level, text: str_or_empty(element, "text") })
    } else if str_eq(tag, "ListItem") {
        Ok(RuntimeLeaf::ListItem {
            id,
            title: str_or_empty(element, "title"),
            selected: attr_opt_bool(element, "selected"),
            disabled: attr_opt_bool(element, "disabled"),
            ignored_events: events_present(element, events),
        })
    } else {
        Err(crate::values::cat3("runtime rendering for built-in leaf <", tag, "> is not yet implemented"))
    }
}

/// A layout shorthand that the runtime renderer honours on a container.
#[derive(Debug, Clone, Copy, PartialEq, Eq, Structural)]
pub enum LayoutStep {
    /// `flex` then `flex_col`.
    Col,
    /// `flex` then `flex_row`.
    Row,
    Flex,
    ItemsCenter,
    ItemsStart,
    ItemsEnd,
    JustifyCenter,
    JustifyBetween,
    Relative,
    WFull,
    HFull,
    Hidden,
    OverflowHidden,
}

/// The shorthand a container attribute stands for: a literal `true`
/// under one of the known names; anything else is ignored.
pub open spec fn layout_step(a: SAttr) -> Option<LayoutStep> {
    if a.expr is Some || a.raw != "true"@ {
        None
    } else if a.name == "col"@ {
        Some(LayoutStep::Col)
    } else if a.name == "row"@ {
        Some(LayoutStep::Row)
    } else if a.name == "flex"@ {
        Some(LayoutStep::Flex)
    } else if a.name == "items_center"@ {
        Some(LayoutStep::ItemsCenter)
    } else if a.name == "items_start"@ {
        Some(LayoutStep::ItemsStart)
    } else if a.name == "items_end"@ {
        Some(LayoutStep::ItemsEnd)
    } else if a.name == "justify_center"@ {
        Some(LayoutStep::JustifyCenter)
    } else if a.name == "justify_between"@ {
        Some(LayoutStep::JustifyBetween)
    } else if a.name == "relative"@ {
        Some(LayoutStep::Relative)
    } else if a.name == "w_full"@ {
        Some(LayoutStep::WFull)
    } else if a.name == "h_full"@ {
        Some(LayoutStep::HFull)
    } else if a.name == "hidden"@ {
        Some(LayoutStep::Hidden)
    } else if a.name == "overflow_hidden"@ {
        Some(LayoutStep::OverflowHidden)
    } else {
        None
    }
}

/// The shorthands of a container's attributes, in attribute order.
pub open spec fn layout_steps(attrs: Seq<SAttr>) -> Seq<LayoutStep>
    decreases attrs.len(),
{
    if attrs.len() == 0 {
        seq![]
    } else {
        layout_steps(attrs.drop_last()) + match layout_step(attrs.last()) {
            Some(st) => seq![st],
            None => seq![],
        }
    }
}

fn layout_step_of(a: &crate::ast::AstAttribute) -> (r: Option<LayoutStep>)
    ensures
        r == layout_step(a@),
{
    if a.expr.is_some() || !str_eq(a.raw.as_str(), "true") {
        return None;
    }
    let n = a.name.as_str();
    if str_eq(n, "col") {
        Some(LayoutStep::Col)
    } else if str_eq(n, "row") {
        Some(LayoutStep::Row)
    } else if str_eq(n, "flex") {
        Some(LayoutStep::Flex)
    } else if str_eq(n, "items_center") {
        Some(LayoutStep::ItemsCenter)
    } else if str_eq(n, "items_start") {
        Some(LayoutStep::ItemsStart)
    } else if str_eq(n, "items_end") {
        Some(LayoutStep::ItemsEnd)
    } else if str_eq(n, "justify_center") {
        Some(LayoutStep::JustifyCenter)
    } else if str_eq(n, "justify_between") {
        Some(LayoutStep::JustifyBetween)
    } else if str_eq(n, "relative") {
        Some(LayoutStep::Relative)
    } else if str_eq(n, "w_full") {
        Some(LayoutStep::WFull)
    } else if str_eq(n, "h_full") {
        Some(LayoutStep::HFull)
    } else if str_eq(n, "hidden") {
        Some(LayoutStep::Hidden)
    } else if str_eq(n, "overflow_hidden") {
        Some(LayoutStep::OverflowHidden)
    } else {
        None
    }
}

/// The layout shorthands the runtime renderer applies to a container,
/// in attribute order.
pub fn container_steps(element: &AstElement) -> (r: Vec<LayoutStep>)
    ensures
        r@ == layout_steps(element@.attrs),
{
    let ghost av = element@.attrs;
    let mut out: Vec<LayoutStep> = Vec::new();
    let mut k: usize = 0;
    assert(av.take(0) =~= Seq::<SAttr>::empty());
    while k < element.attributes.len()
        invariant
            k <= element.attributes@.len(),
            av == element@.attrs,
            av.len() == element.attributes@.len(),
            out@ == layout_steps(av.take(k as int)),
        decreases element.attributes.len() - k,
    {
        assert(av.take(k + 1).drop_last() =~= av.take(k as int));
        assert(av.take(k + 1).last() == element.attributes@[k as int]@);
        let ghost pre = out@;
        match layout_step_of(&element.attributes[k]) {
            Some(st) => {
                out.push(st);
                assert(out@ =~= pre + seq![st]);
            },
            None => {
                assert(pre + Seq::<LayoutStep>::empty() =~= pre);
            },
        }
        k += 1;
    }
    assert(av.take(element.attributes@.len() as int) =~= av);
    out
}

/// What the runtime renderer makes of an element: a container, a
/// built-in leaf (with its schema's event attributes), or a component
/// looked up in the runtime registry by tag, with the element's `id`.
#[derive(Debug)]
pub enum RuntimeTarget {
    Container,
    Leaf { events: Vec<&'static str> },
    Custom { id: String },
}

/// The layout containers the runtime renderer knows by tag.
pub open spec fn is_layout_tag(t: Seq<char>) -> bool {
    t == "Column"@ || t == "Row"@ || t == "Div"@ || t == "Stack"@
}

/// Decides how the runtime renderer treats an element: the layout tags
/// and the schema's containers are containers, the schema's leaves are
/// built-in leaves, anything else goes to the runtime registry under its
/// tag, with the raw `id` attribute (empty when there is none).
pub fn runtime_target(element: &AstElement) -> (r: RuntimeTarget)
    ensures
        is_layout_tag(element@.tag) ==> r is Container,
        !is_layout_tag(element@.tag) && crate::schema::builtin_tag_list().contains(element@.tag) ==> {
            let c = crate::schema::builtin_class_list()[crate::schema::builtin_tag_list().index_of_first(
                element@.tag,
            )->0];
            &&& c is Container ==> r is Container
            &&& c is Leaf ==> r is Leaf
            &&& (c is ControlFlow || c is RuntimeLeaf) ==> r is Custom
        },
        !is_layout_tag(element@.tag) && !crate::schema::builtin_tag_list().contains(element@.tag)
            && !crate::schema::override_tag_list().contains(element@.tag) ==> r is Custom,
        r matches RuntimeTarget::Custom { id } ==> id@ == raw_or_empty(element@.attrs, "id"@),
{
    let tag = element.tag.as_str();
    if str_eq(tag, "Column") || str_eq(tag, "Row") || str_eq(tag, "Div") || str_eq(tag, "Stack") {
        return RuntimeTarget::Container;
    }
    let empty: Vec<crate::schema::ComponentDef> = Vec::new();
    match crate::schema::lookup_component(tag, empty.as_slice()) {
        Some(d) => match d.kind {
            ComponentKind::Leaf(leaf) => {
                let mut events: Vec<&'static str> = Vec::new();
                let mut k: usize = 0;
                while k < leaf.events.len()
                    invariant
                        k <= leaf.events@.len(),
                    decreases leaf.events.len() - k,
                {
                    events.push(leaf.events[k].0);
                    k += 1;
                }
                return RuntimeTarget::Leaf { events };
            },
            ComponentKind::Container(_) => {
                return RuntimeTarget::Container;
            },
            _ => {},
        },
        None => {},
    }
    RuntimeTarget::Custom { id: str_or_empty(element, "id") }
}

} // verus!
