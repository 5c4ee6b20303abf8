//! The XML tags the `xml!` macro knows, and the attribute vocabulary
//! each accepts.
use vstd::prelude::*;

use crate::strings::{in_list, str_eq, strs_view};

verus! {

/// A schema entry for a single XML tag.
#[derive(Debug, Clone)]
pub struct ComponentDef {
    pub tag: &'static str,
    pub kind: ComponentKind,
    /// Doc string surfaced in compiler errors.
    pub doc: &'static str,
}

/// What a tag is.
#[derive(Debug, Clone)]
pub enum ComponentKind {
    /// A `div`-based container that takes style attributes and
    /// children.
    Container(ContainerDef),
    /// A headless component built by a factory function.
    Leaf(LeafDef),
    /// A pseudo-tag that becomes Rust control flow.
    ControlFlow(ControlFlowDef),
    /// A tag unknown to the schema, looked up at run time.
    RuntimeLeaf,
}

/// A container's fixed flag attributes.
#[derive(Debug, Clone)]
pub struct ContainerDef {
    /// `(xml attribute, Styled method)` pairs, e.g. `("col", "flex_col")`.
    pub fixed_methods: Vec<(&'static str, &'static str)>,
    /// Hint printed when an unknown attribute is used.
    pub style_hint: &'static str,
}

/// A headless leaf component.
#[derive(Debug, Clone)]
pub struct LeafDef {
    /// Rust path of the factory function.
    pub factory: &'static str,
    /// Positional factory arguments between the id and the app context.
    pub extra_args: Vec<ExtraArg>,
    /// How the built props become an element.
    pub render: RenderMode,
    /// Whether the factory takes the app context as its last argument.
    pub needs_app: bool,
    /// Whether `render` also takes the window.
    pub needs_window: bool,
    /// Prop vocabulary.
    pub props: Vec<PropDef>,
    /// Event vocabulary: `(xml attribute, builder method)`.
    pub events: Vec<(&'static str, &'static str)>,
    /// Whether text content becomes a child after rendering.
    pub supports_text_child: bool,
    /// Whether children are added to the builder before rendering.
    pub children_before_render: bool,
    /// Whether such children are passed without `into_any_element`.
    pub unwrap_children: bool,
    /// Named slots filled by children carrying `slot="…"`.
    pub slots: Vec<SlotDef>,
}

/// How an XML attribute value becomes the argument of a prop setter.
#[derive(Debug, Clone, Copy, PartialEq, Eq, Structural)]
pub enum PropValue {
    String,
    Bool,
    Variant,
    Float64,
    Float32,
    UInt,
    BadgeVariant,
    HeadingLevel,
    IconSource,
    ImageSource,
    KeybindingInputMode,
    Spacing,
    Inset,
    AlignItems,
    JustifyContent,
    Length,
    Color,
    /// A zero-argument setter enabled by the bare attribute.
    Flag,
    /// Unclassified: only brace expressions are accepted.
    Unknown,
    /// A custom type: only brace expressions are accepted.
    Custom,
}

/// One prop of a leaf.
#[derive(Debug, Clone, Copy, PartialEq, Eq)]
pub struct PropDef {
    pub name: &'static str,
    pub setter: &'static str,
    pub value: PropValue,
}

/// One positional factory argument.
#[derive(Debug, Clone, Copy, PartialEq, Eq)]
pub struct ExtraArg {
    pub kind: ExtraArgKind,
    /// The XML attribute holding the value.
    pub attr: &'static str,
}

/// How a positional factory argument is read from its attribute.
#[derive(Debug, Clone, Copy, PartialEq, Eq, Structural)]
pub enum ExtraArgKind {
    /// A string; falls back to the element's text content.
    Text,
    /// The attribute's value passed through.
    Custom,
    /// A closure; bare paths are wrapped.
    Callback,
    /// A `usize` literal.
    UInt,
    HeadingLevel,
    IconSource,
    ImageSource,
    KeybindingInputMode,
    /// A list of strings (brace expression only).
    StringList,
    /// A borrowed reference.
    Borrow,
    /// A colour (hex literal or expression).
    Color,
}

/// A named slot of a leaf.
#[derive(Debug, Clone, Copy, PartialEq, Eq)]
pub struct SlotDef {
    pub name: &'static str,
    pub setter: &'static str,
}

/// How a leaf's props become an element.
#[derive(Debug, Clone, Copy, PartialEq, Eq, Structural)]
pub enum RenderMode {
    /// `.render(cx)`.
    Default,
    /// The caller composes the props itself.
    Apply,
}

/// The control-flow pseudo-tags.
#[derive(Debug, Clone, Copy, PartialEq, Eq, Structural)]
pub enum ControlFlowDef {
    If,
    ElseIf,
    Else,
    For,
    Fragment,
    Include,
    Template,
    Slot,
    Match,
    Case,
    State,
    VirtualList,
    UniformVirtualList,
}

} // verus!

verus! {

/// Zero-argument `Styled` methods a container accepts as flags.
pub open spec fn style_flags() -> Seq<Seq<char>> {
    seq![
        "flex"@, "flex_col"@, "flex_row"@, "flex_col_reverse"@, "flex_row_reverse"@,
        "flex_wrap"@, "flex_wrap_reverse"@, "flex_nowrap"@, "flex_1"@, "flex_auto"@,
        "flex_initial"@, "flex_none"@, "flex_grow"@, "flex_shrink"@, "flex_shrink_0"@,
        "items_start"@, "items_end"@, "items_center"@, "items_baseline"@, "items_stretch"@,
        "justify_start"@, "justify_end"@, "justify_center"@, "justify_between"@,
        "justify_around"@, "justify_evenly"@, "w_full"@, "h_full"@, "size_full"@,
        "min_w_full"@, "min_h_full"@, "max_w_full"@, "max_h_full"@, "overflow_hidden"@,
        "overflow_x_hidden"@, "overflow_y_hidden"@, "visible"@, "invisible"@, "block"@,
        "inline_block"@, "inline_flex"@, "hidden"@, "relative"@, "absolute"@,
        "cursor_default"@, "cursor_pointer"@, "cursor_text"@, "cursor_move"@,
        "cursor_not_allowed"@, "cursor_grab"@, "cursor_grabbing"@, "border"@, "border_1"@,
        "border_2"@, "border_4"@, "border_8"@, "border_t"@, "border_b"@, "border_l"@,
        "border_r"@, "border_x"@, "border_y"@, "rounded"@, "rounded_sm"@, "rounded_md"@,
        "rounded_lg"@, "rounded_xl"@, "rounded_full"@, "rounded_none"@, "shadow_sm"@,
        "shadow_md"@, "shadow_lg"@, "shadow_xl"@, "shadow_none"@, "opacity_0"@, "opacity_25"@,
        "opacity_50"@, "opacity_75"@, "opacity_100"@
    ]
}

/// Attribute prefixes that take a spacing / sizing suffix.
pub open spec fn spacing_prefixes() -> Seq<Seq<char>> {
    seq![
        "gap"@, "gap_x"@, "gap_y"@, "p"@, "px"@, "py"@, "pt"@, "pb"@, "pl"@, "pr"@, "m"@,
        "mx"@, "my"@, "mt"@, "mb"@, "ml"@, "mr"@, "w"@, "h"@, "size"@, "min_w"@, "min_h"@,
        "max_w"@, "max_h"@, "inset"@
    ]
}

/// Numeric spacing suffixes (`gap_3`, `p_0p5`, …).
pub open spec fn numeric_suffixes() -> Seq<Seq<char>> {
    seq![
        "0"@, "0p5"@, "1"@, "1p5"@, "2"@, "2p5"@, "3"@, "3p5"@, "4"@, "5"@, "6"@, "7"@, "8"@,
        "9"@, "10"@, "11"@, "12"@, "16"@, "20"@, "24"@, "32"@, "40"@, "48"@, "56"@, "64"@,
        "72"@, "80"@, "96"@
    ]
}

/// Textual spacing suffixes (`w_full`, `w_1_2`, …).
pub open spec fn textual_suffixes() -> Seq<Seq<char>> {
    seq![
        "full"@, "1_2"@, "1_3"@, "2_3"@, "1_4"@, "3_4"@, "1_5"@, "2_5"@, "3_5"@, "4_5"@,
        "1_6"@, "5_6"@, "1_12"@
    ]
}

/// Flex-layout flags whose method only sets the direction / wrapping.
pub open spec fn flex_layout_flags() -> Seq<Seq<char>> {
    seq![
        "flex_col"@, "flex_col_reverse"@, "flex_row"@, "flex_row_reverse"@, "flex_wrap"@,
        "flex_wrap_reverse"@, "flex_nowrap"@
    ]
}

/// Index of the last `_` in `s[..k]`, or -1.
pub open spec fn last_underscore(s: Seq<char>, k: int) -> int
    decreases k,
{
    if k <= 0 {
        -1
    } else if s[k - 1] == '_' {
        k - 1
    } else {
        last_underscore(s, k - 1)
    }
}

/// The spacing prefix of a shorthand like `gap_3` or `w_full`, if the
/// suffix is a known one.
pub open spec fn shorthand_prefix(n: Seq<char>) -> Option<Seq<char>> {
    if crate::strings::ends_with(n, "_full"@) {
        Some(n.subrange(0, n.len() - 5))
    } else {
        let k = last_underscore(n, n.len() as int);
        if k >= 0 {
            let suf = n.subrange(k + 1, n.len() as int);
            if numeric_suffixes().contains(suf) || textual_suffixes().contains(suf) {
                Some(n.subrange(0, k))
            } else {
                None
            }
        } else {
            None
        }
    }
}

/// A spacing prefix followed by `_` and a textual suffix (`w_1_2`,
/// `max_w_full`).
pub open spec fn textual_shorthand(n: Seq<char>) -> bool {
    exists|k: int|
        0 <= k < textual_suffixes().len() && crate::strings::ends_with(
            n,
            seq!['_'] + #[trigger] textual_suffixes()[k],
        ) && spacing_prefixes().contains(n.subrange(0, n.len() - textual_suffixes()[k].len() - 1))
}

/// A spacing shorthand: a spacing prefix followed by `_` and a known
/// suffix, the textual suffixes (which may hold `_` themselves) tried
/// first.
pub open spec fn spec_is_spacing_shorthand(n: Seq<char>) -> bool {
    textual_shorthand(n) || (shorthand_prefix(n) matches Some(p) && spacing_prefixes().contains(p))
}

/// A numeric suffix is made of digits and `p`, and ends with a digit.
spec fn numeric_chars(s: Seq<char>) -> bool {
    &&& s.len() > 0
    &&& '0' <= s.last() <= '9'
    &&& forall|j: int| 0 <= j < s.len() ==> ('0' <= #[trigger] s[j] <= '9' || s[j] == 'p')
}

proof fn lemma_numeric_suffix_chars(s: Seq<char>)
    requires
        numeric_suffixes().contains(s),
    ensures
        numeric_chars(s),
{
    reveal_strlit("0");
    reveal_strlit("0p5");
    reveal_strlit("1");
    reveal_strlit("1p5");
    reveal_strlit("2");
    reveal_strlit("2p5");
    reveal_strlit("3");
    reveal_strlit("3p5");
    reveal_strlit("4");
    reveal_strlit("5");
    reveal_strlit("6");
    reveal_strlit("7");
    reveal_strlit("8");
    reveal_strlit("9");
    reveal_strlit("10");
    reveal_strlit("11");
    reveal_strlit("12");
    reveal_strlit("16");
    reveal_strlit("20");
    reveal_strlit("24");
    reveal_strlit("32");
    reveal_strlit("40");
    reveal_strlit("48");
    reveal_strlit("56");
    reveal_strlit("64");
    reveal_strlit("72");
    reveal_strlit("80");
    reveal_strlit("96");
    let k = choose|k: int| 0 <= k < numeric_suffixes().len() && numeric_suffixes()[k] == s;
    assert(0 <= k < 28);
}

proof fn lemma_last_underscore_range(s: Seq<char>, k: int)
    requires
        0 <= k <= s.len(),
    ensures
        -1 <= last_underscore(s, k) < k,
        last_underscore(s, k) >= 0 ==> s[last_underscore(s, k)] == '_',
    decreases k,
{
    if k > 0 && s[k - 1] != '_' {
        lemma_last_underscore_range(s, k - 1);
    }
}

proof fn lemma_last_underscore_after(x: Seq<char>, t: Seq<char>, m: int)
    requires
        0 <= m <= t.len(),
        forall|j: int| 0 <= j < t.len() ==> #[trigger] t[j] != '_',
    ensures
        last_underscore(x + seq!['_'] + t, x.len() + 1 + m) == x.len(),
    decreases m,
{
    let n = x + seq!['_'] + t;
    if m > 0 {
        assert(n[x.len() + m] == t[m - 1]);
        lemma_last_underscore_after(x, t, m - 1);
    } else {
        assert(n[x.len() as int] == '_');
    }
}

/// A spacing shorthand is exactly a spacing prefix, `_` and a known
/// suffix (numeric or textual): `gap_3`, `p_0p5`, `w_full`, `w_1_2`.
pub proof fn lemma_spacing_shorthand_parts(n: Seq<char>)
    ensures
        spec_is_spacing_shorthand(n) <==> exists|p: Seq<char>, t: Seq<char>|
            #![trigger spacing_prefixes().contains(p), numeric_suffixes().contains(t)]
            #![trigger spacing_prefixes().contains(p), textual_suffixes().contains(t)]
            spacing_prefixes().contains(p) && (numeric_suffixes().contains(t) || textual_suffixes().contains(t))
                && n == p + seq!['_'] + t,
{
    reveal_strlit("_full");
    reveal_strlit("full");
    if textual_shorthand(n) {
        let k = choose|k: int|
            0 <= k < textual_suffixes().len() && crate::strings::ends_with(n, seq!['_'] + #[trigger] textual_suffixes()[k])
                && spacing_prefixes().contains(n.subrange(0, n.len() - textual_suffixes()[k].len() - 1));
        let t = textual_suffixes()[k];
        let p = n.subrange(0, n.len() - t.len() - 1);
        assert(textual_suffixes().contains(t));
        assert(n.subrange(n.len() - t.len() - 1, n.len() as int) == seq!['_'] + t);
        assert(n =~= p + n.subrange(n.len() - t.len() - 1, n.len() as int));
        assert(p + (seq!['_'] + t) =~= p + seq!['_'] + t);
    } else if shorthand_prefix(n) is Some && spacing_prefixes().contains(shorthand_prefix(n)->0) {
        let p = shorthand_prefix(n)->0;
        if crate::strings::ends_with(n, "_full"@) {
            let t = "full"@;
            assert(textual_suffixes()[0] == t);
            assert(textual_suffixes().contains(t));
            assert(n.subrange(n.len() - 5, n.len() as int) == "_full"@);
            assert("_full"@ =~= seq!['_'] + t);
            assert(n =~= p + n.subrange(n.len() - 5, n.len() as int));
            assert(p + (seq!['_'] + t) =~= p + seq!['_'] + t);
        } else {
            let k = last_underscore(n, n.len() as int);
            lemma_last_underscore_range(n, n.len() as int);
            let t = n.subrange(k + 1, n.len() as int);
            assert(n[k] == '_');
            assert(n =~= p + seq!['_'] + t);
        }
    }
    if exists|p: Seq<char>, t: Seq<char>|
        #![trigger spacing_prefixes().contains(p), numeric_suffixes().contains(t)]
        #![trigger spacing_prefixes().contains(p), textual_suffixes().contains(t)]
        spacing_prefixes().contains(p) && (numeric_suffixes().contains(t) || textual_suffixes().contains(t))
            && n == p + seq!['_'] + t {
        let (p, t) = choose|p: Seq<char>, t: Seq<char>|
            #![trigger spacing_prefixes().contains(p), numeric_suffixes().contains(t)]
            #![trigger spacing_prefixes().contains(p), textual_suffixes().contains(t)]
            spacing_prefixes().contains(p) && (numeric_suffixes().contains(t) || textual_suffixes().contains(t))
                && n == p + seq!['_'] + t;
        if textual_suffixes().contains(t) {
            let k = choose|k: int| 0 <= k < textual_suffixes().len() && textual_suffixes()[k] == t;
            assert(n.subrange(n.len() - t.len() - 1, n.len() as int) =~= seq!['_'] + t);
            assert(n.subrange(0, n.len() - textual_suffixes()[k].len() - 1) =~= p);
            assert(crate::strings::ends_with(n, seq!['_'] + textual_suffixes()[k]));
        } else {
            lemma_numeric_suffix_chars(t);
            assert(n.last() == t.last());
            assert(!crate::strings::ends_with(n, "_full"@)) by {
                if crate::strings::ends_with(n, "_full"@) {
                    assert(n.subrange(n.len() - 5, n.len() as int)[4] == n.last());
                }
            }
            assert forall|j: int| 0 <= j < t.len() implies #[trigger] t[j] != '_' by {
                assert('0' <= t[j] <= '9' || t[j] == 'p');
            }
            lemma_last_underscore_after(p, t, t.len() as int);
            assert(n.subrange(p.len() as int + 1, n.len() as int) =~= t);
            assert(n.subrange(0, p.len() as int) =~= p);
        }
    }
}

pub open spec fn spec_is_known_shorthand(n: Seq<char>) -> bool {
    style_flags().contains(n) || spec_is_spacing_shorthand(n)
}

/// Whether `name` is a prefix that takes a spacing suffix (`gap`, `p`,
/// `w`, …).
pub fn is_spacing_prefix(name: &str) -> (b: bool)
    ensures
        b == spacing_prefixes().contains(name@),
{
    let list = [
        "gap", "gap_x", "gap_y", "p", "px", "py", "pt", "pb", "pl", "pr", "m", "mx", "my", "mt",
        "mb", "ml", "mr", "w", "h", "size", "min_w", "min_h", "max_w", "max_h", "inset",
    ];
    assert(strs_view(list@) =~= spacing_prefixes());
    in_list(name, &list)
}

/// Whether `s` is a spacing suffix a literal spacing value may use.
pub fn is_valid_spacing_suffix(s: &str) -> (b: bool)
    ensures
        b == (numeric_suffixes().contains(s@) || textual_suffixes().contains(s@)),
{
    let numeric = [
        "0", "0p5", "1", "1p5", "2", "2p5", "3", "3p5", "4", "5", "6", "7", "8", "9", "10", "11",
        "12", "16", "20", "24", "32", "40", "48", "56", "64", "72", "80", "96",
    ];
    let textual = [
        "full", "1_2", "1_3", "2_3", "1_4", "3_4", "1_5", "2_5", "3_5", "4_5", "1_6", "5_6", "1_12",
    ];
    assert(strs_view(numeric@) =~= numeric_suffixes());
    assert(strs_view(textual@) =~= textual_suffixes());
    in_list(s, &numeric) || in_list(s, &textual)
}

/// Whether `name` is a flex-layout flag that needs `display: flex`.
pub fn is_flex_layout_flag(name: &str) -> (b: bool)
    ensures
        b == flex_layout_flags().contains(name@),
{
    let list = [
        "flex_col", "flex_col_reverse", "flex_row", "flex_row_reverse", "flex_wrap",
        "flex_wrap_reverse", "flex_nowrap",
    ];
    assert(strs_view(list@) =~= flex_layout_flags());
    in_list(name, &list)
}

fn textual_shorthand_of(name: &str) -> (b: bool)
    ensures
        b == textual_shorthand(name@),
{
    let n = crate::strings::chars_of(name);
    let textual = [
        "full", "1_2", "1_3", "2_3", "1_4", "3_4", "1_5", "2_5", "3_5", "4_5", "1_6", "5_6", "1_12",
    ];
    assert(strs_view(textual@) =~= textual_suffixes());
    let mut k: usize = 0;
    while k < textual.len()
        invariant
            k <= textual@.len(),
            n@ == name@,
            strs_view(textual@) == textual_suffixes(),
            forall|j: int|
                0 <= j < k ==> !(crate::strings::ends_with(name@, seq!['_'] + #[trigger] textual_suffixes()[j])
                    && spacing_prefixes().contains(
                    name@.subrange(0, name@.len() - textual_suffixes()[j].len() - 1),
                )),
        decreases textual.len() - k,
    {
        assert(textual_suffixes()[k as int] == textual@[k as int]@);
        let mut pat: Vec<char> = Vec::new();
        pat.push('_');
        let t = crate::strings::chars_of(textual[k]);
        let mut i: usize = 0;
        while i < t.len()
            invariant
                i <= t@.len(),
                pat@ == seq!['_'] + t@.take(i as int),
            decreases t.len() - i,
        {
            pat.push(t[i]);
            i += 1;
            assert(pat@ =~= seq!['_'] + t@.take(i as int));
        }
        assert(t@.take(t@.len() as int) =~= t@);
        if crate::strings::ends_with_chars(&n, &pat) {
            let p = crate::strings::string_of(&crate::events::sub_vec(&n, 0, n.len() - pat.len()));
            if is_spacing_prefix(p.as_str()) {
                return true;
            }
        }
        k += 1;
    }
    false
}

/// Whether `name` is a spacing shorthand such as `gap_3`, `p_0p5`,
/// `w_full` or `w_1_2`: a spacing prefix followed by a known suffix.
pub fn is_spacing_shorthand(name: &str) -> (b: bool)
    ensures
        b == spec_is_spacing_shorthand(name@),
{
    textual_shorthand_of(name) || split_shorthand(name)
}

fn split_shorthand(name: &str) -> (b: bool)
    ensures
        b == (shorthand_prefix(name@) matches Some(p) && spacing_prefixes().contains(p)),
{
    let n = crate::strings::chars_of(name);
    let len = n.len();
    let full = ['_', 'f', 'u', 'l', 'l'];
    proof {
        reveal_strlit("_full");
    }
    assert(full@ =~= "_full"@);
    let prefix: Option<Vec<char>> = if crate::strings::ends_with_chars(&n, &full) {
        Some(crate::events::sub_vec(&n, 0, len - 5))
    } else {
        let mut k = len;
        while k > 0 && n[k - 1] != '_'
            invariant
                k <= len,
                len == n@.len(),
                last_underscore(n@, k as int) == last_underscore(n@, len as int),
            decreases k,
        {
            k -= 1;
        }
        if k > 0 {
            let suf = crate::strings::string_of(&crate::events::sub_vec(&n, k, len));
            if is_valid_spacing_suffix(suf.as_str()) {
                Some(crate::events::sub_vec(&n, 0, k - 1))
            } else {
                None
            }
        } else {
            None
        }
    };
    match prefix {
        Some(p) => {
            let ps = crate::strings::string_of(&p);
            is_spacing_prefix(ps.as_str())
        },
        None => false,
    }
}

/// Whether `name` is a `Styled` shorthand method a container accepts:
/// a known flag (`flex`, `items_center`, `rounded_md`, …) or a spacing
/// shorthand (`gap_3`, `w_full`, …).
pub fn is_known_shorthand_method(name: &str) -> (b: bool)
    ensures
        b == spec_is_known_shorthand(name@),
{
    let list = [
        "flex", "flex_col", "flex_row", "flex_col_reverse", "flex_row_reverse", "flex_wrap",
        "flex_wrap_reverse", "flex_nowrap", "flex_1", "flex_auto", "flex_initial", "flex_none",
        "flex_grow", "flex_shrink", "flex_shrink_0", "items_start", "items_end", "items_center",
        "items_baseline", "items_stretch", "justify_start", "justify_end", "justify_center",
        "justify_between", "justify_around", "justify_evenly", "w_full", "h_full", "size_full",
        "min_w_full", "min_h_full", "max_w_full", "max_h_full", "overflow_hidden",
        "overflow_x_hidden", "overflow_y_hidden", "visible", "invisible", "block", "inline_block",
        "inline_flex", "hidden", "relative", "absolute", "cursor_default", "cursor_pointer",
        "cursor_text", "cursor_move", "cursor_not_allowed", "cursor_grab", "cursor_grabbing",
        "border", "border_1", "border_2", "border_4", "border_8", "border_t", "border_b",
        "border_l", "border_r", "border_x", "border_y", "rounded", "rounded_sm", "rounded_md",
        "rounded_lg", "rounded_xl", "rounded_full", "rounded_none", "shadow_sm", "shadow_md",
        "shadow_lg", "shadow_xl", "shadow_none", "opacity_0", "opacity_25", "opacity_50",
        "opacity_75", "opacity_100",
    ];
    assert(strs_view(list@) =~= style_flags());
    in_list(name, &list) || is_spacing_shorthand(name)
}

} // verus!

verus! {

/// The shape of a component kind, without its vocabulary.
pub enum KindClass {
    Container,
    Leaf,
    ControlFlow(ControlFlowDef),
    RuntimeLeaf,
}

pub open spec fn class_of(k: ComponentKind) -> KindClass {
    match k {
        ComponentKind::Container(_) => KindClass::Container,
        ComponentKind::Leaf(_) => KindClass::Leaf,
        ComponentKind::ControlFlow(c) => KindClass::ControlFlow(c),
        ComponentKind::RuntimeLeaf => KindClass::RuntimeLeaf,
    }
}

/// The index of the first entry of `table` whose tag is `tag`.
pub open spec fn find_def(table: Seq<ComponentDef>, tag: Seq<char>) -> Option<int>
    decreases table.len(),
{
    if table.len() == 0 {
        None
    } else if table[0].tag@ == tag {
        Some(0)
    } else {
        match find_def(table.drop_first(), tag) {
            Some(i) => Some(i + 1),
            None => None,
        }
    }
}

pub proof fn lemma_find_def(table: Seq<ComponentDef>, tag: Seq<char>)
    ensures
        find_def(table, tag) matches Some(i) ==> 0 <= i < table.len() && table[i].tag@ == tag
            && forall|j: int| 0 <= j < i ==> table[j].tag@ != tag,
        find_def(table, tag) is None ==> forall|j: int| 0 <= j < table.len() ==> table[j].tag@
            != tag,
    decreases table.len(),
{
    if table.len() > 0 {
        lemma_find_def(table.drop_first(), tag);
        if table[0].tag@ != tag {
            assert forall|j: int| 1 <= j < table.len() implies table[j] == table.drop_first()[j
                - 1] by {}
        }
    }
}

/// Look `tag` up in `table`: the index of the first entry with that tag.
pub fn find_in(table: &[ComponentDef], tag: &str) -> (r: Option<usize>)
    ensures
        r is Some <==> find_def(table@, tag@) is Some,
        r matches Some(i) ==> i == find_def(table@, tag@)->0,
{
    proof {
        lemma_find_def(table@, tag@);
    }
    let mut k: usize = 0;
    while k < table.len()
        invariant
            k <= table@.len(),
            forall|j: int| 0 <= j < k ==> table@[j].tag@ != tag@,
            find_def(table@, tag@) matches Some(i) ==> 0 <= i < table@.len() && table@[i].tag@
                == tag@ && forall|j: int| 0 <= j < i ==> table@[j].tag@ != tag@,
            find_def(table@, tag@) is None ==> forall|j: int|
                0 <= j < table@.len() ==> table@[j].tag@ != tag@,
        decreases table.len() - k,
    {
        if str_eq(table[k].tag, tag) {
            return Some(k);
        }
        k += 1;
    }
    None
}

} // verus!

verus! {

/// A leaf definition as plain values.
pub struct SLeafDef {
    pub factory: Seq<char>,
    pub extra_args: Seq<(ExtraArgKind, Seq<char>)>,
    pub render: RenderMode,
    pub needs_app: bool,
    pub needs_window: bool,
    pub props: Seq<(Seq<char>, Seq<char>, PropValue)>,
    pub events: Seq<(Seq<char>, Seq<char>)>,
    pub supports_text_child: bool,
    pub children_before_render: bool,
    pub unwrap_children: bool,
    pub slots: Seq<(Seq<char>, Seq<char>)>,
}

/// A component kind as plain values.
pub enum SKind {
    Container { fixed: Seq<(Seq<char>, Seq<char>)>, style_hint: Seq<char> },
    Leaf(SLeafDef),
    ControlFlow(ControlFlowDef),
    RuntimeLeaf,
}

/// A schema entry as plain values: every field, by its view.
pub struct SDef {
    pub tag: Seq<char>,
    pub kind: SKind,
    pub doc: Seq<char>,
}

pub open spec fn str_pairs(v: Seq<(&'static str, &'static str)>) -> Seq<(Seq<char>, Seq<char>)> {
    v.map_values(|p: (&'static str, &'static str)| (p.0@, p.1@))
}

pub open spec fn kind_view(k: ComponentKind) -> SKind {
    match k {
        ComponentKind::Container(c) => SKind::Container { fixed: str_pairs(c.fixed_methods@), style_hint: c.style_hint@ },
        ComponentKind::Leaf(l) => SKind::Leaf(
            SLeafDef {
                factory: l.factory@,
                extra_args: l.extra_args@.map_values(|x: ExtraArg| (x.kind, x.attr@)),
                render: l.render,
                needs_app: l.needs_app,
                needs_window: l.needs_window,
                props: l.props@.map_values(|p: PropDef| (p.name@, p.setter@, p.value)),
                events: str_pairs(l.events@),
                supports_text_child: l.supports_text_child,
                children_before_render: l.children_before_render,
                unwrap_children: l.unwrap_children,
                slots: l.slots@.map_values(|x: SlotDef| (x.name@, x.setter@)),
            },
        ),
        ComponentKind::ControlFlow(c) => SKind::ControlFlow(c),
        ComponentKind::RuntimeLeaf => SKind::RuntimeLeaf,
    }
}

pub open spec fn def_view(d: ComponentDef) -> SDef {
    SDef { tag: d.tag@, kind: kind_view(d.kind), doc: d.doc@ }
}

pub open spec fn defs_view(v: Seq<ComponentDef>) -> Seq<SDef> {
    v.map_values(|d: ComponentDef| def_view(d))
}

pub open spec fn control_sdef(tag: Seq<char>, cf: ControlFlowDef, doc: Seq<char>) -> SDef {
    SDef { tag, kind: SKind::ControlFlow(cf), doc }
}

pub open spec fn container_sdef(
    tag: Seq<char>,
    fixed: Seq<(Seq<char>, Seq<char>)>,
    style_hint: Seq<char>,
    doc: Seq<char>,
) -> SDef {
    SDef { tag, kind: SKind::Container { fixed, style_hint }, doc }
}

pub open spec fn column_sdef() -> SDef {
    container_sdef("Column"@, seq![("col"@, "flex_col"@)], STYLE_HINT@, "Vertical flex container — `div().flex().flex_col()`."@)
}

pub open spec fn row_sdef() -> SDef {
    container_sdef("Row"@, seq![("row"@, "flex_row"@)], STYLE_HINT@, "Horizontal flex container — `div().flex().flex_row()`."@)
}

pub open spec fn div_sdef() -> SDef {
    container_sdef("Div"@, seq![], "the gpui Styled trait (`.flex`, `.gap_3()`, …)"@, "Plain `div()` — no flex by default."@)
}

pub open spec fn stack_sdef() -> SDef {
    container_sdef(
        "Stack"@,
        seq![],
        "the gpui Styled trait (`.relative()`, `.absolute()`, …)"@,
        "Plain `div()` — use `.relative()` / `.absolute()` for stacking."@,
    )
}

pub open spec fn button_sdef() -> SDef {
    SDef {
        tag: "Button"@,
        kind: SKind::Leaf(
            SLeafDef {
                factory: "::yororen_ui::headless::button::button"@,
                extra_args: seq![],
                render: RenderMode::Default,
                needs_app: true,
                needs_window: false,
                props: seq![
                    ("caption"@, "caption"@, PropValue::String),
                    ("variant"@, "variant"@, PropValue::Variant),
                    ("disabled"@, "disabled"@, PropValue::Bool),
                    ("clickable"@, "clickable"@, PropValue::Bool),
                    ("icon"@, "icon"@, PropValue::Unknown),
                    ("icon_size"@, "icon_size"@, PropValue::Unknown),
                ],
                events: seq![("on_click"@, "on_click"@)],
                supports_text_child: true,
                children_before_render: false,
                unwrap_children: false,
                slots: seq![],
            },
        ),
        doc: "Headless `Button` — see `yororen_ui_core::headless::button`."@,
    }
}

pub open spec fn label_sdef() -> SDef {
    SDef {
        tag: "Label"@,
        kind: SKind::Leaf(
            SLeafDef {
                factory: "::yororen_ui::headless::label::label"@,
                extra_args: seq![(ExtraArgKind::Text, "text"@)],
                render: RenderMode::Default,
                needs_app: true,
                needs_window: false,
                props: seq![
                    ("strong"@, "strong"@, PropValue::Bool),
                    ("muted"@, "muted"@, PropValue::Bool),
                    ("mono"@, "mono"@, PropValue::Bool),
                    ("inherit_color"@, "inherit_color"@, PropValue::Bool),
                    ("ellipsis"@, "ellipsis"@, PropValue::Bool),
                    ("wrap"@, "wrap"@, PropValue::Bool),
                    ("max_lines"@, "max_lines"@, PropValue::Unknown),
                ],
                events: seq![],
                supports_text_child: false,
                children_before_render: false,
                unwrap_children: false,
                slots: seq![],
            },
        ),
        doc: "Headless `Label` — see `yororen_ui_core::headless::label`."@,
    }
}

/// The hand-written schema, entry by entry, in table order.
pub open spec fn builtin_defs() -> Seq<SDef> {
    seq![
        button_sdef(),
        control_sdef("Case"@, ControlFlowDef::Case, "Match arm — `<Case pattern={expr}>…</Case>`."@),
        column_sdef(),
        div_sdef(),
        control_sdef("Else"@, ControlFlowDef::Else, "Else branch of an `<If>`."@),
        control_sdef("ElseIf"@, ControlFlowDef::ElseIf, "Else-if branch of an `<If>`."@),
        control_sdef("For"@, ControlFlowDef::For, "Iterate a Rust expression: `<For each={items} let:item>…</For>`."@),
        control_sdef("Fragment"@, ControlFlowDef::Fragment, "Group children without producing an element wrapper."@),
        control_sdef("If"@, ControlFlowDef::If, "Conditional rendering: `<If condition={cond}>…</If>`."@),
        control_sdef("Include"@, ControlFlowDef::Include, "Inline another XML file at compile time: `<Include src=\"toolbar.xml\" />`."@),
        label_sdef(),
        control_sdef("Match"@, ControlFlowDef::Match, "Pattern match — `<Match on={expr}><Case>…</Case></Match>`."@),
        row_sdef(),
        control_sdef("Slot"@, ControlFlowDef::Slot, "Placeholder inside a `<Template>` — replaced by the caller's children at the matching position."@),
        stack_sdef(),
        control_sdef("State"@, ControlFlowDef::State, "Declare a local `Entity<T>` — `<State name=\"count\" default=\"0\">…</State>`."@),
        control_sdef("Template"@, ControlFlowDef::Template, "Define a reusable XML template. Use `<Slot/>` to mark insertion points."@),
    ]
}

/// The XML-only entries, in table order.
pub open spec fn override_defs() -> Seq<SDef> {
    let d = "from `overrides.toml`"@;
    seq![
        column_sdef(),
        row_sdef(),
        div_sdef(),
        stack_sdef(),
        control_sdef("If"@, ControlFlowDef::If, d),
        control_sdef("ElseIf"@, ControlFlowDef::ElseIf, d),
        control_sdef("Else"@, ControlFlowDef::Else, d),
        control_sdef("For"@, ControlFlowDef::For, d),
        control_sdef("Fragment"@, ControlFlowDef::Fragment, d),
        control_sdef("VirtualList"@, ControlFlowDef::VirtualList, d),
        control_sdef("UniformVirtualList"@, ControlFlowDef::UniformVirtualList, d),
    ]
}

fn control(tag: &'static str, cf: ControlFlowDef, doc: &'static str) -> (d: ComponentDef)
    ensures
        d.tag == tag,
        d.kind == ComponentKind::ControlFlow(cf),
        def_view(d) == control_sdef(tag@, cf, doc@),
{
    ComponentDef { tag, kind: ComponentKind::ControlFlow(cf), doc }
}

fn container(
    tag: &'static str,
    fixed: Vec<(&'static str, &'static str)>,
    style_hint: &'static str,
    doc: &'static str,
) -> (d: ComponentDef)
    ensures
        d.tag == tag,
        d.kind matches ComponentKind::Container(c) && c.fixed_methods@ == fixed@,
        def_view(d) == container_sdef(tag@, str_pairs(fixed@), style_hint@, doc@),
{
    ComponentDef {
        tag,
        kind: ComponentKind::Container(ContainerDef { fixed_methods: fixed, style_hint }),
        doc,
    }
}

pub const STYLE_HINT: &'static str = "the gpui Styled trait (`.flex`, `.items_center`, `.gap_3()`, …)";

fn column_def() -> (d: ComponentDef)
    ensures
        def_view(d) == column_sdef(),
        d.tag@ == "Column"@,
        d.kind matches ComponentKind::Container(c) && c.fixed_methods@.len() == 1
            && c.fixed_methods@[0].0@ == "col"@ && c.fixed_methods@[0].1@ == "flex_col"@,
{
    let mut fixed: Vec<(&'static str, &'static str)> = Vec::new();
    fixed.push(("col", "flex_col"));
    assert(str_pairs(fixed@) =~= seq![("col"@, "flex_col"@)]);
    container("Column", fixed, STYLE_HINT, "Vertical flex container — `div().flex().flex_col()`.")
}

fn row_def() -> (d: ComponentDef)
    ensures
        def_view(d) == row_sdef(),
        d.tag@ == "Row"@,
        d.kind matches ComponentKind::Container(c) && c.fixed_methods@.len() == 1
            && c.fixed_methods@[0].0@ == "row"@ && c.fixed_methods@[0].1@ == "flex_row"@,
{
    let mut fixed: Vec<(&'static str, &'static str)> = Vec::new();
    fixed.push(("row", "flex_row"));
    assert(str_pairs(fixed@) =~= seq![("row"@, "flex_row"@)]);
    container("Row", fixed, STYLE_HINT, "Horizontal flex container — `div().flex().flex_row()`.")
}

fn div_def() -> (d: ComponentDef)
    ensures
        def_view(d) == div_sdef(),
        d.tag@ == "Div"@,
        d.kind matches ComponentKind::Container(c) && c.fixed_methods@.len() == 0,
{
    let fixed: Vec<(&'static str, &'static str)> = Vec::new();
    assert(str_pairs(fixed@) =~= seq![]);
    container(
        "Div",
        fixed,
        "the gpui Styled trait (`.flex`, `.gap_3()`, …)",
        "Plain `div()` — no flex by default.",
    )
}

fn stack_def() -> (d: ComponentDef)
    ensures
        def_view(d) == stack_sdef(),
        d.tag@ == "Stack"@,
        d.kind matches ComponentKind::Container(c) && c.fixed_methods@.len() == 0,
{
    let fixed: Vec<(&'static str, &'static str)> = Vec::new();
    assert(str_pairs(fixed@) =~= seq![]);
    container(
        "Stack",
        fixed,
        "the gpui Styled trait (`.relative()`, `.absolute()`, …)",
        "Plain `div()` — use `.relative()` / `.absolute()` for stacking.",
    )
}

fn button_def() -> (d: ComponentDef)
    ensures
        def_view(d) == button_sdef(),
        d.tag@ == "Button"@,
        d.kind matches ComponentKind::Leaf(l) && l.factory@
            == "::yororen_ui::headless::button::button"@ && l.extra_args@.len() == 0
            && l.props@.len() == 6 && l.events@.len() == 1 && l.events@[0].0@ == "on_click"@
            && l.events@[0].1@ == "on_click"@ && l.render == RenderMode::Default && l.needs_app
            && l.supports_text_child && l.slots@.len() == 0 && !l.children_before_render
            && !l.needs_window,
{
    let mut props: Vec<PropDef> = Vec::new();
    props.push(PropDef { name: "caption", setter: "caption", value: PropValue::String });
    props.push(PropDef { name: "variant", setter: "variant", value: PropValue::Variant });
    props.push(PropDef { name: "disabled", setter: "disabled", value: PropValue::Bool });
    props.push(PropDef { name: "clickable", setter: "clickable", value: PropValue::Bool });
    props.push(PropDef { name: "icon", setter: "icon", value: PropValue::Unknown });
    props.push(PropDef { name: "icon_size", setter: "icon_size", value: PropValue::Unknown });
    let mut events: Vec<(&'static str, &'static str)> = Vec::new();
    events.push(("on_click", "on_click"));
    let extra_args: Vec<ExtraArg> = Vec::new();
    let slots: Vec<SlotDef> = Vec::new();
    let d = ComponentDef {
        tag: "Button",
        kind: ComponentKind::Leaf(
            LeafDef {
                factory: "::yororen_ui::headless::button::button",
                extra_args,
                render: RenderMode::Default,
                needs_app: true,
                needs_window: false,
                props,
                events,
                supports_text_child: true,
                children_before_render: false,
                unwrap_children: false,
                slots,
            },
        ),
        doc: "Headless `Button` — see `yororen_ui_core::headless::button`.",
    };
    proof {
        let l = d.kind->Leaf_0;
        assert(l.props@.map_values(|p: PropDef| (p.name@, p.setter@, p.value)) =~= button_sdef().kind->Leaf_0.props);
        assert(str_pairs(l.events@) =~= button_sdef().kind->Leaf_0.events);
        assert(l.extra_args@.map_values(|x: ExtraArg| (x.kind, x.attr@)) =~= seq![]);
        assert(l.slots@.map_values(|x: SlotDef| (x.name@, x.setter@)) =~= seq![]);
    }
    d
}

fn label_def() -> (d: ComponentDef)
    ensures
        def_view(d) == label_sdef(),
        d.tag@ == "Label"@,
        d.kind matches ComponentKind::Leaf(l) && l.factory@
            == "::yororen_ui::headless::label::label"@ && l.extra_args@.len() == 1
            && l.extra_args@[0].kind == ExtraArgKind::Text && l.extra_args@[0].attr@ == "text"@
            && l.props@.len() == 7 && l.events@.len() == 0 && l.render == RenderMode::Default
            && l.needs_app && !l.supports_text_child && l.slots@.len() == 0
            && !l.children_before_render && !l.needs_window,
{
    let mut props: Vec<PropDef> = Vec::new();
    props.push(PropDef { name: "strong", setter: "strong", value: PropValue::Bool });
    props.push(PropDef { name: "muted", setter: "muted", value: PropValue::Bool });
    props.push(PropDef { name: "mono", setter: "mono", value: PropValue::Bool });
    props.push(PropDef { name: "inherit_color", setter: "inherit_color", value: PropValue::Bool });
    props.push(PropDef { name: "ellipsis", setter: "ellipsis", value: PropValue::Bool });
    props.push(PropDef { name: "wrap", setter: "wrap", value: PropValue::Bool });
    props.push(PropDef { name: "max_lines", setter: "max_lines", value: PropValue::Unknown });
    let mut extra_args: Vec<ExtraArg> = Vec::new();
    extra_args.push(ExtraArg { kind: ExtraArgKind::Text, attr: "text" });
    let events: Vec<(&'static str, &'static str)> = Vec::new();
    let slots: Vec<SlotDef> = Vec::new();
    let d = ComponentDef {
        tag: "Label",
        kind: ComponentKind::Leaf(
            LeafDef {
                factory: "::yororen_ui::headless::label::label",
                extra_args,
                render: RenderMode::Default,
                needs_app: true,
                needs_window: false,
                props,
                events,
                supports_text_child: false,
                children_before_render: false,
                unwrap_children: false,
                slots,
            },
        ),
        doc: "Headless `Label` — see `yororen_ui_core::headless::label`.",
    };
    proof {
        let l = d.kind->Leaf_0;
        assert(l.props@.map_values(|p: PropDef| (p.name@, p.setter@, p.value)) =~= label_sdef().kind->Leaf_0.props);
        assert(str_pairs(l.events@) =~= seq![]);
        assert(l.extra_args@.map_values(|x: ExtraArg| (x.kind, x.attr@)) =~= label_sdef().kind->Leaf_0.extra_args);
        assert(l.slots@.map_values(|x: SlotDef| (x.name@, x.setter@)) =~= seq![]);
    }
    d
}

/// The tags of the hand-written schema, in table order.
pub open spec fn builtin_tag_list() -> Seq<Seq<char>> {
    seq![
        "Button"@, "Case"@, "Column"@, "Div"@, "Else"@, "ElseIf"@, "For"@, "Fragment"@, "If"@,
        "Include"@, "Label"@, "Match"@, "Row"@, "Slot"@, "Stack"@, "State"@, "Template"@
    ]
}

/// The hand-written table is kept sorted: its tags strictly ascend.
pub proof fn lemma_builtin_tags_sorted()
    ensures
        forall|i: int, j: int|
            0 <= i < j < builtin_tag_list().len() ==> crate::overrides::lex_lt(
                #[trigger] builtin_tag_list()[i],
                #[trigger] builtin_tag_list()[j],
            ),
{
    let t = builtin_tag_list();
    reveal_with_fuel(crate::overrides::lex_lt, 6);
    reveal_strlit("Button");
    reveal_strlit("Case");
    reveal_strlit("Column");
    reveal_strlit("Div");
    reveal_strlit("Else");
    reveal_strlit("ElseIf");
    reveal_strlit("For");
    reveal_strlit("Fragment");
    reveal_strlit("If");
    reveal_strlit("Include");
    reveal_strlit("Label");
    reveal_strlit("Match");
    reveal_strlit("Row");
    reveal_strlit("Slot");
    reveal_strlit("Stack");
    reveal_strlit("State");
    reveal_strlit("Template");
    assert(crate::overrides::lex_lt(t[0], t[1]));
    assert(crate::overrides::lex_lt(t[1], t[2]));
    assert(crate::overrides::lex_lt(t[2], t[3]));
    assert(crate::overrides::lex_lt(t[3], t[4]));
    assert(crate::overrides::lex_lt(t[4], t[5]));
    assert(crate::overrides::lex_lt(t[5], t[6]));
    assert(crate::overrides::lex_lt(t[6], t[7]));
    assert(crate::overrides::lex_lt(t[7], t[8]));
    assert(crate::overrides::lex_lt(t[8], t[9]));
    assert(crate::overrides::lex_lt(t[9], t[10]));
    assert(crate::overrides::lex_lt(t[10], t[11]));
    assert(crate::overrides::lex_lt(t[11], t[12]));
    assert(crate::overrides::lex_lt(t[12], t[13]));
    assert(crate::overrides::lex_lt(t[13], t[14]));
    assert(crate::overrides::lex_lt(t[14], t[15]));
    assert(crate::overrides::lex_lt(t[15], t[16]));
    assert forall|i: int| 0 <= i < t.len() - 1 implies crate::overrides::lex_lt(#[trigger] t[i], t[i + 1]) by {}
    assert forall|i: int, j: int| 0 <= i < j < t.len() implies crate::overrides::lex_lt(
        #[trigger] t[i],
        #[trigger] t[j],
    ) by {
        lemma_sorted_step(t, i, j);
    }
}

proof fn lemma_sorted_step(t: Seq<Seq<char>>, i: int, j: int)
    requires
        0 <= i < j < t.len(),
        forall|k: int| 0 <= k < t.len() - 1 ==> crate::overrides::lex_lt(#[trigger] t[k], t[k + 1]),
    ensures
        crate::overrides::lex_lt(t[i], t[j]),
    decreases j - i,
{
    if j > i + 1 {
        lemma_sorted_step(t, i, j - 1);
        assert(crate::overrides::lex_lt(t[j - 1], t[j]));
        crate::overrides::lemma_lex_transitive(t[i], t[j - 1], t[j]);
    }
}

/// The kind of each hand-written schema entry, in table order.
pub open spec fn builtin_class_list() -> Seq<KindClass> {
    seq![
        KindClass::Leaf, KindClass::ControlFlow(ControlFlowDef::Case), KindClass::Container,
        KindClass::Container, KindClass::ControlFlow(ControlFlowDef::Else),
        KindClass::ControlFlow(ControlFlowDef::ElseIf), KindClass::ControlFlow(ControlFlowDef::For),
        KindClass::ControlFlow(ControlFlowDef::Fragment), KindClass::ControlFlow(ControlFlowDef::If),
        KindClass::ControlFlow(ControlFlowDef::Include), KindClass::Leaf,
        KindClass::ControlFlow(ControlFlowDef::Match), KindClass::Container,
        KindClass::ControlFlow(ControlFlowDef::Slot), KindClass::Container,
        KindClass::ControlFlow(ControlFlowDef::State), KindClass::ControlFlow(ControlFlowDef::Template)
    ]
}

/// The hand-written schema: the `Button` and `Label` leaves, the
/// `Column` / `Div` / `Row` / `Stack` containers and the control-flow
/// pseudo-tags.
pub fn builtins() -> (r: Vec<ComponentDef>)
    ensures
        r@.len() == builtin_tag_list().len(),
        forall|i: int| 0 <= i < r@.len() ==> #[trigger] r@[i].tag@ == builtin_tag_list()[i],
        forall|i: int| 0 <= i < r@.len() ==> class_of(#[trigger] r@[i].kind) == builtin_class_list()[i],
        defs_view(r@) == builtin_defs(),
{
    let mut v: Vec<ComponentDef> = Vec::new();
    v.push(button_def());
    v.push(control("Case", ControlFlowDef::Case, "Match arm — `<Case pattern={expr}>…</Case>`."));
    v.push(column_def());
    v.push(div_def());
    v.push(control("Else", ControlFlowDef::Else, "Else branch of an `<If>`."));
    v.push(control("ElseIf", ControlFlowDef::ElseIf, "Else-if branch of an `<If>`."));
    v.push(control("For", ControlFlowDef::For, "Iterate a Rust expression: `<For each={items} let:item>…</For>`."));
    v.push(control("Fragment", ControlFlowDef::Fragment, "Group children without producing an element wrapper."));
    v.push(control("If", ControlFlowDef::If, "Conditional rendering: `<If condition={cond}>…</If>`."));
    v.push(control("Include", ControlFlowDef::Include, "Inline another XML file at compile time: `<Include src=\"toolbar.xml\" />`."));
    v.push(label_def());
    v.push(control("Match", ControlFlowDef::Match, "Pattern match — `<Match on={expr}><Case>…</Case></Match>`."));
    v.push(row_def());
    v.push(control("Slot", ControlFlowDef::Slot, "Placeholder inside a `<Template>` — replaced by the caller's children at the matching position."));
    v.push(stack_def());
    v.push(control("State", ControlFlowDef::State, "Declare a local `Entity<T>` — `<State name=\"count\" default=\"0\">…</State>`."));
    v.push(control("Template", ControlFlowDef::Template, "Define a reusable XML template. Use `<Slot/>` to mark insertion points."));
    proof {
        reveal_strlit("Case");
        reveal_strlit("Match");
        reveal_strlit("State");
        reveal_strlit("Else");
        reveal_strlit("ElseIf");
        reveal_strlit("For");
        reveal_strlit("Fragment");
        reveal_strlit("Include");
        reveal_strlit("Template");
        reveal_strlit("Slot");
        reveal_strlit("If");
    }
    v
}

/// The container and control-flow entries that exist only in XML
/// (no headless factory): the four containers, the if/else and loop
/// pseudo-tags, and the two virtual lists.
pub fn builtin_overrides() -> (r: Vec<ComponentDef>)
    ensures
        r@.len() == 11,
        r@[0].tag@ == "Column"@ && r@[1].tag@ == "Row"@ && r@[2].tag@ == "Div"@ && r@[3].tag@
            == "Stack"@,
        class_of(r@[0].kind) == KindClass::Container && class_of(r@[1].kind)
            == KindClass::Container && class_of(r@[2].kind) == KindClass::Container && class_of(
            r@[3].kind,
        ) == KindClass::Container,
        r@[4].tag@ == "If"@ && r@[4].kind == ComponentKind::ControlFlow(ControlFlowDef::If),
        r@[5].tag@ == "ElseIf"@ && r@[5].kind == ComponentKind::ControlFlow(ControlFlowDef::ElseIf),
        r@[6].tag@ == "Else"@ && r@[6].kind == ComponentKind::ControlFlow(ControlFlowDef::Else),
        r@[7].tag@ == "For"@ && r@[7].kind == ComponentKind::ControlFlow(ControlFlowDef::For),
        r@[8].tag@ == "Fragment"@ && r@[8].kind == ComponentKind::ControlFlow(
            ControlFlowDef::Fragment,
        ),
        r@[9].tag@ == "VirtualList"@ && r@[9].kind == ComponentKind::ControlFlow(
            ControlFlowDef::VirtualList,
        ),
        r@[10].tag@ == "UniformVirtualList"@ && r@[10].kind == ComponentKind::ControlFlow(
            ControlFlowDef::UniformVirtualList,
        ),
        defs_view(r@) == override_defs(),
{
    let mut v: Vec<ComponentDef> = Vec::new();
    v.push(column_def());
    v.push(row_def());
    v.push(div_def());
    v.push(stack_def());
    v.push(control("If", ControlFlowDef::If, "from `overrides.toml`"));
    v.push(control("ElseIf", ControlFlowDef::ElseIf, "from `overrides.toml`"));
    v.push(control("Else", ControlFlowDef::Else, "from `overrides.toml`"));
    v.push(control("For", ControlFlowDef::For, "from `overrides.toml`"));
    v.push(control("Fragment", ControlFlowDef::Fragment, "from `overrides.toml`"));
    v.push(control("VirtualList", ControlFlowDef::VirtualList, "from `overrides.toml`"));
    v.push(control("UniformVirtualList", ControlFlowDef::UniformVirtualList, "from `overrides.toml`"));
    v
}

/// The tag names of the hand-written schema's headline entries.
pub fn builtin_tags() -> (r: Vec<&'static str>)
    ensures
        strs_view(r@) == seq![
            "Button"@, "Column"@, "Div"@, "Else"@, "ElseIf"@, "For"@, "Fragment"@, "If"@,
            "Label"@, "Row"@, "Stack"@
        ],
{
    let list = ["Button", "Column", "Div", "Else", "ElseIf", "For", "Fragment", "If", "Label", "Row", "Stack"];
    let mut v: Vec<&'static str> = Vec::new();
    let mut k: usize = 0;
    while k < 11
        invariant
            k <= 11,
            v@ == list@.take(k as int),
        decreases 11 - k,
    {
        v.push(list[k]);
        k += 1;
        assert(v@ =~= list@.take(k as int));
    }
    assert(list@.take(11) =~= list@);
    assert(strs_view(v@) =~= seq![
        "Button"@, "Column"@, "Div"@, "Else"@, "ElseIf"@, "For"@, "Fragment"@, "If"@,
        "Label"@, "Row"@, "Stack"@
    ]);
    v
}

/// The entry a lookup finds for `tag`: the first match in the
/// hand-written schema, else in the XML-only entries, else in the
/// user's definitions.
pub open spec fn spec_lookup(
    b: Seq<ComponentDef>,
    o: Seq<ComponentDef>,
    u: Seq<ComponentDef>,
    tag: Seq<char>,
) -> Option<ComponentDef> {
    match find_def(b, tag) {
        Some(i) => Some(b[i]),
        None => match find_def(o, tag) {
            Some(i) => Some(o[i]),
            None => match find_def(u, tag) {
                Some(i) => Some(u[i]),
                None => None,
            },
        },
    }
}

/// Look `tag` up in the three tables, in order.
pub fn lookup_in<'a>(
    b: &'a [ComponentDef],
    o: &'a [ComponentDef],
    u: &'a [ComponentDef],
    tag: &str,
) -> (r: Option<&'a ComponentDef>)
    ensures
        r is Some <==> spec_lookup(b@, o@, u@, tag@) is Some,
        r matches Some(d) ==> *d == spec_lookup(b@, o@, u@, tag@)->0,
{
    proof {
        lemma_find_def(b@, tag@);
        lemma_find_def(o@, tag@);
        lemma_find_def(u@, tag@);
    }
    match find_in(b, tag) {
        Some(i) => Some(&b[i]),
        None => match find_in(o, tag) {
            Some(i) => Some(&o[i]),
            None => match find_in(u, tag) {
                Some(i) => Some(&u[i]),
                None => None,
            },
        },
    }
}

} // verus!

verus! {

pub open spec fn same_kind(a: ComponentKind, b: ComponentKind) -> bool {
    match (a, b) {
        (ComponentKind::Container(x), ComponentKind::Container(y)) => x.fixed_methods@
            == y.fixed_methods@ && x.style_hint == y.style_hint,
        (ComponentKind::Leaf(x), ComponentKind::Leaf(y)) => x.factory == y.factory
            && x.extra_args@ == y.extra_args@ && x.render == y.render && x.needs_app
            == y.needs_app && x.needs_window == y.needs_window && x.props@ == y.props@
            && x.events@ == y.events@ && x.supports_text_child == y.supports_text_child
            && x.children_before_render == y.children_before_render && x.unwrap_children
            == y.unwrap_children && x.slots@ == y.slots@,
        (ComponentKind::ControlFlow(x), ComponentKind::ControlFlow(y)) => x == y,
        (ComponentKind::RuntimeLeaf, ComponentKind::RuntimeLeaf) => true,
        _ => false,
    }
}

/// Two entries with the same tag, doc and vocabulary.
pub open spec fn same_def(a: ComponentDef, b: ComponentDef) -> bool {
    a.tag == b.tag && a.doc == b.doc && same_kind(a.kind, b.kind)
}

fn copy_vec<T: Copy>(v: &Vec<T>) -> (r: Vec<T>)
    ensures
        r@ == v@,
{
    let mut r: Vec<T> = Vec::new();
    let mut k: usize = 0;
    while k < v.len()
        invariant
            k <= v@.len(),
            r@ == v@.take(k as int),
        decreases v.len() - k,
    {
        r.push(v[k]);
        k += 1;
        assert(r@ =~= v@.take(k as int));
    }
    assert(v@.take(v@.len() as int) =~= v@);
    r
}

/// A copy of a schema entry.
pub fn clone_def(d: &ComponentDef) -> (r: ComponentDef)
    ensures
        same_def(r, *d),
{
    let kind = match &d.kind {
        ComponentKind::Container(c) => ComponentKind::Container(
            ContainerDef { fixed_methods: copy_vec(&c.fixed_methods), style_hint: c.style_hint },
        ),
        ComponentKind::Leaf(l) => ComponentKind::Leaf(
            LeafDef {
                factory: l.factory,
                extra_args: copy_vec(&l.extra_args),
                render: l.render,
                needs_app: l.needs_app,
                needs_window: l.needs_window,
                props: copy_vec(&l.props),
                events: copy_vec(&l.events),
                supports_text_child: l.supports_text_child,
                children_before_render: l.children_before_render,
                unwrap_children: l.unwrap_children,
                slots: copy_vec(&l.slots),
            },
        ),
        ComponentKind::ControlFlow(c) => ComponentKind::ControlFlow(*c),
        ComponentKind::RuntimeLeaf => ComponentKind::RuntimeLeaf,
    };
    ComponentDef { tag: d.tag, kind, doc: d.doc }
}

pub open spec fn override_tag_list() -> Seq<Seq<char>> {
    seq![
        "Column"@, "Row"@, "Div"@, "Stack"@, "If"@, "ElseIf"@, "Else"@, "For"@, "Fragment"@,
        "VirtualList"@, "UniformVirtualList"@
    ]
}

impl ComponentDef {
    /// Look a tag up in the hand-written schema (case-sensitive).
    pub fn lookup(tag: &str) -> (r: Option<ComponentDef>)
        ensures
            r is Some <==> builtin_tag_list().contains(tag@),
            r matches Some(d) ==> d.tag@ == tag@ && class_of(d.kind) == builtin_class_list()[
                builtin_tag_list().index_of_first(tag@)->0
            ],
            r matches Some(d) ==> def_view(d) == builtin_defs()[builtin_tag_list().index_of_first(
                tag@,
            )->0],
    {
        let mut table = builtins();
        proof {
            lemma_find_def(table@, tag@);
        }
        match find_in(&table, tag) {
            Some(i) => {
                proof {
                    assert(table@[i as int].tag@ == builtin_tag_list()[i as int]);
                    assert(builtin_tag_list().contains(tag@));
                    assert forall|j: int| 0 <= j < i implies builtin_tag_list()[j] != tag@ by {
                        assert(table@[j].tag@ == builtin_tag_list()[j]);
                    }
                    builtin_tag_list().index_of_first_ensures(tag@);
                    assert(def_view(table@[i as int]) == defs_view(table@)[i as int]);
                }
                Some(table.remove(i))
            },
            None => {
                assert forall|j: int| 0 <= j < builtin_tag_list().len() implies builtin_tag_list()[j]
                    != tag@ by {
                    assert(table@[j].tag@ == builtin_tag_list()[j]);
                }
                None
            },
        }
    }
}

/// Look a tag up in the hand-written schema, then the XML-only
/// entries, then `user_schema`; a copy of the entry found.
pub fn lookup_component(tag: &str, user_schema: &[ComponentDef]) -> (r: Option<ComponentDef>)
    ensures
        builtin_tag_list().contains(tag@) ==> (r matches Some(d) && d.tag@ == tag@ && class_of(d.kind)
            == builtin_class_list()[builtin_tag_list().index_of_first(tag@)->0] && def_view(d)
            == builtin_defs()[builtin_tag_list().index_of_first(tag@)->0]),
        !builtin_tag_list().contains(tag@) && override_tag_list().contains(tag@) ==> (r matches Some(
            d,
        ) && d.tag@ == tag@ && def_view(d) == override_defs()[override_tag_list().index_of_first(
            tag@,
        )->0]),
        !builtin_tag_list().contains(tag@) && !override_tag_list().contains(tag@) ==> (r is Some
            <==> find_def(user_schema@, tag@) is Some) && (r matches Some(d) ==> same_def(
            d,
            user_schema@[find_def(user_schema@, tag@)->0],
        )),
{
    if let Some(d) = ComponentDef::lookup(tag) {
        return Some(d);
    }
    let mut o = builtin_overrides();
    proof {
        lemma_find_def(o@, tag@);
        lemma_find_def(user_schema@, tag@);
    }
    match find_in(&o, tag) {
        Some(i) => {
            proof {
                assert(override_tag_list().contains(tag@)) by {
                    assert(o@[i as int].tag@ == override_tag_list()[i as int]);
                }
                assert forall|j: int| 0 <= j < i implies override_tag_list()[j] != tag@ by {
                    assert(o@[j].tag@ == override_tag_list()[j]);
                }
                override_tag_list().index_of_first_ensures(tag@);
                assert(def_view(o@[i as int]) == defs_view(o@)[i as int]);
            }
            Some(o.remove(i))
        },
        None => {
            assert(!override_tag_list().contains(tag@)) by {
                if override_tag_list().contains(tag@) {
                    let j = choose|j: int| 0 <= j < override_tag_list().len() && override_tag_list()[j] == tag@;
                    assert(o@[j].tag@ == override_tag_list()[j]);
                }
            }
            match find_in(user_schema, tag) {
                Some(i) => Some(clone_def(&user_schema[i])),
                None => None,
            }
        },
    }
}

} // verus!
