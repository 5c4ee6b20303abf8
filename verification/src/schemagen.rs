//! The schema generator's logic: a headless component module's outline
//! (its functions, structs and impl blocks) becomes a schema entry, the
//! overrides are merged in, and the entries are rendered as Rust source.
use vstd::prelude::*;

use crate::error::decimal;
use crate::schema::{ExtraArgKind, PropValue};
use crate::strings::{chars_of, contains_seq, push_char, str_eq, string_of, to_owned};
use crate::values::{cat2, cat3};

verus! {

/// `A-Z` to `a-z`.
pub open spec fn ascii_lower(c: char) -> char {
    if 'A' <= c <= 'Z' {
        ((c as u32) + 32) as char
    } else {
        c
    }
}

/// `a-z` to `A-Z`.
pub open spec fn ascii_upper(c: char) -> char {
    if 'a' <= c <= 'z' {
        ((c as u32) - 32) as char
    } else {
        c
    }
}

/// `snake_case` from position `i` on.
pub open spec fn snake_from(s: Seq<char>, i: int) -> Seq<char>
    decreases s.len() - i,
{
    if i < 0 || i >= s.len() {
        seq![]
    } else if 'A' <= s[i] <= 'Z' {
        (if i != 0 {
            seq!['_', ascii_lower(s[i])]
        } else {
            seq![ascii_lower(s[i])]
        }) + snake_from(s, i + 1)
    } else {
        seq![s[i]] + snake_from(s, i + 1)
    }
}

/// `PascalCase` from position `i` on, `start` telling whether `s[i]`
/// begins a `_`-separated part.
pub open spec fn pascal_from(s: Seq<char>, i: int, start: bool) -> Seq<char>
    decreases s.len() - i,
{
    if i < 0 || i >= s.len() {
        seq![]
    } else if s[i] == '_' {
        pascal_from(s, i + 1, true)
    } else {
        seq![if start {
            ascii_upper(s[i])
        } else {
            s[i]
        }] + pascal_from(s, i + 1, false)
    }
}

/// A `snake_case` module name: lower-case ASCII letters and digits in
/// parts joined by single `_`s, each part starting with a letter.
pub open spec fn snake_name(s: Seq<char>) -> bool {
    &&& s.len() > 0
    &&& 'a' <= s[0] <= 'z'
    &&& forall|i: int|
        0 <= i < s.len() ==> ('a' <= #[trigger] s[i] <= 'z' || '0' <= s[i] <= '9' || (s[i] == '_' && i + 1
            < s.len() && 'a' <= s[i + 1] <= 'z'))
}

/// `snake_from` past the first character: every capital gets its `_`.
spec fn snake_rest(u: Seq<char>) -> Seq<char>
    decreases u.len(),
{
    if u.len() == 0 {
        seq![]
    } else if 'A' <= u[0] <= 'Z' {
        seq!['_', ascii_lower(u[0])] + snake_rest(u.drop_first())
    } else {
        seq![u[0]] + snake_rest(u.drop_first())
    }
}

proof fn lemma_snake_from_rest(t: Seq<char>, i: int)
    requires
        1 <= i <= t.len(),
    ensures
        snake_from(t, i) == snake_rest(t.skip(i)),
    decreases t.len() - i,
{
    if i < t.len() {
        lemma_snake_from_rest(t, i + 1);
        assert(t.skip(i).drop_first() =~= t.skip(i + 1));
        assert(t.skip(i)[0] == t[i]);
    } else {
        assert(t.skip(i).len() == 0);
    }
}

proof fn lemma_upper_lower(c: char)
    requires
        'a' <= c <= 'z',
    ensures
        'A' <= ascii_upper(c) <= 'Z',
        ascii_lower(ascii_upper(c)) == c,
{
    assert((((c as u32) - 32) as char) as u32 == (c as u32) - 32);
}

proof fn lemma_pascal_snake_rest(s: Seq<char>, i: int)
    requires
        snake_name(s),
        1 <= i <= s.len(),
    ensures
        snake_rest(pascal_from(s, i, false)) == s.skip(i),
    decreases s.len() - i,
{
    if i < s.len() {
        assert('a' <= s[i] <= 'z' || '0' <= s[i] <= '9' || (s[i] == '_' && i + 1 < s.len() && 'a' <= s[i + 1] <= 'z'));
        if s[i] == '_' {
            lemma_upper_lower(s[i + 1]);
            lemma_pascal_snake_rest(s, i + 2);
            let t = pascal_from(s, i + 2, false);
            assert(pascal_from(s, i + 1, true) == seq![ascii_upper(s[i + 1])] + t);
            assert((seq![ascii_upper(s[i + 1])] + t).drop_first() =~= t);
            assert(s.skip(i) =~= seq!['_', s[i + 1]] + s.skip(i + 2));
        } else {
            lemma_pascal_snake_rest(s, i + 1);
            let t = pascal_from(s, i + 1, false);
            assert((seq![s[i]] + t).drop_first() =~= t);
            assert(s.skip(i) =~= seq![s[i]] + s.skip(i + 1));
        }
    } else {
        assert(s.skip(i).len() == 0);
    }
}

/// `snake_case` undoes `pascal_case` on a `snake_case` module name.
pub proof fn lemma_snake_undoes_pascal(s: Seq<char>)
    requires
        snake_name(s),
    ensures
        snake_from(pascal_from(s, 0, true), 0) == s,
{
    let t = pascal_from(s, 0, true);
    lemma_upper_lower(s[0]);
    lemma_pascal_snake_rest(s, 1);
    assert(t == seq![ascii_upper(s[0])] + pascal_from(s, 1, false));
    assert(t.skip(1) =~= pascal_from(s, 1, false));
    lemma_snake_from_rest(t, 1);
    assert(s =~= seq![s[0]] + s.skip(1));
}

fn ascii_lower_char(c: char) -> (r: char)
    ensures
        r == ascii_lower(c),
{
    if 'A' <= c && c <= 'Z' {
        ((c as u32) + 32) as u8 as char
    } else {
        c
    }
}

fn ascii_upper_char(c: char) -> (r: char)
    ensures
        r == ascii_upper(c),
{
    if 'a' <= c && c <= 'z' {
        ((c as u32) - 32) as u8 as char
    } else {
        c
    }
}

/// `PascalCase` → `snake_case`: an `_` before every ASCII capital but
/// a leading one, and the capitals lowered.
pub fn snake_case(s: &str) -> (r: String)
    ensures
        r@ == snake_from(s@, 0),
{
    let v = chars_of(s);
    let mut out = String::new();
    let mut k: usize = 0;
    while k < v.len()
        invariant
            k <= v@.len(),
            v@ == s@,
            out@ + snake_from(v@, k as int) == snake_from(v@, 0),
        decreases v.len() - k,
    {
        let c = v[k];
        let ghost pre = out@;
        if 'A' <= c && c <= 'Z' {
            if k != 0 {
                push_char(&mut out, '_');
            }
            push_char(&mut out, ascii_lower_char(c));
        } else {
            push_char(&mut out, c);
        }
        assert(pre + snake_from(v@, k as int) =~= out@ + snake_from(v@, k + 1));
        k += 1;
    }
    assert(out@ + Seq::<char>::empty() =~= out@);
    out
}

/// `snake_case` → `PascalCase`: the `_`-separated parts with their
/// first letter upper-cased, joined.
pub fn pascal_case(s: &str) -> (r: String)
    ensures
        r@ == pascal_from(s@, 0, true),
{
    let v = chars_of(s);
    let mut out = String::new();
    let mut start = true;
    let mut k: usize = 0;
    while k < v.len()
        invariant
            k <= v@.len(),
            v@ == s@,
            out@ + pascal_from(v@, k as int, start) == pascal_from(v@, 0, true),
        decreases v.len() - k,
    {
        let c = v[k];
        let ghost pre = out@;
        let ghost st = start;
        if c == '_' {
            start = true;
        } else {
            if start {
                push_char(&mut out, ascii_upper_char(c));
            } else {
                push_char(&mut out, c);
            }
            start = false;
        }
        assert(pre + pascal_from(v@, k as int, st) =~= out@ + pascal_from(v@, k + 1, start));
        k += 1;
    }
    assert(out@ + Seq::<char>::empty() =~= out@);
    out
}

/// A Rust type as the generator reads it: its token text, the last
/// segment of its path (for a path type), whether it is a reference,
/// and for `&mut <path>` the last segment of that path.
#[derive(Debug, Clone)]
pub struct TypeInfo {
    pub rendered: String,
    pub path_last: Option<String>,
    pub is_reference: bool,
    pub mut_ref_path_last: Option<String>,
}

/// One input of a function signature.
#[derive(Debug, Clone)]
pub enum ArgInfo {
    Receiver { by_ref: bool, mutable: bool },
    Typed { ty: TypeInfo, name: Option<String> },
}

/// A function: its name, whether it is `pub`, and its inputs.
#[derive(Debug, Clone)]
pub struct FnInfo {
    pub name: String,
    pub public: bool,
    pub inputs: Vec<ArgInfo>,
}

/// A top-level item of a module.
#[derive(Debug, Clone)]
pub enum ItemInfo {
    Fn(FnInfo),
    Struct { name: String, public: bool },
    /// An impl block: the last segment of its self type (when that is a
    /// plain path), whether it implements a trait, and its functions.
    Impl { self_name: Option<String>, has_trait: bool, fns: Vec<FnInfo> },
    Other,
}

pub struct STypeInfo {
    pub rendered: Seq<char>,
    pub path_last: Option<Seq<char>>,
    pub is_reference: bool,
    pub mut_ref_path_last: Option<Seq<char>>,
}

pub enum SArg {
    Receiver { by_ref: bool, mutable: bool },
    Typed { ty: STypeInfo, name: Option<Seq<char>> },
}

pub struct SFn {
    pub name: Seq<char>,
    pub public: bool,
    pub inputs: Seq<SArg>,
}

pub enum SItem {
    Fn(SFn),
    Struct { name: Seq<char>, public: bool },
    Impl { self_name: Option<Seq<char>>, has_trait: bool, fns: Seq<SFn> },
    Other,
}

pub open spec fn ov(o: Option<String>) -> Option<Seq<char>> {
    crate::ast::opt_view(o)
}

impl View for TypeInfo {
    type V = STypeInfo;

    open spec fn view(&self) -> STypeInfo {
        STypeInfo {
            rendered: self.rendered@,
            path_last: ov(self.path_last),
            is_reference: self.is_reference,
            mut_ref_path_last: ov(self.mut_ref_path_last),
        }
    }
}

impl View for ArgInfo {
    type V = SArg;

    open spec fn view(&self) -> SArg {
        match self {
            ArgInfo::Receiver { by_ref, mutable } => SArg::Receiver { by_ref: *by_ref, mutable: *mutable },
            ArgInfo::Typed { ty, name } => SArg::Typed { ty: ty@, name: ov(*name) },
        }
    }
}

impl View for FnInfo {
    type V = SFn;

    open spec fn view(&self) -> SFn {
        SFn {
            name: self.name@,
            public: self.public,
            inputs: self.inputs@.map_values(|a: ArgInfo| a@),
        }
    }
}

impl View for ItemInfo {
    type V = SItem;

    open spec fn view(&self) -> SItem {
        match self {
            ItemInfo::Fn(f) => SItem::Fn(f@),
            ItemInfo::Struct { name, public } => SItem::Struct { name: name@, public: *public },
            ItemInfo::Impl { self_name, has_trait, fns } => SItem::Impl {
                self_name: ov(*self_name),
                has_trait: *has_trait,
                fns: fns@.map_values(|f: FnInfo| f@),
            },
            ItemInfo::Other => SItem::Other,
        }
    }
}

/// `s` without its spaces.
pub open spec fn no_spaces(s: Seq<char>) -> Seq<char>
    decreases s.len(),
{
    if s.len() == 0 {
        seq![]
    } else {
        no_spaces(s.drop_last()) + if s.last() == ' ' {
            seq![]
        } else {
            seq![s.last()]
        }
    }
}

fn no_spaces_of(s: &Vec<char>) -> (r: Vec<char>)
    ensures
        r@ == no_spaces(s@),
{
    let mut out: Vec<char> = Vec::new();
    let mut k: usize = 0;
    assert(s@.take(0) =~= Seq::<char>::empty());
    while k < s.len()
        invariant
            k <= s@.len(),
            out@ == no_spaces(s@.take(k as int)),
        decreases s.len() - k,
    {
        assert(s@.take(k + 1).drop_last() =~= s@.take(k as int));
        if s[k] != ' ' {
            out.push(s[k]);
        }
        k += 1;
        assert(out@ =~= no_spaces(s@.take(k as int)));
    }
    assert(s@.take(s@.len() as int) =~= s@);
    out
}

/// Whether a type reads as a string: it mentions `Into` (but not
/// `IntoIterator`) or `SharedString`, or is `String` or `&str`.
pub open spec fn string_like(r: Seq<char>) -> bool {
    !contains_seq(r, "IntoIterator"@) && (contains_seq(r, "Into"@) || contains_seq(r, "SharedString"@)
        || r == "String"@ || r == "& str"@ || r == "&'static str"@)
}

/// The prop kind a setter's argument type gives: by the last segment of
/// a path type first, then by what the type's text mentions.
pub open spec fn classify_type(t: STypeInfo) -> PropValue {
    let n = t.path_last;
    let r = t.rendered;
    if n == Some("bool"@) {
        PropValue::Bool
    } else if n == Some("f64"@) {
        PropValue::Float64
    } else if n == Some("f32"@) {
        PropValue::Float32
    } else if n == Some("usize"@) {
        PropValue::UInt
    } else if n == Some("ActionVariantKind"@) || n == Some("BuiltinVariantKey"@) || n == Some(
        "SliderSize"@,
    ) || n == Some("TagKind"@) {
        PropValue::Variant
    } else if n == Some("BadgeVariant"@) {
        PropValue::BadgeVariant
    } else if n == Some("HeadingLevel"@) {
        PropValue::HeadingLevel
    } else if n == Some("IconSource"@) {
        PropValue::IconSource
    } else if n == Some("ImageSource"@) {
        PropValue::ImageSource
    } else if n == Some("KeybindingInputMode"@) {
        PropValue::KeybindingInputMode
    } else if n == Some("Spacing"@) {
        PropValue::Spacing
    } else if n == Some("Inset"@) {
        PropValue::Inset
    } else if n == Some("AlignItems"@) {
        PropValue::AlignItems
    } else if n == Some("JustifyContent"@) {
        PropValue::JustifyContent
    } else if n == Some("Length"@) {
        PropValue::Length
    } else if contains_seq(r, "Pixels"@) {
        PropValue::Float32
    } else if contains_seq(r, "Hsla"@) || contains_seq(r, "Rgba"@) {
        PropValue::Color
    } else if contains_seq(r, "IconSource"@) {
        PropValue::IconSource
    } else if contains_seq(r, "ImageSource"@) {
        PropValue::ImageSource
    } else if contains_seq(r, "KeybindingInputMode"@) {
        PropValue::KeybindingInputMode
    } else if contains_seq(r, "Spacing"@) {
        PropValue::Spacing
    } else if contains_seq(r, "Inset"@) {
        PropValue::Inset
    } else if contains_seq(r, "AlignItems"@) {
        PropValue::AlignItems
    } else if contains_seq(r, "JustifyContent"@) {
        PropValue::JustifyContent
    } else if contains_seq(r, "Length"@) {
        PropValue::Length
    } else if contains_seq(r, "TreeData"@) || contains_seq(r, "TreeNodeId"@) || crate::strings::starts_with(
        r,
        "Vec <"@,
    ) || crate::strings::starts_with(r, "HashMap <"@) || crate::strings::starts_with(r, "BTreeMap <"@) {
        PropValue::Custom
    } else if string_like(r) {
        PropValue::String
    } else {
        PropValue::Unknown
    }
}

fn mentions(r: &Vec<char>, p: &str) -> (b: bool)
    ensures
        b == contains_seq(r@, p@),
{
    let pv = chars_of(p);
    crate::strings::contains_chars(r.as_slice(), pv.as_slice())
}

fn begins(r: &Vec<char>, p: &str) -> (b: bool)
    ensures
        b == crate::strings::starts_with(r@, p@),
{
    let pv = chars_of(p);
    crate::strings::starts_with_chars(r.as_slice(), pv.as_slice())
}

fn opt_is(o: &Option<String>, s: &str) -> (b: bool)
    ensures
        b == (ov(*o) == Some(s@)),
{
    match o {
        Some(x) => str_eq(x.as_str(), s),
        None => false,
    }
}

fn is_string_like(r: &Vec<char>, rs: &str) -> (b: bool)
    ensures
        r@ == rs@ ==> b == string_like(r@),
{
    !mentions(r, "IntoIterator") && (mentions(r, "Into") || mentions(r, "SharedString") || str_eq(rs, "String")
        || str_eq(rs, "& str") || str_eq(rs, "&'static str"))
}

/// A setter taking a Rust primitive gets the prop kind of that very
/// type: `bool` a boolean, `f64` an `f64` value, `f32` an `f32`
/// value, `usize` an unsigned count.
pub proof fn lemma_primitive_arg_kinds(t: STypeInfo)
    ensures
        t.path_last == Some("bool"@) ==> classify_type(t) == PropValue::Bool,
        t.path_last == Some("f64"@) ==> classify_type(t) == PropValue::Float64,
        t.path_last == Some("f32"@) ==> classify_type(t) == PropValue::Float32,
        t.path_last == Some("usize"@) ==> classify_type(t) == PropValue::UInt,
{
    reveal_strlit("bool");
    reveal_strlit("f64");
    reveal_strlit("f32");
    reveal_strlit("usize");
    assert("f64"@[1] != "f32"@[1]);
    assert("f32"@ != "f64"@);
    assert("f32"@ != "bool"@);
    assert("usize"@.len() == 5 && "bool"@.len() == 4 && "f64"@.len() == 3 && "f32"@.len() == 3);
}

/// A float literal written for a setter argument of type `f64` or `f32`
/// is a literal of that same type: it carries the argument's type as
/// its suffix.
pub proof fn lemma_float_arg_literal_type(t: STypeInfo, a: crate::ast::SAttr)
    requires
        t.path_last == Some("f64"@) || t.path_last == Some("f32"@),
    ensures
        crate::values::spec_prop_literal(a, classify_type(t)) matches Ok(c) ==> crate::strings::ends_with(
            c,
            t.path_last->0,
        ),
{
    lemma_primitive_arg_kinds(t);
    let p = t.path_last->0;
    if let Some(c) = crate::values::float_lit(a.raw, p) {
        crate::values::lemma_float_lit_suffix(a.raw, p);
    }
}

/// The prop kind a setter's argument type gives.
pub fn classify_arg(t: &TypeInfo) -> (r: PropValue)
    ensures
        r == classify_type(t@),
{
    let n = &t.path_last;
    if opt_is(n, "bool") {
        return PropValue::Bool;
    }
    if opt_is(n, "f64") {
        return PropValue::Float64;
    }
    if opt_is(n, "f32") {
        return PropValue::Float32;
    }
    if opt_is(n, "usize") {
        return PropValue::UInt;
    }
    if opt_is(n, "ActionVariantKind") || opt_is(n, "BuiltinVariantKey") || opt_is(n, "SliderSize")
        || opt_is(n, "TagKind") {
        return PropValue::Variant;
    }
    if opt_is(n, "BadgeVariant") {
        return PropValue::BadgeVariant;
    }
    if opt_is(n, "HeadingLevel") {
        return PropValue::HeadingLevel;
    }
    if opt_is(n, "IconSource") {
        return PropValue::IconSource;
    }
    if opt_is(n, "ImageSource") {
        return PropValue::ImageSource;
    }
    if opt_is(n, "KeybindingInputMode") {
        return PropValue::KeybindingInputMode;
    }
    if opt_is(n, "Spacing") {
        return PropValue::Spacing;
    }
    if opt_is(n, "Inset") {
        return PropValue::Inset;
    }
    if opt_is(n, "AlignItems") {
        return PropValue::AlignItems;
    }
    if opt_is(n, "JustifyContent") {
        return PropValue::JustifyContent;
    }
    if opt_is(n, "Length") {
        return PropValue::Length;
    }
    let r = chars_of(t.rendered.as_str());
    if mentions(&r, "Pixels") {
        return PropValue::Float32;
    }
    if mentions(&r, "Hsla") || mentions(&r, "Rgba") {
        return PropValue::Color;
    }
    if mentions(&r, "IconSource") {
        return PropValue::IconSource;
    }
    if mentions(&r, "ImageSource") {
        return PropValue::ImageSource;
    }
    if mentions(&r, "KeybindingInputMode") {
        return PropValue::KeybindingInputMode;
    }
    if mentions(&r, "Spacing") {
        return PropValue::Spacing;
    }
    if mentions(&r, "Inset") {
        return PropValue::Inset;
    }
    if mentions(&r, "AlignItems") {
        return PropValue::AlignItems;
    }
    if mentions(&r, "JustifyContent") {
        return PropValue::JustifyContent;
    }
    if mentions(&r, "Length") {
        return PropValue::Length;
    }
    if mentions(&r, "TreeData") || mentions(&r, "TreeNodeId") || begins(&r, "Vec <") || begins(&r, "HashMap <")
        || begins(&r, "BTreeMap <") {
        return PropValue::Custom;
    }
    if is_string_like(&r, t.rendered.as_str()) {
        return PropValue::String;
    }
    PropValue::Unknown
}

/// The kind of a positional factory argument of type `t`.
pub open spec fn arg_kind(t: STypeInfo) -> ExtraArgKind {
    let r = t.rendered;
    let squeezed = no_spaces(r);
    if t.path_last == Some("usize"@) {
        ExtraArgKind::UInt
    } else if contains_seq(r, "HeadingLevel"@) {
        ExtraArgKind::HeadingLevel
    } else if contains_seq(r, "IconSource"@) {
        ExtraArgKind::IconSource
    } else if contains_seq(r, "ImageSource"@) {
        ExtraArgKind::ImageSource
    } else if contains_seq(r, "KeybindingInputMode"@) {
        ExtraArgKind::KeybindingInputMode
    } else if contains_seq(squeezed, "IntoIterator"@) && contains_seq(squeezed, "Into<String>"@) {
        ExtraArgKind::StringList
    } else if t.is_reference {
        ExtraArgKind::Borrow
    } else if contains_seq(r, "TreeNodeId"@) {
        ExtraArgKind::Custom
    } else if string_like(r) {
        ExtraArgKind::Text
    } else if contains_seq(squeezed, "Fn("@) {
        ExtraArgKind::Callback
    } else {
        ExtraArgKind::Custom
    }
}

fn arg_kind_of(t: &TypeInfo) -> (k: ExtraArgKind)
    ensures
        k == arg_kind(t@),
{
    let r = chars_of(t.rendered.as_str());
    let sq = no_spaces_of(&r);
    if opt_is(&t.path_last, "usize") {
        ExtraArgKind::UInt
    } else if mentions(&r, "HeadingLevel") {
        ExtraArgKind::HeadingLevel
    } else if mentions(&r, "IconSource") {
        ExtraArgKind::IconSource
    } else if mentions(&r, "ImageSource") {
        ExtraArgKind::ImageSource
    } else if mentions(&r, "KeybindingInputMode") {
        ExtraArgKind::KeybindingInputMode
    } else if mentions(&sq, "IntoIterator") && mentions(&sq, "Into<String>") {
        ExtraArgKind::StringList
    } else if t.is_reference {
        ExtraArgKind::Borrow
    } else if mentions(&r, "TreeNodeId") {
        ExtraArgKind::Custom
    } else if is_string_like(&r, t.rendered.as_str()) {
        ExtraArgKind::Text
    } else if mentions(&sq, "Fn(") {
        ExtraArgKind::Callback
    } else {
        ExtraArgKind::Custom
    }
}

/// How a generated leaf is rendered.
#[derive(Debug, Clone, Copy, PartialEq, Eq, Structural)]
pub enum RenderKind {
    /// `pub fn render(self, cx: &App) -> …` exists.
    Default,
    /// `pub fn apply(self, el: Div) -> …` exists.
    Apply,
    /// Neither.
    Compose,
}

/// A positional factory argument: its kind and XML attribute.
#[derive(Debug, Clone)]
pub struct ExtraArgInfo {
    pub kind: ExtraArgKind,
    pub attr: String,
}

/// A prop: XML name, setter and value kind.
#[derive(Debug, Clone)]
pub struct PropInfo {
    pub name: String,
    pub setter: String,
    pub value: PropValue,
}

/// A named slot: XML slot name and builder method.
#[derive(Debug, Clone)]
pub struct SlotInfo {
    pub name: String,
    pub setter: String,
}

/// A schema entry as the generator builds it.
#[derive(Debug, Clone)]
pub struct Extracted {
    pub tag: String,
    pub factory: String,
    pub extra_args: Vec<ExtraArgInfo>,
    pub needs_app: bool,
    pub needs_window: bool,
    pub render: RenderKind,
    pub props: Vec<PropInfo>,
    pub events: Vec<(String, String)>,
    pub supports_text_child: bool,
    pub children_before_render: bool,
    pub unwrap_children: bool,
    pub slots: Vec<SlotInfo>,
    pub notes: Vec<String>,
}

pub struct SExtracted {
    pub tag: Seq<char>,
    pub factory: Seq<char>,
    pub extra_args: Seq<(ExtraArgKind, Seq<char>)>,
    pub needs_app: bool,
    pub needs_window: bool,
    pub render: RenderKind,
    pub props: Seq<(Seq<char>, Seq<char>, PropValue)>,
    pub events: Seq<(Seq<char>, Seq<char>)>,
    pub supports_text_child: bool,
    pub children_before_render: bool,
    pub unwrap_children: bool,
    pub slots: Seq<(Seq<char>, Seq<char>)>,
    pub notes: Seq<Seq<char>>,
}

pub open spec fn extra_view(v: Seq<ExtraArgInfo>) -> Seq<(ExtraArgKind, Seq<char>)> {
    v.map_values(|a: ExtraArgInfo| (a.kind, a.attr@))
}

pub open spec fn props_view(v: Seq<PropInfo>) -> Seq<(Seq<char>, Seq<char>, PropValue)> {
    v.map_values(|p: PropInfo| (p.name@, p.setter@, p.value))
}

pub open spec fn pairs_view(v: Seq<(String, String)>) -> Seq<(Seq<char>, Seq<char>)> {
    v.map_values(|p: (String, String)| (p.0@, p.1@))
}

pub open spec fn slots_view(v: Seq<SlotInfo>) -> Seq<(Seq<char>, Seq<char>)> {
    v.map_values(|s: SlotInfo| (s.name@, s.setter@))
}

pub open spec fn strs_view(v: Seq<String>) -> Seq<Seq<char>> {
    v.map_values(|s: String| s@)
}

impl View for Extracted {
    type V = SExtracted;

    open spec fn view(&self) -> SExtracted {
        SExtracted {
            tag: self.tag@,
            factory: self.factory@,
            extra_args: extra_view(self.extra_args@),
            needs_app: self.needs_app,
            needs_window: self.needs_window,
            render: self.render,
            props: props_view(self.props@),
            events: pairs_view(self.events@),
            supports_text_child: self.supports_text_child,
            children_before_render: self.children_before_render,
            unwrap_children: self.unwrap_children,
            slots: slots_view(self.slots@),
            notes: strs_view(self.notes@),
        }
    }
}

/// The inputs that are not the receiver, in order.
pub open spec fn non_receivers(inputs: Seq<SArg>) -> Seq<SArg>
    decreases inputs.len(),
{
    if inputs.len() == 0 {
        seq![]
    } else {
        non_receivers(inputs.drop_last()) + if inputs.last() is Receiver {
            seq![]
        } else {
            seq![inputs.last()]
        }
    }
}

/// An `&mut App` or `&mut Context<…>` argument.
pub open spec fn is_cx(a: SArg) -> bool {
    a matches SArg::Typed { ty, .. } && (ty.mut_ref_path_last == Some("App"@)
        || ty.mut_ref_path_last == Some("Context"@))
}

/// The positional arguments of a factory: those between the leading
/// id and an optional trailing app context.
pub open spec fn extra_inputs(inputs: Seq<SArg>) -> Seq<SArg> {
    let args = non_receivers(inputs);
    let rest = if args.len() > 0 && is_cx(args.last()) {
        args.drop_last()
    } else {
        args
    };
    if rest.len() > 0 {
        rest.drop_first()
    } else {
        seq![]
    }
}

/// One positional argument's kind and attribute (`value` when its
/// pattern is not a plain name).
pub open spec fn extra_info(a: SArg) -> (ExtraArgKind, Seq<char>) {
    match a {
        SArg::Typed { ty, name } => (
            arg_kind(ty),
            match name {
                Some(n) => n,
                None => "value"@,
            },
        ),
        SArg::Receiver { .. } => (ExtraArgKind::Custom, "value"@),
    }
}

/// A factory's positional arguments, and whether it takes the app
/// context last.
pub open spec fn spec_analyse(inputs: Seq<SArg>) -> (Seq<(ExtraArgKind, Seq<char>)>, bool) {
    let args = non_receivers(inputs);
    (
        extra_inputs(inputs).map_values(|a: SArg| extra_info(a)),
        args.len() > 0 && is_cx(args.last()),
    )
}

fn clone_type_info(t: &TypeInfo) -> (r: TypeInfo)
    ensures
        r@ == t@,
{
    TypeInfo {
        rendered: t.rendered.clone(),
        path_last: crate::ast::clone_opt(&t.path_last),
        is_reference: t.is_reference,
        mut_ref_path_last: crate::ast::clone_opt(&t.mut_ref_path_last),
    }
}

fn clone_arg(a: &ArgInfo) -> (r: ArgInfo)
    ensures
        r@ == a@,
{
    match a {
        ArgInfo::Receiver { by_ref, mutable } => ArgInfo::Receiver { by_ref: *by_ref, mutable: *mutable },
        ArgInfo::Typed { ty, name } => ArgInfo::Typed { ty: clone_type_info(ty), name: crate::ast::clone_opt(name) },
    }
}

fn non_receivers_of(inputs: &Vec<ArgInfo>) -> (r: Vec<ArgInfo>)
    ensures
        r@.map_values(|a: ArgInfo| a@) == non_receivers(inputs@.map_values(|a: ArgInfo| a@)),
{
    let ghost iv = inputs@.map_values(|a: ArgInfo| a@);
    let mut out: Vec<ArgInfo> = Vec::new();
    let mut k: usize = 0;
    assert(iv.take(0) =~= Seq::<SArg>::empty());
    assert(out@.map_values(|a: ArgInfo| a@) =~= Seq::<SArg>::empty());
    while k < inputs.len()
        invariant
            k <= inputs@.len(),
            iv == inputs@.map_values(|a: ArgInfo| a@),
            out@.map_values(|a: ArgInfo| a@) == non_receivers(iv.take(k as int)),
        decreases inputs.len() - k,
    {
        let ghost pre = out@;
        assert(iv.take(k + 1).drop_last() =~= iv.take(k as int));
        assert(iv.take(k + 1).last() == inputs@[k as int]@);
        match &inputs[k] {
            ArgInfo::Receiver { .. } => {
                assert(non_receivers(iv.take(k as int)) + Seq::<SArg>::empty() =~= non_receivers(
                    iv.take(k as int),
                ));
            },
            ArgInfo::Typed { .. } => {
                out.push(clone_arg(&inputs[k]));
                assert(out@.map_values(|a: ArgInfo| a@) =~= pre.map_values(|a: ArgInfo| a@) + seq![
                    inputs@[k as int]@,
                ]);
            },
        }
        k += 1;
    }
    assert(iv.take(inputs@.len() as int) =~= iv);
    out
}

fn is_cx_arg(a: &ArgInfo) -> (b: bool)
    ensures
        b == is_cx(a@),
{
    match a {
        ArgInfo::Typed { ty, .. } => opt_is(&ty.mut_ref_path_last, "App") || opt_is(
            &ty.mut_ref_path_last,
            "Context",
        ),
        _ => false,
    }
}

fn extra_info_of(a: &ArgInfo) -> (r: ExtraArgInfo)
    ensures
        (r.kind, r.attr@) == extra_info(a@),
{
    match a {
        ArgInfo::Typed { ty, name } => ExtraArgInfo {
            kind: arg_kind_of(ty),
            attr: match name {
                Some(n) => n.clone(),
                None => to_owned("value"),
            },
        },
        ArgInfo::Receiver { .. } => ExtraArgInfo { kind: ExtraArgKind::Custom, attr: to_owned("value") },
    }
}

/// A factory's positional arguments (those between the leading id and
/// an optional trailing `&mut App` / `&mut Context<…>`), each with its
/// kind and attribute, and whether the factory takes the context.
pub fn analyse_factory(inputs: &Vec<ArgInfo>) -> (r: (Vec<ExtraArgInfo>, bool))
    ensures
        (extra_view(r.0@), r.1) == spec_analyse(inputs@.map_values(|a: ArgInfo| a@)),
{
    let args = non_receivers_of(inputs);
    let ghost av = args@.map_values(|a: ArgInfo| a@);
    let last_cx = args.len() > 0 && is_cx_arg(&args[args.len() - 1]);
    let end = if last_cx {
        args.len() - 1
    } else {
        args.len()
    };
    let ghost rest = if last_cx {
        av.drop_last()
    } else {
        av
    };
    assert(rest =~= av.take(end as int));
    let ghost extra = if rest.len() > 0 {
        rest.drop_first()
    } else {
        Seq::<SArg>::empty()
    };
    let start: usize = if end > 0 {
        1
    } else {
        0
    };
    let mut out: Vec<ExtraArgInfo> = Vec::new();
    let mut k: usize = start;
    assert(extra =~= av.subrange(start as int, end as int));
    while k < end
        invariant
            end <= args@.len(),
            av == args@.map_values(|a: ArgInfo| a@),
            start <= k <= end,
            start == (if end > 0 { 1usize } else { 0usize }),
            extra_view(out@) == av.subrange(start as int, k as int).map_values(|a: SArg| extra_info(a)),
        decreases end - k,
    {
        let ghost pre = out@;
        let e = extra_info_of(&args[k]);
        out.push(e);
        assert(av[k as int] == args@[k as int]@);
        assert(extra_view(out@) =~= extra_view(pre).push(extra_info(av[k as int])));
        assert(av.subrange(start as int, k + 1) =~= av.subrange(start as int, k as int).push(av[k as int]));
        assert(extra_view(out@) =~= av.subrange(start as int, k + 1).map_values(|a: SArg| extra_info(a)));
        k += 1;
    }
    assert(extra_view(out@) =~= extra.map_values(|a: SArg| extra_info(a)));
    (out, last_cx)
}

/// Whether a type is `&mut Window` (by its text, roughly).
pub open spec fn mut_window(t: STypeInfo) -> bool {
    no_spaces(t.rendered) == "&mutWindow"@ || contains_seq(t.rendered, "&mutgpui::Window"@)
        || contains_seq(t.rendered, "&mutWindow"@)
}

/// A typed input whose type is `&mut Window`.
pub open spec fn arg_is_mut_window(a: SArg) -> bool {
    match a {
        SArg::Typed { ty, .. } => mut_window(ty),
        SArg::Receiver { .. } => false,
    }
}

/// Whether one of the last two typed inputs of a render signature is
/// `&mut Window`.
pub open spec fn takes_window(inputs: Seq<SArg>) -> bool {
    let a = non_receivers(inputs);
    let n = a.len();
    (n >= 1 && arg_is_mut_window(a[n - 1])) || (n >= 2 && arg_is_mut_window(a[n - 2]))
}

fn mut_window_of(a: &ArgInfo) -> (b: bool)
    ensures
        b == arg_is_mut_window(a@),
{
    match a {
        ArgInfo::Typed { ty, .. } => {
            let r = chars_of(ty.rendered.as_str());
            let sq = no_spaces_of(&r);
            let sqs = string_of(&sq);
            str_eq(sqs.as_str(), "&mutWindow") || mentions(&r, "&mutgpui::Window") || mentions(
                &r,
                "&mutWindow",
            )
        },
        _ => false,
    }
}

/// Whether a render signature takes the window.
pub fn render_takes_window(inputs: &Vec<ArgInfo>) -> (b: bool)
    ensures
        b == takes_window(inputs@.map_values(|a: ArgInfo| a@)),
{
    let a = non_receivers_of(inputs);
    let n = a.len();
    (n >= 1 && mut_window_of(&a[n - 1])) || (n >= 2 && mut_window_of(&a[n - 2]))
}

/// What the scan of a props struct's impl block has found so far.
pub struct SScan {
    pub props: Seq<(Seq<char>, Seq<char>, PropValue)>,
    pub events: Seq<(Seq<char>, Seq<char>)>,
    pub render: RenderKind,
    pub needs_window: bool,
    pub supports_text_child: bool,
    pub notes: Seq<Seq<char>>,
}

/// The scan before any method.
pub open spec fn scan_start() -> SScan {
    SScan {
        props: seq![],
        events: seq![],
        render: RenderKind::Compose,
        needs_window: false,
        supports_text_child: false,
        notes: seq![],
    }
}

/// `mut self` by value.
pub open spec fn is_mut_self(a: SArg) -> bool {
    a matches SArg::Receiver { by_ref, mutable } && !by_ref && mutable
}

/// The note left for a setter whose argument type is not classified.
pub open spec fn review_note(name: Seq<char>, rendered: Seq<char>) -> Seq<char> {
    "review needed: prop `"@ + name + "` has unclassified type `"@ + rendered + "`"@
}

/// The setter's prop once its shape is known: a flag for `(mut self)`,
/// else the kind its argument type gives.
pub open spec fn setter_prop(st: SScan, name: Seq<char>, arg: Option<STypeInfo>) -> SScan {
    let (value, notes) = match arg {
        None => (PropValue::Flag, st.notes),
        Some(t) => {
            let v = classify_type(t);
            (v, if v == PropValue::Unknown {
                st.notes.push(review_note(name, t.rendered))
            } else {
                st.notes
            })
        },
    };
    SScan {
        props: st.props.push((name, name, value)),
        notes,
        supports_text_child: st.supports_text_child || name == "caption"@,
        ..st
    }
}

/// One public method of the impl block, as the scan reads it.
pub open spec fn scan_step(st: SScan, f: SFn) -> SScan {
    let name = f.name;
    let ins = f.inputs;
    if !f.public {
        st
    } else if name == "render"@ {
        SScan { render: RenderKind::Default, needs_window: st.needs_window || takes_window(ins), ..st }
    } else if name == "apply"@ {
        SScan { render: RenderKind::Apply, ..st }
    } else if name == "focus_handle"@ || name == "is_focused"@ {
        st
    } else if !((ins.len() == 1 && is_mut_self(ins[0])) || (ins.len() == 2 && is_mut_self(ins[0])
        && ins[1] is Typed)) {
        st
    } else if crate::strings::starts_with(name, "on_"@) {
        SScan { events: st.events.push((name, name)), ..st }
    } else if name == "child"@ || name == "children"@ {
        st
    } else if ins.len() == 1 {
        setter_prop(st, name, None)
    } else {
        setter_prop(st, name, Some(ins[1]->Typed_ty))
    }
}

/// The scan over the methods `fns`, in order.
pub open spec fn scan_methods(fns: Seq<SFn>) -> SScan
    decreases fns.len(),
{
    if fns.len() == 0 {
        scan_start()
    } else {
        scan_step(scan_methods(fns.drop_last()), fns.last())
    }
}

/// The scan's state in executable form.
pub struct Scan {
    pub props: Vec<PropInfo>,
    pub events: Vec<(String, String)>,
    pub render: RenderKind,
    pub needs_window: bool,
    pub supports_text_child: bool,
    pub notes: Vec<String>,
}

impl View for Scan {
    type V = SScan;

    open spec fn view(&self) -> SScan {
        SScan {
            props: props_view(self.props@),
            events: pairs_view(self.events@),
            render: self.render,
            needs_window: self.needs_window,
            supports_text_child: self.supports_text_child,
            notes: strs_view(self.notes@),
        }
    }
}

fn is_mut_self_of(a: &ArgInfo) -> (b: bool)
    ensures
        b == is_mut_self(a@),
{
    match a {
        ArgInfo::Receiver { by_ref, mutable } => !*by_ref && *mutable,
        _ => false,
    }
}

fn review_note_of(name: &str, rendered: &str) -> (r: String)
    ensures
        r@ == review_note(name@, rendered@),
{
    let mut s = cat3("review needed: prop `", name, "` has unclassified type `");
    s.append(rendered);
    s.append("`");
    s
}

fn add_setter_prop(st: &mut Scan, name: &String, arg: Option<&TypeInfo>)
    ensures
        final(st)@ == setter_prop(old(st)@, name@, match arg {
            Some(t) => Some(t@),
            None => None,
        }),
{
    let ghost pre = st@;
    let value = match arg {
        None => PropValue::Flag,
        Some(t) => {
            let v = classify_arg(t);
            if v == PropValue::Unknown {
                let note = review_note_of(name.as_str(), t.rendered.as_str());
                st.notes.push(note);
                assert(strs_view(st.notes@) =~= pre.notes.push(review_note(name@, t@.rendered)));
            }
            v
        },
    };
    st.props.push(PropInfo { name: name.clone(), setter: name.clone(), value });
    assert(props_view(st.props@) =~= pre.props.push((name@, name@, value)));
    if str_eq(name.as_str(), "caption") {
        st.supports_text_child = true;
    }
}

/// Reads one method of the props impl block into the scan.
pub fn scan_method(st: &mut Scan, f: &FnInfo)
    ensures
        final(st)@ == scan_step(old(st)@, f@),
{
    let ghost fv = f@;
    let ins = &f.inputs;
    let name = f.name.as_str();
    if !f.public {
        return;
    }
    if str_eq(name, "render") {
        st.render = RenderKind::Default;
        if render_takes_window(ins) {
            st.needs_window = true;
        }
        return;
    }
    if str_eq(name, "apply") {
        st.render = RenderKind::Apply;
        return;
    }
    if str_eq(name, "focus_handle") || str_eq(name, "is_focused") {
        return;
    }
    let n = ins.len();
    assert(fv.inputs.len() == n);
    let shape_ok = (n == 1 && is_mut_self_of(&ins[0])) || (n == 2 && is_mut_self_of(&ins[0]) && match &ins[1] {
        ArgInfo::Typed { .. } => true,
        _ => false,
    });
    if !shape_ok {
        return;
    }
    let nv = chars_of(name);
    let on = chars_of("on_");
    if crate::strings::starts_with_chars(nv.as_slice(), on.as_slice()) {
        let ghost pre = st@;
        st.events.push((f.name.clone(), f.name.clone()));
        assert(pairs_view(st.events@) =~= pre.events.push((f.name@, f.name@)));
        return;
    }
    if str_eq(name, "child") || str_eq(name, "children") {
        return;
    }
    if n == 1 {
        add_setter_prop(st, &f.name, None);
    } else {
        match &ins[1] {
            ArgInfo::Typed { ty, .. } => add_setter_prop(st, &f.name, Some(ty)),
            _ => {},
        }
    }
}

/// The first public function named `name`, from position `i` on.
pub open spec fn find_factory(items: Seq<SItem>, name: Seq<char>, i: int) -> Option<SFn>
    decreases items.len() - i,
{
    if i < 0 || i >= items.len() {
        None
    } else if items[i] matches SItem::Fn(f) && f.public && f.name == name {
        Some(items[i]->Fn_0)
    } else {
        find_factory(items, name, i + 1)
    }
}

/// The name of the first public struct named `<prefix>…Props`, from
/// position `i` on.
pub open spec fn find_props_struct(items: Seq<SItem>, prefix: Seq<char>, i: int) -> Option<Seq<char>>
    decreases items.len() - i,
{
    if i < 0 || i >= items.len() {
        None
    } else if items[i] matches SItem::Struct { name, public } && public && crate::strings::starts_with(
        name,
        prefix,
    ) && crate::strings::ends_with(name, "Props"@) {
        Some(items[i]->Struct_name)
    } else {
        find_props_struct(items, prefix, i + 1)
    }
}

/// The functions of the first inherent impl block for `name`, from
/// position `i` on.
pub open spec fn find_impl(items: Seq<SItem>, name: Seq<char>, i: int) -> Option<Seq<SFn>>
    decreases items.len() - i,
{
    if i < 0 || i >= items.len() {
        None
    } else if items[i] matches SItem::Impl { self_name, has_trait, .. } && !has_trait && self_name
        == Some(name) {
        Some(items[i]->Impl_fns)
    } else {
        find_impl(items, name, i + 1)
    }
}

/// The path under which a headless module's factory is reached.
pub open spec fn factory_path(module_name: Seq<char>, mod_path: Seq<char>) -> Seq<char> {
    "::yororen_ui::headless::"@ + mod_path + "::"@ + module_name
}

/// The schema entry of a headless module, from its items: `None` when
/// it has no public factory named after the module or no public
/// `<Module>…Props` struct.
pub open spec fn spec_extract(items: Seq<SItem>, module_name: Seq<char>, mod_path: Seq<char>) -> Option<
    SExtracted,
> {
    match find_factory(items, module_name, 0) {
        None => None,
        Some(fac) => {
            let tag = pascal_from(module_name, 0, true);
            match find_props_struct(items, tag, 0) {
                None => None,
                Some(sname) => {
                    let sc = match find_impl(items, sname, 0) {
                        Some(fns) => scan_methods(fns),
                        None => scan_start(),
                    };
                    let (extra, needs_app) = spec_analyse(fac.inputs);
                    let notes = if extra.len() > 0 {
                        sc.notes.push("extra_args = "@ + decimal(extra.len()) + " entries"@)
                    } else {
                        sc.notes
                    };
                    Some(
                        SExtracted {
                            tag,
                            factory: factory_path(module_name, mod_path),
                            extra_args: extra,
                            needs_app,
                            needs_window: sc.needs_window,
                            render: sc.render,
                            props: sc.props,
                            events: sc.events,
                            supports_text_child: sc.supports_text_child,
                            children_before_render: false,
                            unwrap_children: false,
                            slots: seq![],
                            notes,
                        },
                    )
                },
            }
        },
    }
}

pub open spec fn items_view(v: Seq<ItemInfo>) -> Seq<SItem> {
    v.map_values(|i: ItemInfo| i@)
}

pub open spec fn fns_view(v: Seq<FnInfo>) -> Seq<SFn> {
    v.map_values(|f: FnInfo| f@)
}

fn find_factory_in(items: &[ItemInfo], name: &str) -> (r: Option<usize>)
    ensures
        match r {
            Some(k) => {
                &&& k < items@.len()
                &&& items@[k as int] matches ItemInfo::Fn(f)
                &&& find_factory(items_view(items@), name@, 0) == Some(f@)
            },
            None => find_factory(items_view(items@), name@, 0) is None,
        },
{
    let ghost iv = items_view(items@);
    let mut k: usize = 0;
    while k < items.len()
        invariant
            k <= items@.len(),
            iv == items_view(items@),
            find_factory(iv, name@, 0) == find_factory(iv, name@, k as int),
        decreases items.len() - k,
    {
        assert(iv[k as int] == items@[k as int]@);
        match &items[k] {
            ItemInfo::Fn(f) => {
                if f.public && str_eq(f.name.as_str(), name) {
                    return Some(k);
                }
            },
            _ => {},
        }
        k += 1;
    }
    None
}

fn find_props_struct_in(items: &[ItemInfo], prefix: &str) -> (r: Option<String>)
    ensures
        ov(r) == find_props_struct(items_view(items@), prefix@, 0),
{
    let ghost iv = items_view(items@);
    let pv = chars_of(prefix);
    let props = chars_of("Props");
    let mut k: usize = 0;
    while k < items.len()
        invariant
            k <= items@.len(),
            iv == items_view(items@),
            pv@ == prefix@,
            props@ == "Props"@,
            find_props_struct(iv, prefix@, 0) == find_props_struct(iv, prefix@, k as int),
        decreases items.len() - k,
    {
        assert(iv[k as int] == items@[k as int]@);
        match &items[k] {
            ItemInfo::Struct { name, public } => {
                let nv = chars_of(name.as_str());
                if *public && crate::strings::starts_with_chars(nv.as_slice(), pv.as_slice())
                    && crate::strings::ends_with_chars(nv.as_slice(), props.as_slice()) {
                    return Some(name.clone());
                }
            },
            _ => {},
        }
        k += 1;
    }
    None
}

fn find_impl_in(items: &[ItemInfo], name: &str) -> (r: Option<usize>)
    ensures
        match r {
            Some(k) => {
                &&& k < items@.len()
                &&& items@[k as int] matches ItemInfo::Impl { fns, .. }
                &&& find_impl(items_view(items@), name@, 0) == Some(fns_view(fns@))
            },
            None => find_impl(items_view(items@), name@, 0) is None,
        },
{
    let ghost iv = items_view(items@);
    let mut k: usize = 0;
    while k < items.len()
        invariant
            k <= items@.len(),
            iv == items_view(items@),
            find_impl(iv, name@, 0) == find_impl(iv, name@, k as int),
        decreases items.len() - k,
    {
        assert(iv[k as int] == items@[k as int]@);
        match &items[k] {
            ItemInfo::Impl { self_name, has_trait, fns } => {
                if !*has_trait && opt_is(self_name, name) {
                    assert(iv[k as int]->Impl_fns == fns_view(fns@));
                    return Some(k);
                }
            },
            _ => {},
        }
        k += 1;
    }
    None
}

/// Scans the methods of a props impl block, in order.
pub fn scan_impl(fns: &[FnInfo]) -> (r: Scan)
    ensures
        r@ == scan_methods(fns_view(fns@)),
{
    let ghost fv = fns_view(fns@);
    let mut st = Scan {
        props: Vec::new(),
        events: Vec::new(),
        render: RenderKind::Compose,
        needs_window: false,
        supports_text_child: false,
        notes: Vec::new(),
    };
    assert(st@ =~= scan_start()) by {
        assert(props_view(st.props@) =~= Seq::<(Seq<char>, Seq<char>, PropValue)>::empty());
        assert(pairs_view(st.events@) =~= Seq::<(Seq<char>, Seq<char>)>::empty());
        assert(strs_view(st.notes@) =~= Seq::<Seq<char>>::empty());
    }
    let mut k: usize = 0;
    assert(fv.take(0) =~= Seq::<SFn>::empty());
    while k < fns.len()
        invariant
            k <= fns@.len(),
            fv == fns_view(fns@),
            st@ == scan_methods(fv.take(k as int)),
        decreases fns.len() - k,
    {
        assert(fv.take(k + 1).drop_last() =~= fv.take(k as int));
        assert(fv.take(k + 1).last() == fns@[k as int]@);
        scan_method(&mut st, &fns[k]);
        k += 1;
    }
    assert(fv.take(fns@.len() as int) =~= fv);
    st
}

/// The schema entry of a headless module from its items (see
/// `spec_extract`).
pub fn extract(items: &[ItemInfo], module_name: &str, mod_path: &str) -> (r: Option<Extracted>)
    ensures
        match r {
            Some(e) => spec_extract(items_view(items@), module_name@, mod_path@) == Some(e@),
            None => spec_extract(items_view(items@), module_name@, mod_path@) is None,
        },
{
    let fk = match find_factory_in(items, module_name) {
        Some(k) => k,
        None => return None,
    };
    let tag = pascal_case(module_name);
    let sname = match find_props_struct_in(items, tag.as_str()) {
        Some(n) => n,
        None => return None,
    };
    let sc = match find_impl_in(items, sname.as_str()) {
        Some(ik) => match &items[ik] {
            ItemInfo::Impl { fns, .. } => scan_impl(fns.as_slice()),
            _ => scan_impl(&[]),
        },
        None => {
            let e: Vec<FnInfo> = Vec::new();
            let sc = scan_impl(e.as_slice());
            assert(fns_view(e@) =~= Seq::<SFn>::empty());
            sc
        },
    };
    let (extra, needs_app) = match &items[fk] {
        ItemInfo::Fn(f) => analyse_factory(&f.inputs),
        _ => (Vec::new(), false),
    };
    let mut notes = sc.notes;
    if extra.len() > 0 {
        let ghost pre = strs_view(notes@);
        let mut note = to_owned("extra_args = ");
        crate::error::push_decimal(&mut note, extra.len());
        note.append(" entries");
        notes.push(note);
        assert(strs_view(notes@) =~= pre.push("extra_args = "@ + decimal(extra@.len() as nat) + " entries"@));
    }
    let mut factory = cat2("::yororen_ui::headless::", mod_path);
    factory.append("::");
    factory.append(module_name);
    let e = Extracted {
        tag,
        factory,
        extra_args: extra,
        needs_app,
        needs_window: sc.needs_window,
        render: sc.render,
        props: sc.props,
        events: sc.events,
        supports_text_child: sc.supports_text_child,
        children_before_render: false,
        unwrap_children: false,
        slots: Vec::new(),
        notes,
    };
    assert(slots_view(e.slots@) =~= Seq::<(Seq<char>, Seq<char>)>::empty());
    Some(e)
}

/// Getters and imperative mutators (methods that borrow `self`) never
/// become props or events: only `mut self` setters do.
pub proof fn lemma_borrowing_methods_add_no_props(st: SScan, f: SFn)
    requires
        f.inputs.len() > 0,
        f.inputs[0] matches SArg::Receiver { by_ref, .. } && by_ref,
        f.name != "render"@,
        f.name != "apply"@,
    ensures
        scan_step(st, f) == st,
{
}

} // verus!
