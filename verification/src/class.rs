//! Tailwind-like class strings (`"flex gap-md p-md"`): each
//! whitespace-separated token names a layout class.
use vstd::prelude::*;

use crate::diagnostics::{lower, lower_chars};
use crate::strings::{chars_of, is_unicode_ws, is_whitespace, str_eq, string_of, to_owned};
use crate::values::{cat2, cat3, float_lit, float_literal, neg_sign, unsign};

verus! {

/// A spacing step, or a number of pixels or rems written as a float
/// literal.
#[derive(Debug, Clone, PartialEq)]
pub enum Spacing {
    Xs,
    Sm,
    Md,
    Lg,
    Xl,
    Xxl,
    Px(String),
    Rem(String),
}

/// An inset step, or a number of pixels written as a float literal.
#[derive(Debug, Clone, PartialEq)]
pub enum Inset {
    Xs,
    Sm,
    Md,
    Lg,
    Xl,
    Px(String),
}

/// A length keyword.
#[derive(Debug, Clone, Copy, PartialEq, Eq)]
pub enum Length {
    Full,
    Fit,
    Auto,
}

pub enum SSpacing {
    Xs,
    Sm,
    Md,
    Lg,
    Xl,
    Xxl,
    Px(Seq<char>),
    Rem(Seq<char>),
}

pub enum SInset {
    Xs,
    Sm,
    Md,
    Lg,
    Xl,
    Px(Seq<char>),
}

impl View for Spacing {
    type V = SSpacing;

    open spec fn view(&self) -> SSpacing {
        match self {
            Spacing::Xs => SSpacing::Xs,
            Spacing::Sm => SSpacing::Sm,
            Spacing::Md => SSpacing::Md,
            Spacing::Lg => SSpacing::Lg,
            Spacing::Xl => SSpacing::Xl,
            Spacing::Xxl => SSpacing::Xxl,
            Spacing::Px(v) => SSpacing::Px(v@),
            Spacing::Rem(v) => SSpacing::Rem(v@),
        }
    }
}

impl View for Inset {
    type V = SInset;

    open spec fn view(&self) -> SInset {
        match self {
            Inset::Xs => SInset::Xs,
            Inset::Sm => SInset::Sm,
            Inset::Md => SInset::Md,
            Inset::Lg => SInset::Lg,
            Inset::Xl => SInset::Xl,
            Inset::Px(v) => SInset::Px(v@),
        }
    }
}

/// A class token that names no class: the token and why.
#[derive(Debug)]
pub struct ClassParseError {
    pub token: String,
    pub message: String,
}

impl ClassParseError {
    /// `unknown class `<token>`: <message>`.
    pub fn render(&self) -> (r: String)
        ensures
            r@ == "unknown class `"@ + self.token@ + "`: "@ + self.message@,
    {
        let mut out = to_owned("unknown class `");
        out.append(self.token.as_str());
        out.append("`: ");
        out.append(self.message.as_str());
        out
    }
}

/// The value of a float written as `inf`, `infinity` or `nan` (in any
/// case, with an optional sign), as a Rust expression.
pub open spec fn special_f32(t: Seq<char>) -> Option<Seq<char>> {
    let l = lower(unsign(t));
    if l == "inf"@ || l == "infinity"@ {
        Some(neg_sign(t) + "::core::f32::INFINITY"@)
    } else if l == "nan"@ {
        Some("::core::f32::NAN"@)
    } else {
        None
    }
}

/// Whether `t` reads as an `f32` (`str::parse::<f32>`): a decimal
/// float, or one of the words above.
pub open spec fn f32_syntax(t: Seq<char>) -> bool {
    float_lit(t, seq![]) is Some || special_f32(t) is Some
}

/// The Rust expression of the `f32` written `t`.
pub open spec fn f32_tokens(t: Seq<char>) -> Seq<char> {
    match float_lit(t, "f32"@) {
        Some(x) => x,
        None => match special_f32(t) {
            Some(x) => x,
            None => t,
        },
    }
}

fn special_f32_of(t: &str) -> (r: Option<String>)
    ensures
        crate::ast::opt_view(r) == special_f32(t@),
{
    let v = chars_of(t);
    let mut body: Vec<char> = Vec::new();
    let start: usize = if v.len() > 0 && (v[0] == '+' || v[0] == '-') {
        1
    } else {
        0
    };
    let mut k = start;
    while k < v.len()
        invariant
            start <= k <= v@.len(),
            start <= 1,
            body@ == v@.subrange(start as int, k as int),
        decreases v.len() - k,
    {
        body.push(v[k]);
        k += 1;
        assert(body@ =~= v@.subrange(start as int, k as int));
    }
    assert(body@ =~= unsign(t@));
    let bs = string_of(&body);
    let l = lower_chars(bs.as_str());
    let ls = string_of(&l);
    if str_eq(ls.as_str(), "inf") || str_eq(ls.as_str(), "infinity") {
        let mut out = String::new();
        if v.len() > 0 && v[0] == '-' {
            crate::strings::push_char(&mut out, '-');
        }
        out.append("::core::f32::INFINITY");
        assert(out@ =~= neg_sign(t@) + "::core::f32::INFINITY"@);
        Some(out)
    } else if str_eq(ls.as_str(), "nan") {
        Some(to_owned("::core::f32::NAN"))
    } else {
        None
    }
}

/// Whether `t` reads as an `f32`.
pub fn is_f32(t: &str) -> (b: bool)
    ensures
        b == f32_syntax(t@),
{
    proof {
        reveal_strlit("");
    }
    float_literal(t, "").is_some() || special_f32_of(t).is_some()
}

/// The Rust expression of the `f32` written `t`.
pub fn f32_code(t: &str) -> (r: String)
    ensures
        r@ == f32_tokens(t@),
{
    match float_literal(t, "f32") {
        Some(x) => x,
        None => match special_f32_of(t) {
            Some(x) => x,
            None => to_owned(t),
        },
    }
}

pub open spec fn spacing_msg() -> Seq<char> {
    "expected `xs`/`sm`/`md`/`lg`/`xl`/`xxl` or a number (e.g. `gap-3`)"@
}

pub open spec fn px_msg() -> Seq<char> {
    "expected a number before `px` (e.g. `gap-3px` → 3.0 px)"@
}

pub open spec fn inset_msg() -> Seq<char> {
    "expected `xs`/`sm`/`md`/`lg`/`xl` or a number (e.g. `p-4`)"@
}

pub open spec fn class_msg() -> Seq<char> {
    "no matching class. Use `flex`, `gap-md`, `p-4`, etc. (see `layout-system-plan.md` §4.1)"@
}

/// A spacing value: a named step, `<n>px`, or a bare number of
/// pixels; else the token at fault and why.
pub open spec fn spec_spacing(s: Seq<char>) -> Result<SSpacing, (Seq<char>, Seq<char>)> {
    if s == "xs"@ {
        Ok(SSpacing::Xs)
    } else if s == "sm"@ {
        Ok(SSpacing::Sm)
    } else if s == "md"@ {
        Ok(SSpacing::Md)
    } else if s == "lg"@ {
        Ok(SSpacing::Lg)
    } else if s == "xl"@ {
        Ok(SSpacing::Xl)
    } else if s == "xxl"@ {
        Ok(SSpacing::Xxl)
    } else if s.len() >= 2 && s.skip(s.len() - 2) == "px"@ {
        if f32_syntax(s.take(s.len() - 2)) {
            Ok(SSpacing::Px(s.take(s.len() - 2)))
        } else {
            Err((s + "px"@, px_msg()))
        }
    } else if f32_syntax(s) {
        Ok(SSpacing::Px(s))
    } else {
        Err((s, spacing_msg()))
    }
}

/// An inset value: a named step or a number of pixels.
pub open spec fn spec_inset(s: Seq<char>) -> Result<SInset, (Seq<char>, Seq<char>)> {
    if s == "xs"@ {
        Ok(SInset::Xs)
    } else if s == "sm"@ {
        Ok(SInset::Sm)
    } else if s == "md"@ {
        Ok(SInset::Md)
    } else if s == "lg"@ {
        Ok(SInset::Lg)
    } else if s == "xl"@ {
        Ok(SInset::Xl)
    } else if f32_syntax(s) {
        Ok(SInset::Px(s))
    } else {
        Err((s, inset_msg()))
    }
}

pub open spec fn err_view<T>(r: Result<T, ClassParseError>) -> Option<(Seq<char>, Seq<char>)> {
    match r {
        Ok(_) => None,
        Err(e) => Some((e.token@, e.message@)),
    }
}

fn class_error(token: String, message: &str) -> (r: ClassParseError)
    ensures
        r.token@ == token@,
        r.message@ == message@,
{
    ClassParseError { token, message: to_owned(message) }
}

fn suffix_px(v: &Vec<char>) -> (b: bool)
    ensures
        b == (v@.len() >= 2 && v@.skip(v@.len() - 2) == "px"@),
{
    proof {
        reveal_strlit("px");
    }
    if v.len() >= 2 && v[v.len() - 2] == 'p' && v[v.len() - 1] == 'x' {
        assert(v@.skip(v@.len() - 2) =~= "px"@);
        true
    } else {
        proof {
            if v@.len() >= 2 {
                assert(v@.skip(v@.len() - 2)[0] == v@[v@.len() - 2]);
                assert(v@.skip(v@.len() - 2)[1] == v@[v@.len() - 1]);
            }
        }
        false
    }
}

/// Parse a spacing value.
pub fn parse_spacing(s: &str) -> (r: Result<Spacing, ClassParseError>)
    ensures
        match spec_spacing(s@) {
            Ok(v) => r matches Ok(x) && x@ == v,
            Err(e) => err_view(r) == Some(e),
        },
{
    if str_eq(s, "xs") {
        return Ok(Spacing::Xs);
    }
    if str_eq(s, "sm") {
        return Ok(Spacing::Sm);
    }
    if str_eq(s, "md") {
        return Ok(Spacing::Md);
    }
    if str_eq(s, "lg") {
        return Ok(Spacing::Lg);
    }
    if str_eq(s, "xl") {
        return Ok(Spacing::Xl);
    }
    if str_eq(s, "xxl") {
        return Ok(Spacing::Xxl);
    }
    let v = chars_of(s);
    if suffix_px(&v) {
        let mut body: Vec<char> = Vec::new();
        let n = v.len() - 2;
        let mut k: usize = 0;
        while k < n
            invariant
                k <= n,
                n == v@.len() - 2,
                body@ == v@.take(k as int),
            decreases n - k,
        {
            body.push(v[k]);
            k += 1;
            assert(body@ =~= v@.take(k as int));
        }
        let b = string_of(&body);
        if is_f32(b.as_str()) {
            return Ok(Spacing::Px(b));
        }
        let t = cat2(s, "px");
        return Err(class_error(t, "expected a number before `px` (e.g. `gap-3px` → 3.0 px)"));
    }
    if is_f32(s) {
        return Ok(Spacing::Px(to_owned(s)));
    }
    Err(class_error(to_owned(s), "expected `xs`/`sm`/`md`/`lg`/`xl`/`xxl` or a number (e.g. `gap-3`)"))
}

/// Parse an inset value.
pub fn parse_inset(s: &str) -> (r: Result<Inset, ClassParseError>)
    ensures
        match spec_inset(s@) {
            Ok(v) => r matches Ok(x) && x@ == v,
            Err(e) => err_view(r) == Some(e),
        },
{
    if str_eq(s, "xs") {
        return Ok(Inset::Xs);
    }
    if str_eq(s, "sm") {
        return Ok(Inset::Sm);
    }
    if str_eq(s, "md") {
        return Ok(Inset::Md);
    }
    if str_eq(s, "lg") {
        return Ok(Inset::Lg);
    }
    if str_eq(s, "xl") {
        return Ok(Inset::Xl);
    }
    if is_f32(s) {
        return Ok(Inset::Px(to_owned(s)));
    }
    Err(class_error(to_owned(s), "expected `xs`/`sm`/`md`/`lg`/`xl` or a number (e.g. `p-4`)"))
}

/// A length keyword: `full`, `fit` or `auto`.
pub fn parse_length(s: &str) -> (r: Result<Length, ClassParseError>)
    ensures
        s@ == "full"@ ==> r == Ok::<Length, ClassParseError>(Length::Full),
        s@ == "fit"@ ==> r == Ok::<Length, ClassParseError>(Length::Fit),
        s@ == "auto"@ ==> r == Ok::<Length, ClassParseError>(Length::Auto),
        s@ != "full"@ && s@ != "fit"@ && s@ != "auto"@ ==> err_view(r) == Some(
            (s@, "expected `full`, `fit`, or `auto`"@),
        ),
{
    proof {
        reveal_strlit("full");
        reveal_strlit("fit");
        reveal_strlit("auto");
        assert("full"@.len() == 4 && "fit"@.len() == 3 && "auto"@.len() == 4);
        assert("auto"@[0] != "full"@[0]);
        assert("full"@ != "fit"@ && "auto"@ != "fit"@ && "auto"@ != "full"@);
    }
    if str_eq(s, "full") {
        Ok(Length::Full)
    } else if str_eq(s, "fit") {
        Ok(Length::Fit)
    } else if str_eq(s, "auto") {
        Ok(Length::Auto)
    } else {
        Err(class_error(to_owned(s), "expected `full`, `fit`, or `auto`"))
    }
}

/// The Rust expression building a spacing value.
pub open spec fn spacing_tokens(s: SSpacing) -> Seq<char> {
    let p = "::yororen_ui::headless::layout::Spacing"@;
    match s {
        SSpacing::Xs => p + "::Xs"@,
        SSpacing::Sm => p + "::Sm"@,
        SSpacing::Md => p + "::Md"@,
        SSpacing::Lg => p + "::Lg"@,
        SSpacing::Xl => p + "::Xl"@,
        SSpacing::Xxl => p + "::Xxl"@,
        SSpacing::Px(v) => p + "::Px("@ + f32_tokens(v) + ")"@,
        SSpacing::Rem(v) => p + "::Rem("@ + f32_tokens(v) + ")"@,
    }
}

/// The Rust expression building an inset value.
pub open spec fn inset_tokens(i: SInset) -> Seq<char> {
    let p = "::yororen_ui::headless::layout::Inset"@;
    match i {
        SInset::Xs => p + "::Xs"@,
        SInset::Sm => p + "::Sm"@,
        SInset::Md => p + "::Md"@,
        SInset::Lg => p + "::Lg"@,
        SInset::Xl => p + "::Xl"@,
        SInset::Px(v) => p + "::Px("@ + f32_tokens(v) + ")"@,
    }
}

fn spacing_to_tokens(s: &Spacing) -> (r: String)
    ensures
        r@ == spacing_tokens(s@),
{
    let p = "::yororen_ui::headless::layout::Spacing";
    match s {
        Spacing::Xs => cat2(p, "::Xs"),
        Spacing::Sm => cat2(p, "::Sm"),
        Spacing::Md => cat2(p, "::Md"),
        Spacing::Lg => cat2(p, "::Lg"),
        Spacing::Xl => cat2(p, "::Xl"),
        Spacing::Xxl => cat2(p, "::Xxl"),
        Spacing::Px(v) => {
            let mut out = cat2(p, "::Px(");
            let c = f32_code(v.as_str());
            out.append(c.as_str());
            out.append(")");
            out
        },
        Spacing::Rem(v) => {
            let mut out = cat2(p, "::Rem(");
            let c = f32_code(v.as_str());
            out.append(c.as_str());
            out.append(")");
            out
        },
    }
}

fn inset_to_tokens(i: &Inset) -> (r: String)
    ensures
        r@ == inset_tokens(i@),
{
    let p = "::yororen_ui::headless::layout::Inset";
    match i {
        Inset::Xs => cat2(p, "::Xs"),
        Inset::Sm => cat2(p, "::Sm"),
        Inset::Md => cat2(p, "::Md"),
        Inset::Lg => cat2(p, "::Lg"),
        Inset::Xl => cat2(p, "::Xl"),
        Inset::Px(v) => {
            let mut out = cat2(p, "::Px(");
            let c = f32_code(v.as_str());
            out.append(c.as_str());
            out.append(")");
            out
        },
    }
}

/// One layout class of a class string.
#[derive(Debug, Clone, PartialEq)]
pub enum LayoutClass {
    Flex,
    FlexCol,
    FlexRow,
    FlexWrap,
    Flex1,
    ItemsStart,
    ItemsEnd,
    ItemsCenter,
    ItemsBaseline,
    ItemsStretch,
    JustifyStart,
    JustifyEnd,
    JustifyCenter,
    JustifyBetween,
    JustifyAround,
    JustifyEvenly,
    Gap(Spacing),
    P(Inset),
    Px(Spacing),
    Py(Spacing),
    M(Inset),
    Mx(Inset),
    My(Inset),
    WFull,
    HFull,
    SizeFull,
    Relative,
    Absolute,
    Top0,
    Right0,
    Bottom0,
    Left0,
    Inset0,
    OverflowHidden,
    OverflowScroll,
    Border,
    Border1,
    Rounded,
    RoundedMd,
    RoundedLg,
    ShadowMd,
    ShadowLg,
}

/// The mathematical form of a [`LayoutClass`].
pub enum SLayoutClass {
    Flex,
    FlexCol,
    FlexRow,
    FlexWrap,
    Flex1,
    ItemsStart,
    ItemsEnd,
    ItemsCenter,
    ItemsBaseline,
    ItemsStretch,
    JustifyStart,
    JustifyEnd,
    JustifyCenter,
    JustifyBetween,
    JustifyAround,
    JustifyEvenly,
    Gap(SSpacing),
    P(SInset),
    Px(SSpacing),
    Py(SSpacing),
    M(SInset),
    Mx(SInset),
    My(SInset),
    WFull,
    HFull,
    SizeFull,
    Relative,
    Absolute,
    Top0,
    Right0,
    Bottom0,
    Left0,
    Inset0,
    OverflowHidden,
    OverflowScroll,
    Border,
    Border1,
    Rounded,
    RoundedMd,
    RoundedLg,
    ShadowMd,
    ShadowLg,
}

impl View for LayoutClass {
    type V = SLayoutClass;

    open spec fn view(&self) -> SLayoutClass {
        match self {
            LayoutClass::Flex => SLayoutClass::Flex,
            LayoutClass::FlexCol => SLayoutClass::FlexCol,
            LayoutClass::FlexRow => SLayoutClass::FlexRow,
            LayoutClass::FlexWrap => SLayoutClass::FlexWrap,
            LayoutClass::Flex1 => SLayoutClass::Flex1,
            LayoutClass::ItemsStart => SLayoutClass::ItemsStart,
            LayoutClass::ItemsEnd => SLayoutClass::ItemsEnd,
            LayoutClass::ItemsCenter => SLayoutClass::ItemsCenter,
            LayoutClass::ItemsBaseline => SLayoutClass::ItemsBaseline,
            LayoutClass::ItemsStretch => SLayoutClass::ItemsStretch,
            LayoutClass::JustifyStart => SLayoutClass::JustifyStart,
            LayoutClass::JustifyEnd => SLayoutClass::JustifyEnd,
            LayoutClass::JustifyCenter => SLayoutClass::JustifyCenter,
            LayoutClass::JustifyBetween => SLayoutClass::JustifyBetween,
            LayoutClass::JustifyAround => SLayoutClass::JustifyAround,
            LayoutClass::JustifyEvenly => SLayoutClass::JustifyEvenly,
            LayoutClass::WFull => SLayoutClass::WFull,
            LayoutClass::HFull => SLayoutClass::HFull,
            LayoutClass::SizeFull => SLayoutClass::SizeFull,
            LayoutClass::Relative => SLayoutClass::Relative,
            LayoutClass::Absolute => SLayoutClass::Absolute,
            LayoutClass::Top0 => SLayoutClass::Top0,
            LayoutClass::Right0 => SLayoutClass::Right0,
            LayoutClass::Bottom0 => SLayoutClass::Bottom0,
            LayoutClass::Left0 => SLayoutClass::Left0,
            LayoutClass::Inset0 => SLayoutClass::Inset0,
            LayoutClass::OverflowHidden => SLayoutClass::OverflowHidden,
            LayoutClass::OverflowScroll => SLayoutClass::OverflowScroll,
            LayoutClass::Border => SLayoutClass::Border,
            LayoutClass::Border1 => SLayoutClass::Border1,
            LayoutClass::Rounded => SLayoutClass::Rounded,
            LayoutClass::RoundedMd => SLayoutClass::RoundedMd,
            LayoutClass::RoundedLg => SLayoutClass::RoundedLg,
            LayoutClass::ShadowMd => SLayoutClass::ShadowMd,
            LayoutClass::ShadowLg => SLayoutClass::ShadowLg,
            LayoutClass::Gap(x) => SLayoutClass::Gap(x@),
            LayoutClass::P(x) => SLayoutClass::P(x@),
            LayoutClass::Px(x) => SLayoutClass::Px(x@),
            LayoutClass::Py(x) => SLayoutClass::Py(x@),
            LayoutClass::M(x) => SLayoutClass::M(x@),
            LayoutClass::Mx(x) => SLayoutClass::Mx(x@),
            LayoutClass::My(x) => SLayoutClass::My(x@),
        }
    }
}

/// The class a value-free token names.
pub open spec fn fixed_class(t: Seq<char>) -> Option<SLayoutClass> {
    if t == "flex"@ {
        Some(SLayoutClass::Flex)
    } else if t == "flex-col"@ {
        Some(SLayoutClass::FlexCol)
    } else if t == "flex-row"@ {
        Some(SLayoutClass::FlexRow)
    } else if t == "flex-wrap"@ {
        Some(SLayoutClass::FlexWrap)
    } else if t == "flex-1"@ {
        Some(SLayoutClass::Flex1)
    } else if t == "items-start"@ {
        Some(SLayoutClass::ItemsStart)
    } else if t == "items-end"@ {
        Some(SLayoutClass::ItemsEnd)
    } else if t == "items-center"@ {
        Some(SLayoutClass::ItemsCenter)
    } else if t == "items-baseline"@ {
        Some(SLayoutClass::ItemsBaseline)
    } else if t == "items-stretch"@ {
        Some(SLayoutClass::ItemsStretch)
    } else if t == "justify-start"@ {
        Some(SLayoutClass::JustifyStart)
    } else if t == "justify-end"@ {
        Some(SLayoutClass::JustifyEnd)
    } else if t == "justify-center"@ {
        Some(SLayoutClass::JustifyCenter)
    } else if t == "justify-between"@ {
        Some(SLayoutClass::JustifyBetween)
    } else if t == "justify-around"@ {
        Some(SLayoutClass::JustifyAround)
    } else if t == "justify-evenly"@ {
        Some(SLayoutClass::JustifyEvenly)
    } else if t == "w-full"@ {
        Some(SLayoutClass::WFull)
    } else if t == "h-full"@ {
        Some(SLayoutClass::HFull)
    } else if t == "size-full"@ {
        Some(SLayoutClass::SizeFull)
    } else if t == "relative"@ {
        Some(SLayoutClass::Relative)
    } else if t == "absolute"@ {
        Some(SLayoutClass::Absolute)
    } else if t == "top-0"@ {
        Some(SLayoutClass::Top0)
    } else if t == "right-0"@ {
        Some(SLayoutClass::Right0)
    } else if t == "bottom-0"@ {
        Some(SLayoutClass::Bottom0)
    } else if t == "left-0"@ {
        Some(SLayoutClass::Left0)
    } else if t == "inset-0"@ {
        Some(SLayoutClass::Inset0)
    } else if t == "overflow-hidden"@ {
        Some(SLayoutClass::OverflowHidden)
    } else if t == "overflow-scroll"@ {
        Some(SLayoutClass::OverflowScroll)
    } else if t == "border"@ {
        Some(SLayoutClass::Border)
    } else if t == "border-1"@ {
        Some(SLayoutClass::Border1)
    } else if t == "rounded"@ {
        Some(SLayoutClass::Rounded)
    } else if t == "rounded-md"@ {
        Some(SLayoutClass::RoundedMd)
    } else if t == "rounded-lg"@ {
        Some(SLayoutClass::RoundedLg)
    } else if t == "shadow-md"@ {
        Some(SLayoutClass::ShadowMd)
    } else if t == "shadow-lg"@ {
        Some(SLayoutClass::ShadowLg)
    } else {
        None
    }
}

/// The value-free class tokens, each with the class it names (the
/// token's words, capitalised and joined, name the variant).
pub open spec fn fixed_class_table() -> Seq<(Seq<char>, SLayoutClass)> {
    seq![
        ("flex"@, SLayoutClass::Flex),
        ("flex-col"@, SLayoutClass::FlexCol),
        ("flex-row"@, SLayoutClass::FlexRow),
        ("flex-wrap"@, SLayoutClass::FlexWrap),
        ("flex-1"@, SLayoutClass::Flex1),
        ("items-start"@, SLayoutClass::ItemsStart),
        ("items-end"@, SLayoutClass::ItemsEnd),
        ("items-center"@, SLayoutClass::ItemsCenter),
        ("items-baseline"@, SLayoutClass::ItemsBaseline),
        ("items-stretch"@, SLayoutClass::ItemsStretch),
        ("justify-start"@, SLayoutClass::JustifyStart),
        ("justify-end"@, SLayoutClass::JustifyEnd),
        ("justify-center"@, SLayoutClass::JustifyCenter),
        ("justify-between"@, SLayoutClass::JustifyBetween),
        ("justify-around"@, SLayoutClass::JustifyAround),
        ("justify-evenly"@, SLayoutClass::JustifyEvenly),
        ("w-full"@, SLayoutClass::WFull),
        ("h-full"@, SLayoutClass::HFull),
        ("size-full"@, SLayoutClass::SizeFull),
        ("relative"@, SLayoutClass::Relative),
        ("absolute"@, SLayoutClass::Absolute),
        ("top-0"@, SLayoutClass::Top0),
        ("right-0"@, SLayoutClass::Right0),
        ("bottom-0"@, SLayoutClass::Bottom0),
        ("left-0"@, SLayoutClass::Left0),
        ("inset-0"@, SLayoutClass::Inset0),
        ("overflow-hidden"@, SLayoutClass::OverflowHidden),
        ("overflow-scroll"@, SLayoutClass::OverflowScroll),
        ("border"@, SLayoutClass::Border),
        ("border-1"@, SLayoutClass::Border1),
        ("rounded"@, SLayoutClass::Rounded),
        ("rounded-md"@, SLayoutClass::RoundedMd),
        ("rounded-lg"@, SLayoutClass::RoundedLg),
        ("shadow-md"@, SLayoutClass::ShadowMd),
        ("shadow-lg"@, SLayoutClass::ShadowLg)
    ]
}

/// Each value-free token parses to the class it names: `flex` to
/// `Flex`, `justify-between` to `JustifyBetween`, and so on for every
/// entry of `fixed_class_table`.
#[verifier::spinoff_prover]
#[verifier::rlimit(60)]
pub proof fn lemma_fixed_classes_named(k: int)
    requires
        0 <= k < fixed_class_table().len(),
    ensures
        fixed_class(fixed_class_table()[k].0) == Some(fixed_class_table()[k].1),
        spec_class_token(fixed_class_table()[k].0) == Ok::<SLayoutClass, (Seq<char>, Seq<char>)>(
            fixed_class_table()[k].1,
        ),
{
    reveal_strlit("flex");
    reveal_strlit("flex-col");
    reveal_strlit("flex-row");
    reveal_strlit("flex-wrap");
    reveal_strlit("flex-1");
    reveal_strlit("items-start");
    reveal_strlit("items-end");
    reveal_strlit("items-center");
    reveal_strlit("items-baseline");
    reveal_strlit("items-stretch");
    reveal_strlit("justify-start");
    reveal_strlit("justify-end");
    reveal_strlit("justify-center");
    reveal_strlit("justify-between");
    reveal_strlit("justify-around");
    reveal_strlit("justify-evenly");
    reveal_strlit("w-full");
    reveal_strlit("h-full");
    reveal_strlit("size-full");
    reveal_strlit("relative");
    reveal_strlit("absolute");
    reveal_strlit("top-0");
    reveal_strlit("right-0");
    reveal_strlit("bottom-0");
    reveal_strlit("left-0");
    reveal_strlit("inset-0");
    reveal_strlit("overflow-hidden");
    reveal_strlit("overflow-scroll");
    reveal_strlit("border");
    reveal_strlit("border-1");
    reveal_strlit("rounded");
    reveal_strlit("rounded-md");
    reveal_strlit("rounded-lg");
    reveal_strlit("shadow-md");
    reveal_strlit("shadow-lg");
    assert(fixed_class_table().len() == 35);
        if k == 0 {
            assert(fixed_class_table()[0] == ("flex"@, SLayoutClass::Flex));
            assert(fixed_class("flex"@) == Some(SLayoutClass::Flex));

        } else if k == 1 {
            assert(fixed_class_table()[1] == ("flex-col"@, SLayoutClass::FlexCol));
            assert("flex-col"@.len() != "flex"@.len());
            assert(fixed_class("flex-col"@) == Some(SLayoutClass::FlexCol));

        } else if k == 2 {
            assert(fixed_class_table()[2] == ("flex-row"@, SLayoutClass::FlexRow));
            assert("flex-row"@[5] != "flex-col"@[5]);
            assert("flex-row"@.len() != "flex"@.len());
            assert(fixed_class("flex-row"@) == Some(SLayoutClass::FlexRow));
        } else if k == 3 {
            assert(fixed_class_table()[3] == ("flex-wrap"@, SLayoutClass::FlexWrap));
            assert("flex-wrap"@.len() != "flex"@.len());
            assert("flex-wrap"@.len() != "flex-col"@.len());
            assert("flex-wrap"@.len() != "flex-row"@.len());
            assert(fixed_class("flex-wrap"@) == Some(SLayoutClass::FlexWrap));

        } else if k == 4 {
            assert(fixed_class_table()[4] == ("flex-1"@, SLayoutClass::Flex1));
            assert("flex-1"@.len() != "flex"@.len());
            assert("flex-1"@.len() != "flex-col"@.len());
            assert("flex-1"@.len() != "flex-row"@.len());
            assert("flex-1"@.len() != "flex-wrap"@.len());
            assert(fixed_class("flex-1"@) == Some(SLayoutClass::Flex1));

        } else if k == 5 {
            assert(fixed_class_table()[5] == ("items-start"@, SLayoutClass::ItemsStart));
            assert("items-start"@.len() != "flex"@.len());
            assert("items-start"@.len() != "flex-col"@.len());
            assert("items-start"@.len() != "flex-row"@.len());
            assert("items-start"@.len() != "flex-wrap"@.len());
            assert("items-start"@.len() != "flex-1"@.len());
            assert(fixed_class("items-start"@) == Some(SLayoutClass::ItemsStart));

        } else if k == 6 {
            assert(fixed_class_table()[6] == ("items-end"@, SLayoutClass::ItemsEnd));
            assert("items-end"@[0] != "flex-wrap"@[0]);
            assert("items-end"@.len() != "flex"@.len());
            assert("items-end"@.len() != "flex-col"@.len());
            assert("items-end"@.len() != "flex-row"@.len());
            assert("items-end"@.len() != "flex-1"@.len());
            assert("items-end"@.len() != "items-start"@.len());
            assert(fixed_class("items-end"@) == Some(SLayoutClass::ItemsEnd));
        } else if k == 7 {
            assert(fixed_class_table()[7] == ("items-center"@, SLayoutClass::ItemsCenter));
            assert("items-center"@.len() != "flex"@.len());
            assert("items-center"@.len() != "flex-col"@.len());
            assert("items-center"@.len() != "flex-row"@.len());
            assert("items-center"@.len() != "flex-wrap"@.len());
            assert("items-center"@.len() != "flex-1"@.len());
            assert("items-center"@.len() != "items-start"@.len());
            assert("items-center"@.len() != "items-end"@.len());
            assert(fixed_class("items-center"@) == Some(SLayoutClass::ItemsCenter));

        } else if k == 8 {
            assert(fixed_class_table()[8] == ("items-baseline"@, SLayoutClass::ItemsBaseline));
            assert("items-baseline"@.len() != "flex"@.len());
            assert("items-baseline"@.len() != "flex-col"@.len());
            assert("items-baseline"@.len() != "flex-row"@.len());
            assert("items-baseline"@.len() != "flex-wrap"@.len());
            assert("items-baseline"@.len() != "flex-1"@.len());
            assert("items-baseline"@.len() != "items-start"@.len());
            assert("items-baseline"@.len() != "items-end"@.len());
            assert("items-baseline"@.len() != "items-center"@.len());
            assert(fixed_class("items-baseline"@) == Some(SLayoutClass::ItemsBaseline));

        } else if k == 9 {
            assert(fixed_class_table()[9] == ("items-stretch"@, SLayoutClass::ItemsStretch));
            assert("items-stretch"@.len() != "flex"@.len());
            assert("items-stretch"@.len() != "flex-col"@.len());
            assert("items-stretch"@.len() != "flex-row"@.len());
            assert("items-stretch"@.len() != "flex-wrap"@.len());
            assert("items-stretch"@.len() != "flex-1"@.len());
            assert("items-stretch"@.len() != "items-start"@.len());
            assert("items-stretch"@.len() != "items-end"@.len());
            assert("items-stretch"@.len() != "items-center"@.len());
            assert("items-stretch"@.len() != "items-baseline"@.len());
            assert(fixed_class("items-stretch"@) == Some(SLayoutClass::ItemsStretch));

        } else if k == 10 {
            assert(fixed_class_table()[10] == ("justify-start"@, SLayoutClass::JustifyStart));
            assert("justify-start"@[0] != "items-stretch"@[0]);
            assert("justify-start"@.len() != "flex"@.len());
            assert("justify-start"@.len() != "flex-col"@.len());
            assert("justify-start"@.len() != "flex-row"@.len());
            assert("justify-start"@.len() != "flex-wrap"@.len());
            assert("justify-start"@.len() != "flex-1"@.len());
            assert("justify-start"@.len() != "items-start"@.len());
            assert("justify-start"@.len() != "items-end"@.len());
            assert("justify-start"@.len() != "items-center"@.len());
            assert("justify-start"@.len() != "items-baseline"@.len());
            assert(fixed_class("justify-start"@) == Some(SLayoutClass::JustifyStart));
        } else if k == 11 {
            assert(fixed_class_table()[11] == ("justify-end"@, SLayoutClass::JustifyEnd));
            assert("justify-end"@[0] != "items-start"@[0]);
            assert("justify-end"@.len() != "flex"@.len());
            assert("justify-end"@.len() != "flex-col"@.len());
            assert("justify-end"@.len() != "flex-row"@.len());
            assert("justify-end"@.len() != "flex-wrap"@.len());
            assert("justify-end"@.len() != "flex-1"@.len());
            assert("justify-end"@.len() != "items-end"@.len());
            assert("justify-end"@.len() != "items-center"@.len());
            assert("justify-end"@.len() != "items-baseline"@.len());
            assert("justify-end"@.len() != "items-stretch"@.len());
            assert("justify-end"@.len() != "justify-start"@.len());
            assert(fixed_class("justify-end"@) == Some(SLayoutClass::JustifyEnd));
        } else if k == 12 {
            assert(fixed_class_table()[12] == ("justify-center"@, SLayoutClass::JustifyCenter));
            assert("justify-center"@[0] != "items-baseline"@[0]);
            assert("justify-center"@.len() != "flex"@.len());
            assert("justify-center"@.len() != "flex-col"@.len());
            assert("justify-center"@.len() != "flex-row"@.len());
            assert("justify-center"@.len() != "flex-wrap"@.len());
            assert("justify-center"@.len() != "flex-1"@.len());
            assert("justify-center"@.len() != "items-start"@.len());
            assert("justify-center"@.len() != "items-end"@.len());
            assert("justify-center"@.len() != "items-center"@.len());
            assert("justify-center"@.len() != "items-stretch"@.len());
            assert("justify-center"@.len() != "justify-start"@.len());
            assert("justify-center"@.len() != "justify-end"@.len());
            assert(fixed_class("justify-center"@) == Some(SLayoutClass::JustifyCenter));
        } else if k == 13 {
            assert(fixed_class_table()[13] == ("justify-between"@, SLayoutClass::JustifyBetween));
            assert("justify-between"@.len() != "flex"@.len());
            assert("justify-between"@.len() != "flex-col"@.len());
            assert("justify-between"@.len() != "flex-row"@.len());
            assert("justify-between"@.len() != "flex-wrap"@.len());
            assert("justify-between"@.len() != "flex-1"@.len());
            assert("justify-between"@.len() != "items-start"@.len());
            assert("justify-between"@.len() != "items-end"@.len());
            assert("justify-between"@.len() != "items-center"@.len());
            assert("justify-between"@.len() != "items-baseline"@.len());
            assert("justify-between"@.len() != "items-stretch"@.len());
            assert("justify-between"@.len() != "justify-start"@.len());
            assert("justify-between"@.len() != "justify-end"@.len());
            assert("justify-between"@.len() != "justify-center"@.len());
            assert(fixed_class("justify-between"@) == Some(SLayoutClass::JustifyBetween));

        } else if k == 14 {
            assert(fixed_class_table()[14] == ("justify-around"@, SLayoutClass::JustifyAround));
            assert("justify-around"@[0] != "items-baseline"@[0]);
            assert("justify-around"@[8] != "justify-center"@[8]);
            assert("justify-around"@.len() != "flex"@.len());
            assert("justify-around"@.len() != "flex-col"@.len());
            assert("justify-around"@.len() != "flex-row"@.len());
            assert("justify-around"@.len() != "flex-wrap"@.len());
            assert("justify-around"@.len() != "flex-1"@.len());
            assert("justify-around"@.len() != "items-start"@.len());
            assert("justify-around"@.len() != "items-end"@.len());
            assert("justify-around"@.len() != "items-center"@.len());
            assert("justify-around"@.len() != "items-stretch"@.len());
            assert("justify-around"@.len() != "justify-start"@.len());
            assert("justify-around"@.len() != "justify-end"@.len());
            assert("justify-around"@.len() != "justify-between"@.len());
            assert(fixed_class("justify-around"@) == Some(SLayoutClass::JustifyAround));
        } else if k == 15 {
            assert(fixed_class_table()[15] == ("justify-evenly"@, SLayoutClass::JustifyEvenly));
            assert("justify-evenly"@[0] != "items-baseline"@[0]);
            assert("justify-evenly"@[8] != "justify-center"@[8]);
            assert("justify-evenly"@[8] != "justify-around"@[8]);
            assert("justify-evenly"@.len() != "flex"@.len());
            assert("justify-evenly"@.len() != "flex-col"@.len());
            assert("justify-evenly"@.len() != "flex-row"@.len());
            assert("justify-evenly"@.len() != "flex-wrap"@.len());
            assert("justify-evenly"@.len() != "flex-1"@.len());
            assert("justify-evenly"@.len() != "items-start"@.len());
            assert("justify-evenly"@.len() != "items-end"@.len());
            assert("justify-evenly"@.len() != "items-center"@.len());
            assert("justify-evenly"@.len() != "items-stretch"@.len());
            assert("justify-evenly"@.len() != "justify-start"@.len());
            assert("justify-evenly"@.len() != "justify-end"@.len());
            assert("justify-evenly"@.len() != "justify-between"@.len());
            assert(fixed_class("justify-evenly"@) == Some(SLayoutClass::JustifyEvenly));
        } else if k == 16 {
            assert(fixed_class_table()[16] == ("w-full"@, SLayoutClass::WFull));
            assert("w-full"@[0] != "flex-1"@[0]);
            assert("w-full"@.len() != "flex"@.len());
            assert("w-full"@.len() != "flex-col"@.len());
            assert("w-full"@.len() != "flex-row"@.len());
            assert("w-full"@.len() != "flex-wrap"@.len());
            assert("w-full"@.len() != "items-start"@.len());
            assert("w-full"@.len() != "items-end"@.len());
            assert("w-full"@.len() != "items-center"@.len());
            assert("w-full"@.len() != "items-baseline"@.len());
            assert("w-full"@.len() != "items-stretch"@.len());
            assert("w-full"@.len() != "justify-start"@.len());
            assert("w-full"@.len() != "justify-end"@.len());
            assert("w-full"@.len() != "justify-center"@.len());
            assert("w-full"@.len() != "justify-between"@.len());
            assert("w-full"@.len() != "justify-around"@.len());
            assert("w-full"@.len() != "justify-evenly"@.len());
            assert(fixed_class("w-full"@) == Some(SLayoutClass::WFull));
        } else if k == 17 {
            assert(fixed_class_table()[17] == ("h-full"@, SLayoutClass::HFull));
            assert("h-full"@[0] != "flex-1"@[0]);
            assert("h-full"@[0] != "w-full"@[0]);
            assert("h-full"@.len() != "flex"@.len());
            assert("h-full"@.len() != "flex-col"@.len());
            assert("h-full"@.len() != "flex-row"@.len());
            assert("h-full"@.len() != "flex-wrap"@.len());
            assert("h-full"@.len() != "items-start"@.len());
            assert("h-full"@.len() != "items-end"@.len());
            assert("h-full"@.len() != "items-center"@.len());
            assert("h-full"@.len() != "items-baseline"@.len());
            assert("h-full"@.len() != "items-stretch"@.len());
            assert("h-full"@.len() != "justify-start"@.len());
            assert("h-full"@.len() != "justify-end"@.len());
            assert("h-full"@.len() != "justify-center"@.len());
            assert("h-full"@.len() != "justify-between"@.len());
            assert("h-full"@.len() != "justify-around"@.len());
            assert("h-full"@.len() != "justify-evenly"@.len());
            assert(fixed_class("h-full"@) == Some(SLayoutClass::HFull));
        } else if k == 18 {
            assert(fixed_class_table()[18] == ("size-full"@, SLayoutClass::SizeFull));
            assert("size-full"@[0] != "flex-wrap"@[0]);
            assert("size-full"@[0] != "items-end"@[0]);
            assert("size-full"@.len() != "flex"@.len());
            assert("size-full"@.len() != "flex-col"@.len());
            assert("size-full"@.len() != "flex-row"@.len());
            assert("size-full"@.len() != "flex-1"@.len());
            assert("size-full"@.len() != "items-start"@.len());
            assert("size-full"@.len() != "items-center"@.len());
            assert("size-full"@.len() != "items-baseline"@.len());
            assert("size-full"@.len() != "items-stretch"@.len());
            assert("size-full"@.len() != "justify-start"@.len());
            assert("size-full"@.len() != "justify-end"@.len());
            assert("size-full"@.len() != "justify-center"@.len());
            assert("size-full"@.len() != "justify-between"@.len());
            assert("size-full"@.len() != "justify-around"@.len());
            assert("size-full"@.len() != "justify-evenly"@.len());
            assert("size-full"@.len() != "w-full"@.len());
            assert("size-full"@.len() != "h-full"@.len());
            assert(fixed_class("size-full"@) == Some(SLayoutClass::SizeFull));
        } else if k == 19 {
            assert(fixed_class_table()[19] == ("relative"@, SLayoutClass::Relative));
            assert("relative"@[0] != "flex-col"@[0]);
            assert("relative"@[0] != "flex-row"@[0]);
            assert("relative"@.len() != "flex"@.len());
            assert("relative"@.len() != "flex-wrap"@.len());
            assert("relative"@.len() != "flex-1"@.len());
            assert("relative"@.len() != "items-start"@.len());
            assert("relative"@.len() != "items-end"@.len());
            assert("relative"@.len() != "items-center"@.len());
            assert("relative"@.len() != "items-baseline"@.len());
            assert("relative"@.len() != "items-stretch"@.len());
            assert("relative"@.len() != "justify-start"@.len());
            assert("relative"@.len() != "justify-end"@.len());
            assert("relative"@.len() != "justify-center"@.len());
            assert("relative"@.len() != "justify-between"@.len());
            assert("relative"@.len() != "justify-around"@.len());
            assert("relative"@.len() != "justify-evenly"@.len());
            assert("relative"@.len() != "w-full"@.len());
            assert("relative"@.len() != "h-full"@.len());
            assert("relative"@.len() != "size-full"@.len());
            assert(fixed_class("relative"@) == Some(SLayoutClass::Relative));
        } else if k == 20 {
            assert(fixed_class_table()[20] == ("absolute"@, SLayoutClass::Absolute));
            assert("absolute"@[0] != "flex-col"@[0]);
            assert("absolute"@[0] != "flex-row"@[0]);
            assert("absolute"@[0] != "relative"@[0]);
            assert("absolute"@.len() != "flex"@.len());
            assert("absolute"@.len() != "flex-wrap"@.len());
            assert("absolute"@.len() != "flex-1"@.len());
            assert("absolute"@.len() != "items-start"@.len());
            assert("absolute"@.len() != "items-end"@.len());
            assert("absolute"@.len() != "items-center"@.len());
            assert("absolute"@.len() != "items-baseline"@.len());
            assert("absolute"@.len() != "items-stretch"@.len());
            assert("absolute"@.len() != "justify-start"@.len());
            assert("absolute"@.len() != "justify-end"@.len());
            assert("absolute"@.len() != "justify-center"@.len());
            assert("absolute"@.len() != "justify-between"@.len());
            assert("absolute"@.len() != "justify-around"@.len());
            assert("absolute"@.len() != "justify-evenly"@.len());
            assert("absolute"@.len() != "w-full"@.len());
            assert("absolute"@.len() != "h-full"@.len());
            assert("absolute"@.len() != "size-full"@.len());
            assert(fixed_class("absolute"@) == Some(SLayoutClass::Absolute));
        } else if k == 21 {
            assert(fixed_class_table()[21] == ("top-0"@, SLayoutClass::Top0));
            assert("top-0"@.len() != "flex"@.len());
            assert("top-0"@.len() != "flex-col"@.len());
            assert("top-0"@.len() != "flex-row"@.len());
            assert("top-0"@.len() != "flex-wrap"@.len());
            assert("top-0"@.len() != "flex-1"@.len());
            assert("top-0"@.len() != "items-start"@.len());
            assert("top-0"@.len() != "items-end"@.len());
            assert("top-0"@.len() != "items-center"@.len());
            assert("top-0"@.len() != "items-baseline"@.len());
            assert("top-0"@.len() != "items-stretch"@.len());
            assert("top-0"@.len() != "justify-start"@.len());
            assert("top-0"@.len() != "justify-end"@.len());
            assert("top-0"@.len() != "justify-center"@.len());
            assert("top-0"@.len() != "justify-between"@.len());
            assert("top-0"@.len() != "justify-around"@.len());
            assert("top-0"@.len() != "justify-evenly"@.len());
            assert("top-0"@.len() != "w-full"@.len());
            assert("top-0"@.len() != "h-full"@.len());
            assert("top-0"@.len() != "size-full"@.len());
            assert("top-0"@.len() != "relative"@.len());
            assert("top-0"@.len() != "absolute"@.len());
            assert(fixed_class("top-0"@) == Some(SLayoutClass::Top0));

        } else if k == 22 {
            assert(fixed_class_table()[22] == ("right-0"@, SLayoutClass::Right0));
            assert("right-0"@.len() != "flex"@.len());
            assert("right-0"@.len() != "flex-col"@.len());
            assert("right-0"@.len() != "flex-row"@.len());
            assert("right-0"@.len() != "flex-wrap"@.len());
            assert("right-0"@.len() != "flex-1"@.len());
            assert("right-0"@.len() != "items-start"@.len());
            assert("right-0"@.len() != "items-end"@.len());
            assert("right-0"@.len() != "items-center"@.len());
            assert("right-0"@.len() != "items-baseline"@.len());
            assert("right-0"@.len() != "items-stretch"@.len());
            assert("right-0"@.len() != "justify-start"@.len());
            assert("right-0"@.len() != "justify-end"@.len());
            assert("right-0"@.len() != "justify-center"@.len());
            assert("right-0"@.len() != "justify-between"@.len());
            assert("right-0"@.len() != "justify-around"@.len());
            assert("right-0"@.len() != "justify-evenly"@.len());
            assert("right-0"@.len() != "w-full"@.len());
            assert("right-0"@.len() != "h-full"@.len());
            assert("right-0"@.len() != "size-full"@.len());
            assert("right-0"@.len() != "relative"@.len());
            assert("right-0"@.len() != "absolute"@.len());
            assert("right-0"@.len() != "top-0"@.len());
            assert(fixed_class("right-0"@) == Some(SLayoutClass::Right0));

        } else if k == 23 {
            assert(fixed_class_table()[23] == ("bottom-0"@, SLayoutClass::Bottom0));
            assert("bottom-0"@[0] != "flex-col"@[0]);
            assert("bottom-0"@[0] != "flex-row"@[0]);
            assert("bottom-0"@[0] != "relative"@[0]);
            assert("bottom-0"@[0] != "absolute"@[0]);
            assert("bottom-0"@.len() != "flex"@.len());
            assert("bottom-0"@.len() != "flex-wrap"@.len());
            assert("bottom-0"@.len() != "flex-1"@.len());
            assert("bottom-0"@.len() != "items-start"@.len());
            assert("bottom-0"@.len() != "items-end"@.len());
            assert("bottom-0"@.len() != "items-center"@.len());
            assert("bottom-0"@.len() != "items-baseline"@.len());
            assert("bottom-0"@.len() != "items-stretch"@.len());
            assert("bottom-0"@.len() != "justify-start"@.len());
            assert("bottom-0"@.len() != "justify-end"@.len());
            assert("bottom-0"@.len() != "justify-center"@.len());
            assert("bottom-0"@.len() != "justify-between"@.len());
            assert("bottom-0"@.len() != "justify-around"@.len());
            assert("bottom-0"@.len() != "justify-evenly"@.len());
            assert("bottom-0"@.len() != "w-full"@.len());
            assert("bottom-0"@.len() != "h-full"@.len());
            assert("bottom-0"@.len() != "size-full"@.len());
            assert("bottom-0"@.len() != "top-0"@.len());
            assert("bottom-0"@.len() != "right-0"@.len());
            assert(fixed_class("bottom-0"@) == Some(SLayoutClass::Bottom0));
        } else if k == 24 {
            assert(fixed_class_table()[24] == ("left-0"@, SLayoutClass::Left0));
            assert("left-0"@[0] != "flex-1"@[0]);
            assert("left-0"@[0] != "w-full"@[0]);
            assert("left-0"@[0] != "h-full"@[0]);
            assert("left-0"@.len() != "flex"@.len());
            assert("left-0"@.len() != "flex-col"@.len());
            assert("left-0"@.len() != "flex-row"@.len());
            assert("left-0"@.len() != "flex-wrap"@.len());
            assert("left-0"@.len() != "items-start"@.len());
            assert("left-0"@.len() != "items-end"@.len());
            assert("left-0"@.len() != "items-center"@.len());
            assert("left-0"@.len() != "items-baseline"@.len());
            assert("left-0"@.len() != "items-stretch"@.len());
            assert("left-0"@.len() != "justify-start"@.len());
            assert("left-0"@.len() != "justify-end"@.len());
            assert("left-0"@.len() != "justify-center"@.len());
            assert("left-0"@.len() != "justify-between"@.len());
            assert("left-0"@.len() != "justify-around"@.len());
            assert("left-0"@.len() != "justify-evenly"@.len());
            assert("left-0"@.len() != "size-full"@.len());
            assert("left-0"@.len() != "relative"@.len());
            assert("left-0"@.len() != "absolute"@.len());
            assert("left-0"@.len() != "top-0"@.len());
            assert("left-0"@.len() != "right-0"@.len());
            assert("left-0"@.len() != "bottom-0"@.len());
            assert(fixed_class("left-0"@) == Some(SLayoutClass::Left0));
        } else if k == 25 {
            assert(fixed_class_table()[25] == ("inset-0"@, SLayoutClass::Inset0));
            assert("inset-0"@[0] != "right-0"@[0]);
            assert("inset-0"@.len() != "flex"@.len());
            assert("inset-0"@.len() != "flex-col"@.len());
            assert("inset-0"@.len() != "flex-row"@.len());
            assert("inset-0"@.len() != "flex-wrap"@.len());
            assert("inset-0"@.len() != "flex-1"@.len());
            assert("inset-0"@.len() != "items-start"@.len());
            assert("inset-0"@.len() != "items-end"@.len());
            assert("inset-0"@.len() != "items-center"@.len());
            assert("inset-0"@.len() != "items-baseline"@.len());
            assert("inset-0"@.len() != "items-stretch"@.len());
            assert("inset-0"@.len() != "justify-start"@.len());
            assert("inset-0"@.len() != "justify-end"@.len());
            assert("inset-0"@.len() != "justify-center"@.len());
            assert("inset-0"@.len() != "justify-between"@.len());
            assert("inset-0"@.len() != "justify-around"@.len());
            assert("inset-0"@.len() != "justify-evenly"@.len());
            assert("inset-0"@.len() != "w-full"@.len());
            assert("inset-0"@.len() != "h-full"@.len());
            assert("inset-0"@.len() != "size-full"@.len());
            assert("inset-0"@.len() != "relative"@.len());
            assert("inset-0"@.len() != "absolute"@.len());
            assert("inset-0"@.len() != "top-0"@.len());
            assert("inset-0"@.len() != "bottom-0"@.len());
            assert("inset-0"@.len() != "left-0"@.len());
            assert(fixed_class("inset-0"@) == Some(SLayoutClass::Inset0));
        } else if k == 26 {
            assert(fixed_class_table()[26] == ("overflow-hidden"@, SLayoutClass::OverflowHidden));
            assert("overflow-hidden"@[0] != "justify-between"@[0]);
            assert("overflow-hidden"@.len() != "flex"@.len());
            assert("overflow-hidden"@.len() != "flex-col"@.len());
            assert("overflow-hidden"@.len() != "flex-row"@.len());
            assert("overflow-hidden"@.len() != "flex-wrap"@.len());
            assert("overflow-hidden"@.len() != "flex-1"@.len());
            assert("overflow-hidden"@.len() != "items-start"@.len());
            assert("overflow-hidden"@.len() != "items-end"@.len());
            assert("overflow-hidden"@.len() != "items-center"@.len());
            assert("overflow-hidden"@.len() != "items-baseline"@.len());
            assert("overflow-hidden"@.len() != "items-stretch"@.len());
            assert("overflow-hidden"@.len() != "justify-start"@.len());
            assert("overflow-hidden"@.len() != "justify-end"@.len());
            assert("overflow-hidden"@.len() != "justify-center"@.len());
            assert("overflow-hidden"@.len() != "justify-around"@.len());
            assert("overflow-hidden"@.len() != "justify-evenly"@.len());
            assert("overflow-hidden"@.len() != "w-full"@.len());
            assert("overflow-hidden"@.len() != "h-full"@.len());
            assert("overflow-hidden"@.len() != "size-full"@.len());
            assert("overflow-hidden"@.len() != "relative"@.len());
            assert("overflow-hidden"@.len() != "absolute"@.len());
            assert("overflow-hidden"@.len() != "top-0"@.len());
            assert("overflow-hidden"@.len() != "right-0"@.len());
            assert("overflow-hidden"@.len() != "bottom-0"@.len());
            assert("overflow-hidden"@.len() != "left-0"@.len());
            assert("overflow-hidden"@.len() != "inset-0"@.len());
            assert(fixed_class("overflow-hidden"@) == Some(SLayoutClass::OverflowHidden));
        } else if k == 27 {
            assert(fixed_class_table()[27] == ("overflow-scroll"@, SLayoutClass::OverflowScroll));
            assert("overflow-scroll"@[0] != "justify-between"@[0]);
            assert("overflow-scroll"@[9] != "overflow-hidden"@[9]);
            assert("overflow-scroll"@.len() != "flex"@.len());
            assert("overflow-scroll"@.len() != "flex-col"@.len());
            assert("overflow-scroll"@.len() != "flex-row"@.len());
            assert("overflow-scroll"@.len() != "flex-wrap"@.len());
            assert("overflow-scroll"@.len() != "flex-1"@.len());
            assert("overflow-scroll"@.len() != "items-start"@.len());
            assert("overflow-scroll"@.len() != "items-end"@.len());
            assert("overflow-scroll"@.len() != "items-center"@.len());
            assert("overflow-scroll"@.len() != "items-baseline"@.len());
            assert("overflow-scroll"@.len() != "items-stretch"@.len());
            assert("overflow-scroll"@.len() != "justify-start"@.len());
            assert("overflow-scroll"@.len() != "justify-end"@.len());
            assert("overflow-scroll"@.len() != "justify-center"@.len());
            assert("overflow-scroll"@.len() != "justify-around"@.len());
            assert("overflow-scroll"@.len() != "justify-evenly"@.len());
            assert("overflow-scroll"@.len() != "w-full"@.len());
            assert("overflow-scroll"@.len() != "h-full"@.len());
            assert("overflow-scroll"@.len() != "size-full"@.len());
            assert("overflow-scroll"@.len() != "relative"@.len());
            assert("overflow-scroll"@.len() != "absolute"@.len());
            assert("overflow-scroll"@.len() != "top-0"@.len());
            assert("overflow-scroll"@.len() != "right-0"@.len());
            assert("overflow-scroll"@.len() != "bottom-0"@.len());
            assert("overflow-scroll"@.len() != "left-0"@.len());
            assert("overflow-scroll"@.len() != "inset-0"@.len());
            assert(fixed_class("overflow-scroll"@) == Some(SLayoutClass::OverflowScroll));
        } else if k == 28 {
            assert(fixed_class_table()[28] == ("border"@, SLayoutClass::Border));
            assert("border"@[0] != "flex-1"@[0]);
            assert("border"@[0] != "w-full"@[0]);
            assert("border"@[0] != "h-full"@[0]);
            assert("border"@[0] != "left-0"@[0]);
            assert("border"@.len() != "flex"@.len());
            assert("border"@.len() != "flex-col"@.len());
            assert("border"@.len() != "flex-row"@.len());
            assert("border"@.len() != "flex-wrap"@.len());
            assert("border"@.len() != "items-start"@.len());
            assert("border"@.len() != "items-end"@.len());
            assert("border"@.len() != "items-center"@.len());
            assert("border"@.len() != "items-baseline"@.len());
            assert("border"@.len() != "items-stretch"@.len());
            assert("border"@.len() != "justify-start"@.len());
            assert("border"@.len() != "justify-end"@.len());
            assert("border"@.len() != "justify-center"@.len());
            assert("border"@.len() != "justify-between"@.len());
            assert("border"@.len() != "justify-around"@.len());
            assert("border"@.len() != "justify-evenly"@.len());
            assert("border"@.len() != "size-full"@.len());
            assert("border"@.len() != "relative"@.len());
            assert("border"@.len() != "absolute"@.len());
            assert("border"@.len() != "top-0"@.len());
            assert("border"@.len() != "right-0"@.len());
            assert("border"@.len() != "bottom-0"@.len());
            assert("border"@.len() != "inset-0"@.len());
            assert("border"@.len() != "overflow-hidden"@.len());
            assert("border"@.len() != "overflow-scroll"@.len());
            assert(fixed_class("border"@) == Some(SLayoutClass::Border));
        } else if k == 29 {
            assert(fixed_class_table()[29] == ("border-1"@, SLayoutClass::Border1));
            assert("border-1"@[0] != "flex-col"@[0]);
            assert("border-1"@[0] != "flex-row"@[0]);
            assert("border-1"@[0] != "relative"@[0]);
            assert("border-1"@[0] != "absolute"@[0]);
            assert("border-1"@[2] != "bottom-0"@[2]);
            assert("border-1"@.len() != "flex"@.len());
            assert("border-1"@.len() != "flex-wrap"@.len());
            assert("border-1"@.len() != "flex-1"@.len());
            assert("border-1"@.len() != "items-start"@.len());
            assert("border-1"@.len() != "items-end"@.len());
            assert("border-1"@.len() != "items-center"@.len());
            assert("border-1"@.len() != "items-baseline"@.len());
            assert("border-1"@.len() != "items-stretch"@.len());
            assert("border-1"@.len() != "justify-start"@.len());
            assert("border-1"@.len() != "justify-end"@.len());
            assert("border-1"@.len() != "justify-center"@.len());
            assert("border-1"@.len() != "justify-between"@.len());
            assert("border-1"@.len() != "justify-around"@.len());
            assert("border-1"@.len() != "justify-evenly"@.len());
            assert("border-1"@.len() != "w-full"@.len());
            assert("border-1"@.len() != "h-full"@.len());
            assert("border-1"@.len() != "size-full"@.len());
            assert("border-1"@.len() != "top-0"@.len());
            assert("border-1"@.len() != "right-0"@.len());
            assert("border-1"@.len() != "left-0"@.len());
            assert("border-1"@.len() != "inset-0"@.len());
            assert("border-1"@.len() != "overflow-hidden"@.len());
            assert("border-1"@.len() != "overflow-scroll"@.len());
            assert("border-1"@.len() != "border"@.len());
            assert(fixed_class("border-1"@) == Some(SLayoutClass::Border1));
        } else if k == 30 {
            assert(fixed_class_table()[30] == ("rounded"@, SLayoutClass::Rounded));
            assert("rounded"@[1] != "right-0"@[1]);
            assert("rounded"@[0] != "inset-0"@[0]);
            assert("rounded"@.len() != "flex"@.len());
            assert("rounded"@.len() != "flex-col"@.len());
            assert("rounded"@.len() != "flex-row"@.len());
            assert("rounded"@.len() != "flex-wrap"@.len());
            assert("rounded"@.len() != "flex-1"@.len());
            assert("rounded"@.len() != "items-start"@.len());
            assert("rounded"@.len() != "items-end"@.len());
            assert("rounded"@.len() != "items-center"@.len());
            assert("rounded"@.len() != "items-baseline"@.len());
            assert("rounded"@.len() != "items-stretch"@.len());
            assert("rounded"@.len() != "justify-start"@.len());
            assert("rounded"@.len() != "justify-end"@.len());
            assert("rounded"@.len() != "justify-center"@.len());
            assert("rounded"@.len() != "justify-between"@.len());
            assert("rounded"@.len() != "justify-around"@.len());
            assert("rounded"@.len() != "justify-evenly"@.len());
            assert("rounded"@.len() != "w-full"@.len());
            assert("rounded"@.len() != "h-full"@.len());
            assert("rounded"@.len() != "size-full"@.len());
            assert("rounded"@.len() != "relative"@.len());
            assert("rounded"@.len() != "absolute"@.len());
            assert("rounded"@.len() != "top-0"@.len());
            assert("rounded"@.len() != "bottom-0"@.len());
            assert("rounded"@.len() != "left-0"@.len());
            assert("rounded"@.len() != "overflow-hidden"@.len());
            assert("rounded"@.len() != "overflow-scroll"@.len());
            assert("rounded"@.len() != "border"@.len());
            assert("rounded"@.len() != "border-1"@.len());
            assert(fixed_class("rounded"@) == Some(SLayoutClass::Rounded));
        } else if k == 31 {
            assert(fixed_class_table()[31] == ("rounded-md"@, SLayoutClass::RoundedMd));
            assert("rounded-md"@.len() != "flex"@.len());
            assert("rounded-md"@.len() != "flex-col"@.len());
            assert("rounded-md"@.len() != "flex-row"@.len());
            assert("rounded-md"@.len() != "flex-wrap"@.len());
            assert("rounded-md"@.len() != "flex-1"@.len());
            assert("rounded-md"@.len() != "items-start"@.len());
            assert("rounded-md"@.len() != "items-end"@.len());
            assert("rounded-md"@.len() != "items-center"@.len());
            assert("rounded-md"@.len() != "items-baseline"@.len());
            assert("rounded-md"@.len() != "items-stretch"@.len());
            assert("rounded-md"@.len() != "justify-start"@.len());
            assert("rounded-md"@.len() != "justify-end"@.len());
            assert("rounded-md"@.len() != "justify-center"@.len());
            assert("rounded-md"@.len() != "justify-between"@.len());
            assert("rounded-md"@.len() != "justify-around"@.len());
            assert("rounded-md"@.len() != "justify-evenly"@.len());
            assert("rounded-md"@.len() != "w-full"@.len());
            assert("rounded-md"@.len() != "h-full"@.len());
            assert("rounded-md"@.len() != "size-full"@.len());
            assert("rounded-md"@.len() != "relative"@.len());
            assert("rounded-md"@.len() != "absolute"@.len());
            assert("rounded-md"@.len() != "top-0"@.len());
            assert("rounded-md"@.len() != "right-0"@.len());
            assert("rounded-md"@.len() != "bottom-0"@.len());
            assert("rounded-md"@.len() != "left-0"@.len());
            assert("rounded-md"@.len() != "inset-0"@.len());
            assert("rounded-md"@.len() != "overflow-hidden"@.len());
            assert("rounded-md"@.len() != "overflow-scroll"@.len());
            assert("rounded-md"@.len() != "border"@.len());
            assert("rounded-md"@.len() != "border-1"@.len());
            assert("rounded-md"@.len() != "rounded"@.len());
            assert(fixed_class("rounded-md"@) == Some(SLayoutClass::RoundedMd));

        } else if k == 32 {
            assert(fixed_class_table()[32] == ("rounded-lg"@, SLayoutClass::RoundedLg));
            assert("rounded-lg"@[8] != "rounded-md"@[8]);
            assert("rounded-lg"@.len() != "flex"@.len());
            assert("rounded-lg"@.len() != "flex-col"@.len());
            assert("rounded-lg"@.len() != "flex-row"@.len());
            assert("rounded-lg"@.len() != "flex-wrap"@.len());
            assert("rounded-lg"@.len() != "flex-1"@.len());
            assert("rounded-lg"@.len() != "items-start"@.len());
            assert("rounded-lg"@.len() != "items-end"@.len());
            assert("rounded-lg"@.len() != "items-center"@.len());
            assert("rounded-lg"@.len() != "items-baseline"@.len());
            assert("rounded-lg"@.len() != "items-stretch"@.len());
            assert("rounded-lg"@.len() != "justify-start"@.len());
            assert("rounded-lg"@.len() != "justify-end"@.len());
            assert("rounded-lg"@.len() != "justify-center"@.len());
            assert("rounded-lg"@.len() != "justify-between"@.len());
            assert("rounded-lg"@.len() != "justify-around"@.len());
            assert("rounded-lg"@.len() != "justify-evenly"@.len());
            assert("rounded-lg"@.len() != "w-full"@.len());
            assert("rounded-lg"@.len() != "h-full"@.len());
            assert("rounded-lg"@.len() != "size-full"@.len());
            assert("rounded-lg"@.len() != "relative"@.len());
            assert("rounded-lg"@.len() != "absolute"@.len());
            assert("rounded-lg"@.len() != "top-0"@.len());
            assert("rounded-lg"@.len() != "right-0"@.len());
            assert("rounded-lg"@.len() != "bottom-0"@.len());
            assert("rounded-lg"@.len() != "left-0"@.len());
            assert("rounded-lg"@.len() != "inset-0"@.len());
            assert("rounded-lg"@.len() != "overflow-hidden"@.len());
            assert("rounded-lg"@.len() != "overflow-scroll"@.len());
            assert("rounded-lg"@.len() != "border"@.len());
            assert("rounded-lg"@.len() != "border-1"@.len());
            assert("rounded-lg"@.len() != "rounded"@.len());
            assert(fixed_class("rounded-lg"@) == Some(SLayoutClass::RoundedLg));
        } else if k == 33 {
            assert(fixed_class_table()[33] == ("shadow-md"@, SLayoutClass::ShadowMd));
            assert("shadow-md"@[0] != "flex-wrap"@[0]);
            assert("shadow-md"@[0] != "items-end"@[0]);
            assert("shadow-md"@[1] != "size-full"@[1]);
            assert("shadow-md"@.len() != "flex"@.len());
            assert("shadow-md"@.len() != "flex-col"@.len());
            assert("shadow-md"@.len() != "flex-row"@.len());
            assert("shadow-md"@.len() != "flex-1"@.len());
            assert("shadow-md"@.len() != "items-start"@.len());
            assert("shadow-md"@.len() != "items-center"@.len());
            assert("shadow-md"@.len() != "items-baseline"@.len());
            assert("shadow-md"@.len() != "items-stretch"@.len());
            assert("shadow-md"@.len() != "justify-start"@.len());
            assert("shadow-md"@.len() != "justify-end"@.len());
            assert("shadow-md"@.len() != "justify-center"@.len());
            assert("shadow-md"@.len() != "justify-between"@.len());
            assert("shadow-md"@.len() != "justify-around"@.len());
            assert("shadow-md"@.len() != "justify-evenly"@.len());
            assert("shadow-md"@.len() != "w-full"@.len());
            assert("shadow-md"@.len() != "h-full"@.len());
            assert("shadow-md"@.len() != "relative"@.len());
            assert("shadow-md"@.len() != "absolute"@.len());
            assert("shadow-md"@.len() != "top-0"@.len());
            assert("shadow-md"@.len() != "right-0"@.len());
            assert("shadow-md"@.len() != "bottom-0"@.len());
            assert("shadow-md"@.len() != "left-0"@.len());
            assert("shadow-md"@.len() != "inset-0"@.len());
            assert("shadow-md"@.len() != "overflow-hidden"@.len());
            assert("shadow-md"@.len() != "overflow-scroll"@.len());
            assert("shadow-md"@.len() != "border"@.len());
            assert("shadow-md"@.len() != "border-1"@.len());
            assert("shadow-md"@.len() != "rounded"@.len());
            assert("shadow-md"@.len() != "rounded-md"@.len());
            assert("shadow-md"@.len() != "rounded-lg"@.len());
            assert(fixed_class("shadow-md"@) == Some(SLayoutClass::ShadowMd));
        } else if k == 34 {
            assert(fixed_class_table()[34] == ("shadow-lg"@, SLayoutClass::ShadowLg));
            assert("shadow-lg"@[0] != "flex-wrap"@[0]);
            assert("shadow-lg"@[0] != "items-end"@[0]);
            assert("shadow-lg"@[1] != "size-full"@[1]);
            assert("shadow-lg"@[7] != "shadow-md"@[7]);
            assert("shadow-lg"@.len() != "flex"@.len());
            assert("shadow-lg"@.len() != "flex-col"@.len());
            assert("shadow-lg"@.len() != "flex-row"@.len());
            assert("shadow-lg"@.len() != "flex-1"@.len());
            assert("shadow-lg"@.len() != "items-start"@.len());
            assert("shadow-lg"@.len() != "items-center"@.len());
            assert("shadow-lg"@.len() != "items-baseline"@.len());
            assert("shadow-lg"@.len() != "items-stretch"@.len());
            assert("shadow-lg"@.len() != "justify-start"@.len());
            assert("shadow-lg"@.len() != "justify-end"@.len());
            assert("shadow-lg"@.len() != "justify-center"@.len());
            assert("shadow-lg"@.len() != "justify-between"@.len());
            assert("shadow-lg"@.len() != "justify-around"@.len());
            assert("shadow-lg"@.len() != "justify-evenly"@.len());
            assert("shadow-lg"@.len() != "w-full"@.len());
            assert("shadow-lg"@.len() != "h-full"@.len());
            assert("shadow-lg"@.len() != "relative"@.len());
            assert("shadow-lg"@.len() != "absolute"@.len());
            assert("shadow-lg"@.len() != "top-0"@.len());
            assert("shadow-lg"@.len() != "right-0"@.len());
            assert("shadow-lg"@.len() != "bottom-0"@.len());
            assert("shadow-lg"@.len() != "left-0"@.len());
            assert("shadow-lg"@.len() != "inset-0"@.len());
            assert("shadow-lg"@.len() != "overflow-hidden"@.len());
            assert("shadow-lg"@.len() != "overflow-scroll"@.len());
            assert("shadow-lg"@.len() != "border"@.len());
            assert("shadow-lg"@.len() != "border-1"@.len());
            assert("shadow-lg"@.len() != "rounded"@.len());
            assert("shadow-lg"@.len() != "rounded-md"@.len());
            assert("shadow-lg"@.len() != "rounded-lg"@.len());
            assert(fixed_class("shadow-lg"@) == Some(SLayoutClass::ShadowLg));
        }
}

/// A class string made of value-free tokens parses, token by token,
/// to the classes those tokens name: the tokens of entries `idx` of
/// `fixed_class_table` give those entries' classes, in order (so
/// `flex justify-between` gives `[Flex, JustifyBetween]`).
pub proof fn lemma_fixed_tokens_parse(idx: Seq<int>, k: int)
    requires
        0 <= k <= idx.len(),
        forall|i: int| 0 <= i < idx.len() ==> 0 <= #[trigger] idx[i] < fixed_class_table().len(),
    ensures
        parse_tokens(idx.map_values(|j: int| fixed_class_table()[j].0), k) == Ok::<
            Seq<SLayoutClass>,
            (Seq<char>, Seq<char>),
        >(idx.map_values(|j: int| fixed_class_table()[j].1).take(k)),
    decreases k,
{
    let toks = idx.map_values(|j: int| fixed_class_table()[j].0);
    let cls = idx.map_values(|j: int| fixed_class_table()[j].1);
    if k > 0 {
        lemma_fixed_tokens_parse(idx, k - 1);
        assert(0 <= idx[k - 1] < fixed_class_table().len());
        lemma_fixed_classes_named(idx[k - 1]);
        assert(toks[k - 1] == fixed_class_table()[idx[k - 1]].0);
        assert(cls.take(k) =~= cls.take(k - 1).push(cls[k - 1]));
    } else {
        assert(cls.take(0) =~= Seq::<SLayoutClass>::empty());
    }
}

fn fixed_class_of(t: &str) -> (r: Option<LayoutClass>)
    ensures
        match r {
            Some(c) => fixed_class(t@) == Some(c@),
            None => fixed_class(t@) is None,
        },
{
    if str_eq(t, "flex") {
        return Some(LayoutClass::Flex);
    }
    if str_eq(t, "flex-col") {
        return Some(LayoutClass::FlexCol);
    }
    if str_eq(t, "flex-row") {
        return Some(LayoutClass::FlexRow);
    }
    if str_eq(t, "flex-wrap") {
        return Some(LayoutClass::FlexWrap);
    }
    if str_eq(t, "flex-1") {
        return Some(LayoutClass::Flex1);
    }
    if str_eq(t, "items-start") {
        return Some(LayoutClass::ItemsStart);
    }
    if str_eq(t, "items-end") {
        return Some(LayoutClass::ItemsEnd);
    }
    if str_eq(t, "items-center") {
        return Some(LayoutClass::ItemsCenter);
    }
    if str_eq(t, "items-baseline") {
        return Some(LayoutClass::ItemsBaseline);
    }
    if str_eq(t, "items-stretch") {
        return Some(LayoutClass::ItemsStretch);
    }
    if str_eq(t, "justify-start") {
        return Some(LayoutClass::JustifyStart);
    }
    if str_eq(t, "justify-end") {
        return Some(LayoutClass::JustifyEnd);
    }
    if str_eq(t, "justify-center") {
        return Some(LayoutClass::JustifyCenter);
    }
    if str_eq(t, "justify-between") {
        return Some(LayoutClass::JustifyBetween);
    }
    if str_eq(t, "justify-around") {
        return Some(LayoutClass::JustifyAround);
    }
    if str_eq(t, "justify-evenly") {
        return Some(LayoutClass::JustifyEvenly);
    }
    if str_eq(t, "w-full") {
        return Some(LayoutClass::WFull);
    }
    if str_eq(t, "h-full") {
        return Some(LayoutClass::HFull);
    }
    if str_eq(t, "size-full") {
        return Some(LayoutClass::SizeFull);
    }
    if str_eq(t, "relative") {
        return Some(LayoutClass::Relative);
    }
    if str_eq(t, "absolute") {
        return Some(LayoutClass::Absolute);
    }
    if str_eq(t, "top-0") {
        return Some(LayoutClass::Top0);
    }
    if str_eq(t, "right-0") {
        return Some(LayoutClass::Right0);
    }
    if str_eq(t, "bottom-0") {
        return Some(LayoutClass::Bottom0);
    }
    if str_eq(t, "left-0") {
        return Some(LayoutClass::Left0);
    }
    if str_eq(t, "inset-0") {
        return Some(LayoutClass::Inset0);
    }
    if str_eq(t, "overflow-hidden") {
        return Some(LayoutClass::OverflowHidden);
    }
    if str_eq(t, "overflow-scroll") {
        return Some(LayoutClass::OverflowScroll);
    }
    if str_eq(t, "border") {
        return Some(LayoutClass::Border);
    }
    if str_eq(t, "border-1") {
        return Some(LayoutClass::Border1);
    }
    if str_eq(t, "rounded") {
        return Some(LayoutClass::Rounded);
    }
    if str_eq(t, "rounded-md") {
        return Some(LayoutClass::RoundedMd);
    }
    if str_eq(t, "rounded-lg") {
        return Some(LayoutClass::RoundedLg);
    }
    if str_eq(t, "shadow-md") {
        return Some(LayoutClass::ShadowMd);
    }
    if str_eq(t, "shadow-lg") {
        return Some(LayoutClass::ShadowLg);
    }
    None
}

/// The Rust expression building a class, with `path` the path of the
/// `LayoutClass` enum.
pub open spec fn class_tokens(c: SLayoutClass, path: Seq<char>) -> Seq<char> {
    match c {
        SLayoutClass::Flex => path + "::Flex"@,
        SLayoutClass::FlexCol => path + "::FlexCol"@,
        SLayoutClass::FlexRow => path + "::FlexRow"@,
        SLayoutClass::FlexWrap => path + "::FlexWrap"@,
        SLayoutClass::Flex1 => path + "::Flex1"@,
        SLayoutClass::ItemsStart => path + "::ItemsStart"@,
        SLayoutClass::ItemsEnd => path + "::ItemsEnd"@,
        SLayoutClass::ItemsCenter => path + "::ItemsCenter"@,
        SLayoutClass::ItemsBaseline => path + "::ItemsBaseline"@,
        SLayoutClass::ItemsStretch => path + "::ItemsStretch"@,
        SLayoutClass::JustifyStart => path + "::JustifyStart"@,
        SLayoutClass::JustifyEnd => path + "::JustifyEnd"@,
        SLayoutClass::JustifyCenter => path + "::JustifyCenter"@,
        SLayoutClass::JustifyBetween => path + "::JustifyBetween"@,
        SLayoutClass::JustifyAround => path + "::JustifyAround"@,
        SLayoutClass::JustifyEvenly => path + "::JustifyEvenly"@,
        SLayoutClass::WFull => path + "::WFull"@,
        SLayoutClass::HFull => path + "::HFull"@,
        SLayoutClass::SizeFull => path + "::SizeFull"@,
        SLayoutClass::Relative => path + "::Relative"@,
        SLayoutClass::Absolute => path + "::Absolute"@,
        SLayoutClass::Top0 => path + "::Top0"@,
        SLayoutClass::Right0 => path + "::Right0"@,
        SLayoutClass::Bottom0 => path + "::Bottom0"@,
        SLayoutClass::Left0 => path + "::Left0"@,
        SLayoutClass::Inset0 => path + "::Inset0"@,
        SLayoutClass::OverflowHidden => path + "::OverflowHidden"@,
        SLayoutClass::OverflowScroll => path + "::OverflowScroll"@,
        SLayoutClass::Border => path + "::Border"@,
        SLayoutClass::Border1 => path + "::Border1"@,
        SLayoutClass::Rounded => path + "::Rounded"@,
        SLayoutClass::RoundedMd => path + "::RoundedMd"@,
        SLayoutClass::RoundedLg => path + "::RoundedLg"@,
        SLayoutClass::ShadowMd => path + "::ShadowMd"@,
        SLayoutClass::ShadowLg => path + "::ShadowLg"@,
        SLayoutClass::Gap(x) => path + "::Gap("@ + spacing_tokens(x) + ")"@,
        SLayoutClass::P(x) => path + "::P("@ + inset_tokens(x) + ")"@,
        SLayoutClass::Px(x) => path + "::Px("@ + spacing_tokens(x) + ")"@,
        SLayoutClass::Py(x) => path + "::Py("@ + spacing_tokens(x) + ")"@,
        SLayoutClass::M(x) => path + "::M("@ + inset_tokens(x) + ")"@,
        SLayoutClass::Mx(x) => path + "::Mx("@ + inset_tokens(x) + ")"@,
        SLayoutClass::My(x) => path + "::My("@ + inset_tokens(x) + ")"@,
    }
}

/// Convert a class into the Rust expression that builds it, fully
/// qualified with `layout_path` (the path of the `LayoutClass` enum).
pub fn layout_class_to_tokens(c: &LayoutClass, layout_path: &str) -> (r: String)
    ensures
        r@ == class_tokens(c@, layout_path@),
{
    match c {
        LayoutClass::Flex => cat2(layout_path, "::Flex"),
        LayoutClass::FlexCol => cat2(layout_path, "::FlexCol"),
        LayoutClass::FlexRow => cat2(layout_path, "::FlexRow"),
        LayoutClass::FlexWrap => cat2(layout_path, "::FlexWrap"),
        LayoutClass::Flex1 => cat2(layout_path, "::Flex1"),
        LayoutClass::ItemsStart => cat2(layout_path, "::ItemsStart"),
        LayoutClass::ItemsEnd => cat2(layout_path, "::ItemsEnd"),
        LayoutClass::ItemsCenter => cat2(layout_path, "::ItemsCenter"),
        LayoutClass::ItemsBaseline => cat2(layout_path, "::ItemsBaseline"),
        LayoutClass::ItemsStretch => cat2(layout_path, "::ItemsStretch"),
        LayoutClass::JustifyStart => cat2(layout_path, "::JustifyStart"),
        LayoutClass::JustifyEnd => cat2(layout_path, "::JustifyEnd"),
        LayoutClass::JustifyCenter => cat2(layout_path, "::JustifyCenter"),
        LayoutClass::JustifyBetween => cat2(layout_path, "::JustifyBetween"),
        LayoutClass::JustifyAround => cat2(layout_path, "::JustifyAround"),
        LayoutClass::JustifyEvenly => cat2(layout_path, "::JustifyEvenly"),
        LayoutClass::WFull => cat2(layout_path, "::WFull"),
        LayoutClass::HFull => cat2(layout_path, "::HFull"),
        LayoutClass::SizeFull => cat2(layout_path, "::SizeFull"),
        LayoutClass::Relative => cat2(layout_path, "::Relative"),
        LayoutClass::Absolute => cat2(layout_path, "::Absolute"),
        LayoutClass::Top0 => cat2(layout_path, "::Top0"),
        LayoutClass::Right0 => cat2(layout_path, "::Right0"),
        LayoutClass::Bottom0 => cat2(layout_path, "::Bottom0"),
        LayoutClass::Left0 => cat2(layout_path, "::Left0"),
        LayoutClass::Inset0 => cat2(layout_path, "::Inset0"),
        LayoutClass::OverflowHidden => cat2(layout_path, "::OverflowHidden"),
        LayoutClass::OverflowScroll => cat2(layout_path, "::OverflowScroll"),
        LayoutClass::Border => cat2(layout_path, "::Border"),
        LayoutClass::Border1 => cat2(layout_path, "::Border1"),
        LayoutClass::Rounded => cat2(layout_path, "::Rounded"),
        LayoutClass::RoundedMd => cat2(layout_path, "::RoundedMd"),
        LayoutClass::RoundedLg => cat2(layout_path, "::RoundedLg"),
        LayoutClass::ShadowMd => cat2(layout_path, "::ShadowMd"),
        LayoutClass::ShadowLg => cat2(layout_path, "::ShadowLg"),
        LayoutClass::Gap(x) => {
            let mut out = cat2(layout_path, "::Gap(");
            let inner = spacing_to_tokens(x);
            out.append(inner.as_str());
            out.append(")");
            out
        },
        LayoutClass::P(x) => {
            let mut out = cat2(layout_path, "::P(");
            let inner = inset_to_tokens(x);
            out.append(inner.as_str());
            out.append(")");
            out
        },
        LayoutClass::Px(x) => {
            let mut out = cat2(layout_path, "::Px(");
            let inner = spacing_to_tokens(x);
            out.append(inner.as_str());
            out.append(")");
            out
        },
        LayoutClass::Py(x) => {
            let mut out = cat2(layout_path, "::Py(");
            let inner = spacing_to_tokens(x);
            out.append(inner.as_str());
            out.append(")");
            out
        },
        LayoutClass::M(x) => {
            let mut out = cat2(layout_path, "::M(");
            let inner = inset_to_tokens(x);
            out.append(inner.as_str());
            out.append(")");
            out
        },
        LayoutClass::Mx(x) => {
            let mut out = cat2(layout_path, "::Mx(");
            let inner = inset_to_tokens(x);
            out.append(inner.as_str());
            out.append(")");
            out
        },
        LayoutClass::My(x) => {
            let mut out = cat2(layout_path, "::My(");
            let inner = inset_to_tokens(x);
            out.append(inner.as_str());
            out.append(")");
            out
        },
    }
}

pub open spec fn starts_with_str(t: Seq<char>, p: Seq<char>) -> bool {
    t.len() >= p.len() && t.take(p.len() as int) == p
}

pub open spec fn spacing_class(r: Result<SSpacing, (Seq<char>, Seq<char>)>, f: spec_fn(SSpacing) -> SLayoutClass) -> Result<SLayoutClass, (Seq<char>, Seq<char>)> {
    match r {
        Ok(s) => Ok(f(s)),
        Err(e) => Err(e),
    }
}

pub open spec fn inset_class(r: Result<SInset, (Seq<char>, Seq<char>)>, f: spec_fn(SInset) -> SLayoutClass) -> Result<SLayoutClass, (Seq<char>, Seq<char>)> {
    match r {
        Ok(s) => Ok(f(s)),
        Err(e) => Err(e),
    }
}

/// The class one token names: a value-free class, or a value-bearing
/// prefix (`gap-`, `p-`, `px-`, `py-`, `m-`, `mx-`, `my-`) and its
/// value; else the token at fault and why.
pub open spec fn spec_class_token(t: Seq<char>) -> Result<SLayoutClass, (Seq<char>, Seq<char>)> {
    if fixed_class(t) is Some {
        Ok(fixed_class(t)->0)
    } else if starts_with_str(t, "gap-"@) {
        spacing_class(spec_spacing(t.skip(4)), |s: SSpacing| SLayoutClass::Gap(s))
    } else if starts_with_str(t, "p-"@) {
        inset_class(spec_inset(t.skip(2)), |s: SInset| SLayoutClass::P(s))
    } else if starts_with_str(t, "px-"@) {
        spacing_class(spec_spacing(t.skip(3)), |s: SSpacing| SLayoutClass::Px(s))
    } else if starts_with_str(t, "py-"@) {
        spacing_class(spec_spacing(t.skip(3)), |s: SSpacing| SLayoutClass::Py(s))
    } else if starts_with_str(t, "m-"@) {
        inset_class(spec_inset(t.skip(2)), |s: SInset| SLayoutClass::M(s))
    } else if starts_with_str(t, "mx-"@) {
        inset_class(spec_inset(t.skip(3)), |s: SInset| SLayoutClass::Mx(s))
    } else if starts_with_str(t, "my-"@) {
        inset_class(spec_inset(t.skip(3)), |s: SInset| SLayoutClass::My(s))
    } else {
        Err((t, class_msg()))
    }
}

fn strip_prefix_of(v: &Vec<char>, p: &str) -> (r: Option<String>)
    ensures
        match r {
            Some(x) => starts_with_str(v@, p@) && x@ == v@.skip(p@.len() as int),
            None => !starts_with_str(v@, p@),
        },
{
    let pv = chars_of(p);
    if pv.len() > v.len() {
        return None;
    }
    let mut k: usize = 0;
    while k < pv.len()
        invariant
            k <= pv@.len() <= v@.len(),
            pv@ == p@,
            forall|j: int| 0 <= j < k ==> v@[j] == pv@[j],
        decreases pv.len() - k,
    {
        if v[k] != pv[k] {
            assert(v@.take(pv@.len() as int)[k as int] != p@[k as int]);
            return None;
        }
        k += 1;
    }
    assert(v@.take(pv@.len() as int) =~= p@);
    let mut out: Vec<char> = Vec::new();
    let mut j = pv.len();
    while j < v.len()
        invariant
            pv@.len() <= j <= v@.len(),
            out@ == v@.subrange(pv@.len() as int, j as int),
        decreases v.len() - j,
    {
        out.push(v[j]);
        j += 1;
        assert(out@ =~= v@.subrange(pv@.len() as int, j as int));
    }
    assert(out@ =~= v@.skip(p@.len() as int));
    Some(string_of(&out))
}

pub open spec fn class_res_view(r: Result<LayoutClass, ClassParseError>) -> Result<SLayoutClass, (Seq<char>, Seq<char>)> {
    match r {
        Ok(c) => Ok(c@),
        Err(e) => Err((e.token@, e.message@)),
    }
}

fn spacing_into(r: Result<Spacing, ClassParseError>, which: u8) -> (out: Result<LayoutClass, ClassParseError>)
    requires
        which < 3,
    ensures
        match r {
            Ok(s) => out matches Ok(c) && c@ == (if which == 0 {
                SLayoutClass::Gap(s@)
            } else if which == 1 {
                SLayoutClass::Px(s@)
            } else {
                SLayoutClass::Py(s@)
            }),
            Err(e) => out matches Err(x) && x.token@ == e.token@ && x.message@ == e.message@,
        },
{
    match r {
        Ok(s) => Ok(if which == 0 {
            LayoutClass::Gap(s)
        } else if which == 1 {
            LayoutClass::Px(s)
        } else {
            LayoutClass::Py(s)
        }),
        Err(e) => Err(e),
    }
}

fn inset_into(r: Result<Inset, ClassParseError>, which: u8) -> (out: Result<LayoutClass, ClassParseError>)
    requires
        which < 4,
    ensures
        match r {
            Ok(s) => out matches Ok(c) && c@ == (if which == 0 {
                SLayoutClass::P(s@)
            } else if which == 1 {
                SLayoutClass::M(s@)
            } else if which == 2 {
                SLayoutClass::Mx(s@)
            } else {
                SLayoutClass::My(s@)
            }),
            Err(e) => out matches Err(x) && x.token@ == e.token@ && x.message@ == e.message@,
        },
{
    match r {
        Ok(s) => Ok(if which == 0 {
            LayoutClass::P(s)
        } else if which == 1 {
            LayoutClass::M(s)
        } else if which == 2 {
            LayoutClass::Mx(s)
        } else {
            LayoutClass::My(s)
        }),
        Err(e) => Err(e),
    }
}

/// The class one token names.
pub fn parse_one_token(token: &str) -> (r: Result<LayoutClass, ClassParseError>)
    ensures
        class_res_view(r) == spec_class_token(token@),
{
    if let Some(c) = fixed_class_of(token) {
        return Ok(c);
    }
    let v = chars_of(token);
    proof {
        reveal_strlit("gap-");
        reveal_strlit("p-");
        reveal_strlit("px-");
        reveal_strlit("py-");
        reveal_strlit("m-");
        reveal_strlit("mx-");
        reveal_strlit("my-");
    }
    if let Some(rest) = strip_prefix_of(&v, "gap-") {
        return spacing_into(parse_spacing(rest.as_str()), 0);
    }
    if let Some(rest) = strip_prefix_of(&v, "p-") {
        return inset_into(parse_inset(rest.as_str()), 0);
    }
    if let Some(rest) = strip_prefix_of(&v, "px-") {
        return spacing_into(parse_spacing(rest.as_str()), 1);
    }
    if let Some(rest) = strip_prefix_of(&v, "py-") {
        return spacing_into(parse_spacing(rest.as_str()), 2);
    }
    if let Some(rest) = strip_prefix_of(&v, "m-") {
        return inset_into(parse_inset(rest.as_str()), 1);
    }
    if let Some(rest) = strip_prefix_of(&v, "mx-") {
        return inset_into(parse_inset(rest.as_str()), 2);
    }
    if let Some(rest) = strip_prefix_of(&v, "my-") {
        return inset_into(parse_inset(rest.as_str()), 3);
    }
    Err(
        class_error(
            to_owned(token),
            "no matching class. Use `flex`, `gap-md`, `p-4`, etc. (see `layout-system-plan.md` §4.1)",
        ),
    )
}

/// The whitespace-separated tokens of `s` from position `i` on, `cur`
/// being the token read so far.
pub open spec fn ws_tokens(s: Seq<char>, i: int, cur: Seq<char>) -> Seq<Seq<char>>
    decreases s.len() - i,
{
    if i < 0 || i >= s.len() {
        if cur.len() > 0 {
            seq![cur]
        } else {
            seq![]
        }
    } else if is_unicode_ws(s[i]) {
        (if cur.len() > 0 {
            seq![cur]
        } else {
            seq![]
        }) + ws_tokens(s, i + 1, seq![])
    } else {
        ws_tokens(s, i + 1, cur.push(s[i]))
    }
}

/// The classes of the first `k` tokens, or the first token's error.
pub open spec fn parse_tokens(toks: Seq<Seq<char>>, k: int) -> Result<Seq<SLayoutClass>, (Seq<char>, Seq<char>)>
    decreases k,
{
    if k <= 0 || k > toks.len() {
        Ok(seq![])
    } else {
        match parse_tokens(toks, k - 1) {
            Err(e) => Err(e),
            Ok(pre) => match spec_class_token(toks[k - 1]) {
                Err(e) => Err(e),
                Ok(c) => Ok(pre.push(c)),
            },
        }
    }
}

/// The classes a class string names, in order.
pub open spec fn spec_class_string(s: Seq<char>) -> Result<Seq<SLayoutClass>, (Seq<char>, Seq<char>)> {
    let toks = ws_tokens(s, 0, seq![]);
    parse_tokens(toks, toks.len() as int)
}

pub open spec fn classes_view(v: Seq<LayoutClass>) -> Seq<SLayoutClass> {
    v.map_values(|c: LayoutClass| c@)
}

pub open spec fn classes_res_view(r: Result<Vec<LayoutClass>, ClassParseError>) -> Result<Seq<SLayoutClass>, (Seq<char>, Seq<char>)> {
    match r {
        Ok(v) => Ok(classes_view(v@)),
        Err(e) => Err((e.token@, e.message@)),
    }
}

/// The whitespace-separated tokens of `input`.
pub fn split_tokens(input: &str) -> (r: Vec<String>)
    ensures
        r@.map_values(|t: String| t@) == ws_tokens(input@, 0, seq![]),
{
    let s = chars_of(input);
    let mut out: Vec<String> = Vec::new();
    let mut cur: Vec<char> = Vec::new();
    let mut i: usize = 0;
    assert(out@.map_values(|t: String| t@) =~= Seq::<Seq<char>>::empty());
    while i < s.len()
        invariant
            i <= s@.len(),
            s@ == input@,
            out@.map_values(|t: String| t@) + ws_tokens(s@, i as int, cur@) == ws_tokens(s@, 0, seq![]),
        decreases s.len() - i,
    {
        let ghost pre = out@.map_values(|t: String| t@);
        if is_whitespace(s[i]) {
            if cur.len() > 0 {
                let t = string_of(&cur);
                out.push(t);
                assert(out@.map_values(|t: String| t@) =~= pre.push(cur@));
                assert(pre.push(cur@) + ws_tokens(s@, i + 1, seq![]) =~= pre + (seq![cur@] + ws_tokens(s@, i + 1, seq![])));
            } else {
                assert(pre + ws_tokens(s@, i + 1, seq![]) =~= pre + (Seq::<Seq<char>>::empty() + ws_tokens(s@, i + 1, seq![])));
            }
            cur = Vec::new();
            assert(cur@ =~= Seq::<char>::empty());
        } else {
            cur.push(s[i]);
        }
        i += 1;
    }
    if cur.len() > 0 {
        let ghost pre = out@.map_values(|t: String| t@);
        let t = string_of(&cur);
        out.push(t);
        assert(out@.map_values(|t: String| t@) =~= pre + seq![cur@]);
    } else {
        assert(out@.map_values(|t: String| t@) + Seq::<Seq<char>>::empty() =~= out@.map_values(|t: String| t@));
    }
    out
}

proof fn lemma_parse_tokens_err(toks: Seq<Seq<char>>, k: int, n: int, e: (Seq<char>, Seq<char>))
    requires
        0 <= k <= n <= toks.len(),
        parse_tokens(toks, k) == Err::<Seq<SLayoutClass>, (Seq<char>, Seq<char>)>(e),
    ensures
        parse_tokens(toks, n) == Err::<Seq<SLayoutClass>, (Seq<char>, Seq<char>)>(e),
    decreases n - k,
{
    if n > k {
        lemma_parse_tokens_err(toks, k, n - 1, e);
    }
}

/// Parse a class string into its classes: tokens are separated by
/// whitespace, and the first token that names no class is the error.
pub fn parse_class_string(input: &str) -> (r: Result<Vec<LayoutClass>, ClassParseError>)
    ensures
        classes_res_view(r) == spec_class_string(input@),
{
    let toks = split_tokens(input);
    let ghost tv = toks@.map_values(|t: String| t@);
    let mut out: Vec<LayoutClass> = Vec::new();
    let mut k: usize = 0;
    assert(classes_view(out@) =~= Seq::<SLayoutClass>::empty());
    while k < toks.len()
        invariant
            k <= toks@.len(),
            tv == toks@.map_values(|t: String| t@),
            tv == ws_tokens(input@, 0, seq![]),
            parse_tokens(tv, k as int) == Ok::<Seq<SLayoutClass>, (Seq<char>, Seq<char>)>(classes_view(out@)),
        decreases toks.len() - k,
    {
        assert(tv[k as int] == toks@[k as int]@);
        match parse_one_token(toks[k].as_str()) {
            Ok(c) => {
                let ghost pre = out@;
                out.push(c);
                assert(classes_view(out@) =~= classes_view(pre).push(c@));
            },
            Err(e) => {
                proof {
                    lemma_parse_tokens_err(tv, k + 1, tv.len() as int, (e.token@, e.message@));
                }
                return Err(e);
            },
        }
        k += 1;
    }
    Ok(out)
}

} // verus!
