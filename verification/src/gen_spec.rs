//! What the code generator produces for each kind of element, stated
//! over the mathematical AST. Every function gives either the Rust
//! source text of an expression (or of a run of statements) or the
//! first error met, in document order.
use vstd::prelude::*;

use crate::ast::{esize, ksize, lemma_ksize_index, lemma_nsize_element, nsize, SAttr, SElement, SNode};
use crate::emit::{find_attr, owned_lit, spec_ts, str_lit};
use crate::error::{decimal, serr, SError, XmlErrorKind};
use crate::events::spec_split_event_modifiers;
use crate::handlers::{
    bind_code, default_params, event_call, event_params, find_event, find_prop, wrap_closure,
    wrap_mods,
};
use crate::schema::{
    spec_lookup, ComponentDef, ComponentKind, ControlFlowDef, ExtraArg, ExtraArgKind, LeafDef,
    PropValue, RenderMode,
};
use crate::strings::trim;
use crate::style::{accepted_leaf, hint, leaf_style_attr, spec_container_attr};
use crate::diagnostics::spec_did_you_mean;
use crate::values::{
    all_digits, dec_num, expects, float_lit, spec_attr_expr_only, spec_attr_value, spec_prop_value,
    spec_text_content, spec_text_value, text_of, ticked, unsign,
};

verus! {

/// The schema the generator consults: the hand-written entries, the
/// XML-only entries and the user's, and the text of the app context.
pub struct Gen<'a> {
    pub builtins: &'a [ComponentDef],
    pub overrides: &'a [ComponentDef],
    pub user: &'a [ComponentDef],
    pub cx: &'a str,
}

/// What a tag is: its schema entry's kind, or a runtime-registered
/// component when no table knows it.
#[verifier::opaque]
pub open spec fn kind_of(g: Gen, tag: Seq<char>) -> ComponentKind {
    match spec_lookup(g.builtins@, g.overrides@, g.user@, tag) {
        Some(d) => d.kind,
        None => ComponentKind::RuntimeLeaf,
    }
}

/// `a` then `b`: the first error, else the two texts concatenated.
pub open spec fn cat(a: Result<Seq<char>, SError>, b: Result<Seq<char>, SError>) -> Result<
    Seq<char>,
    SError,
> {
    match a {
        Err(x) => Err(x),
        Ok(p) => match b {
            Err(y) => Err(y),
            Ok(q) => Ok(p + q),
        },
    }
}

/// The text of `r` between `pre` and `post`.
pub open spec fn wrap(pre: Seq<char>, r: Result<Seq<char>, SError>, post: Seq<char>) -> Result<
    Seq<char>,
    SError,
> {
    match r {
        Err(x) => Err(x),
        Ok(p) => Ok(pre + p + post),
    }
}

/// An error pointing at element `e`.
pub open spec fn el_err(kind: XmlErrorKind, msg: Seq<char>, e: SElement) -> SError {
    serr(kind, msg, Some(e.offset))
}

pub open spec fn angled(tag: Seq<char>) -> Seq<char> {
    "<"@ + tag + ">"@
}

/// `let __el = ::gpui::ParentElement::child(__el, <x>);`
pub open spec fn child_stmt(x: Seq<char>) -> Seq<char> {
    "let __el = ::gpui::ParentElement::child(__el, "@ + x + ");"@
}

pub open spec fn is_if_tag(tag: Seq<char>) -> bool {
    tag == "If"@ || tag == "ElseIf"@ || tag == "Else"@
}

pub open spec fn is_if_node(n: SNode) -> bool {
    n matches SNode::Element(e) && is_if_tag(e.tag)
}

/// The end of the run of `If`/`ElseIf`/`Else` siblings starting at `i`.
pub open spec fn run_end(kids: Seq<SNode>, i: int) -> int
    decreases kids.len() - i,
{
    if i < 0 || i >= kids.len() || !is_if_node(kids[i]) {
        i
    } else {
        run_end(kids, i + 1)
    }
}

pub proof fn lemma_run_end(kids: Seq<SNode>, i: int)
    requires
        0 <= i <= kids.len(),
    ensures
        i <= run_end(kids, i) <= kids.len(),
        forall|k: int| i <= k < run_end(kids, i) ==> is_if_node(#[trigger] kids[k]),
        run_end(kids, i) < kids.len() ==> !is_if_node(kids[run_end(kids, i)]),
    decreases kids.len() - i,
{
    if i < kids.len() && is_if_node(kids[i]) {
        lemma_run_end(kids, i + 1);
    }
}

/// The tag names offered as suggestions for an unknown tag.
pub open spec fn builtin_tag_names() -> Seq<Seq<char>> {
    seq![
        "Button"@, "Column"@, "Div"@, "Else"@, "ElseIf"@, "For"@, "Fragment"@, "If"@, "Label"@,
        "Row"@, "Stack"@
    ]
}

/// The code for an element.
#[verifier::opaque]
pub open spec fn gen_element(g: Gen, e: SElement) -> Result<Seq<char>, SError>
    decreases esize(e), 4int,
{
    match kind_of(g, e.tag) {
        ComponentKind::Container(c) => gen_container(g, c.fixed_methods@, e),
        ComponentKind::Leaf(l) => gen_leaf(g, l, e, true),
        ComponentKind::ControlFlow(f) => gen_control(g, f, e),
        ComponentKind::RuntimeLeaf => gen_runtime_leaf(g, e),
    }
}

/// A tag no table knows: rendered at run time from the registry by
/// tag and `id`.
pub open spec fn gen_runtime_leaf(g: Gen, e: SElement) -> Result<Seq<char>, SError> {
    match find_attr(e.attrs, "id"@) {
        None => Err(
            el_err(
                XmlErrorKind::UnknownAttribute,
                angled(e.tag)
                    + " is not a built-in tag and (as a runtime-registered component) requires an `id` attribute"@
                    + match spec_did_you_mean(e.tag, builtin_tag_names()) {
                    Some(i) => " — did you mean `<"@ + builtin_tag_names()[i] + ">`?"@,
                    None => seq![],
                },
                e,
            ),
        ),
        Some(a) => wrap(
            "::yororen_ui_xml::runtime::render_or_empty("@ + str_lit(e.tag) + ", "@,
            spec_attr_value(a),
            ", "@ + g.cx@ + ")"@,
        ),
    }
}

/// The style statements of a container's first `n` attributes.
#[verifier::opaque]
pub open spec fn container_attrs(
    fixed: Seq<(&'static str, &'static str)>,
    tag: Seq<char>,
    attrs: Seq<SAttr>,
    n: int,
) -> Result<Seq<char>, SError>
    decreases n,
{
    if n <= 0 || n > attrs.len() {
        Ok(seq![])
    } else {
        cat(container_attrs(fixed, tag, attrs, n - 1), spec_container_attr(attrs[n - 1], fixed, tag))
    }
}

/// A container: a `gpui::div()` with its style attributes applied and
/// its children appended, `If`/`ElseIf`/`Else` runs merged.
#[verifier::opaque]
pub open spec fn gen_container(g: Gen, fixed: Seq<(&'static str, &'static str)>, e: SElement) -> Result<
    Seq<char>,
    SError,
>
    decreases esize(e), 3int,
{
    wrap(
        "{ let __el = gpui::div(); "@,
        cat(container_attrs(fixed, e.tag, e.attrs, e.attrs.len() as int), kids_code(g, e.children, 0)),
        " __el }"@,
    )
}

/// The child statements for `kids[i..]`, each run of `If`/`ElseIf`/
/// `Else` siblings becoming one `if` chain.
#[verifier::opaque]
pub open spec fn kids_code(g: Gen, kids: Seq<SNode>, i: int) -> Result<Seq<char>, SError>
    decreases ksize(kids), 2 * kids.len() - i + 10,
{
    if i < 0 || i >= kids.len() {
        Ok(seq![])
    } else {
        proof {
            lemma_run_end(kids, i);
        }
        cat(kids_item(g, kids, i), kids_code(g, kids, kids_next(kids, i)))
    }
}

/// Where the child statement for `kids[i]` ends: after its if-chain
/// run, or after it.
pub open spec fn kids_next(kids: Seq<SNode>, i: int) -> int {
    if is_if_node(kids[i]) {
        run_end(kids, i)
    } else {
        i + 1
    }
}

/// The child statement starting at `kids[i]`.
#[verifier::opaque]
pub open spec fn kids_item(g: Gen, kids: Seq<SNode>, i: int) -> Result<Seq<char>, SError>
    decreases ksize(kids), 2 * kids.len() - i + 9,
{
    if i < 0 || i >= kids.len() {
        Ok(seq![])
    } else if is_if_node(kids[i]) {
        proof {
            lemma_run_end(kids, i);
        }
        wrap("let __el = ::gpui::ParentElement::child(__el, "@, if_chain(g, kids, i, run_end(kids, i)), ");"@)
    } else {
        proof {
            lemma_ksize_index(kids, i);
        }
        wrap("let __el = ::gpui::ParentElement::child(__el, "@, gen_child(g, kids[i]), ");"@)
    }
}

/// The branches `kids[i..j]` joined into one block expression, ending
/// in an empty `else` when the last branch is not an `<Else>`.
#[verifier::opaque]
pub open spec fn if_chain(g: Gen, kids: Seq<SNode>, i: int, j: int) -> Result<Seq<char>, SError>
    decreases ksize(kids), j + 6,
{
    let ok = 0 <= i < j <= kids.len();
    let last_else = ok && (kids[j - 1] matches SNode::Element(x) && x.tag == "Else"@);
    wrap(
        "{ "@,
        if ok {
            chain_body(g, kids, i, j)
        } else {
            Ok(seq![])
        },
        (if last_else {
            seq![]
        } else {
            " else { ::gpui::IntoElement::into_any_element(gpui::div()) }"@
        }) + " }"@,
    )
}

/// The branch kind of an if-chain tag.
pub open spec fn branch_kind(tag: Seq<char>) -> Result<ControlFlowDef, SError> {
    if tag == "If"@ {
        Ok(ControlFlowDef::If)
    } else if tag == "ElseIf"@ {
        Ok(ControlFlowDef::ElseIf)
    } else if tag == "Else"@ {
        Ok(ControlFlowDef::Else)
    } else {
        Err(serr(XmlErrorKind::Unsupported, "unexpected tag in if-chain: "@ + angled(tag), None))
    }
}

/// The branches `kids[i..j]` one after the other; the first must be
/// an `<If>`.
#[verifier::opaque]
pub open spec fn chain_body(g: Gen, kids: Seq<SNode>, i: int, j: int) -> Result<Seq<char>, SError>
    decreases ksize(kids), j + 5,
{
    if j <= i || j > kids.len() || i < 0 {
        Ok(seq![])
    } else {
        cat(chain_body(g, kids, i, j - 1), chain_item(g, kids, i, j - 1))
    }
}

/// Branch `kids[k]` of a chain starting at `i`.
#[verifier::opaque]
pub open spec fn chain_item(g: Gen, kids: Seq<SNode>, i: int, k: int) -> Result<Seq<char>, SError>
    decreases ksize(kids), k + 5,
{
    if k < 0 || k >= kids.len() {
        Ok(seq![])
    } else {
        match kids[k] {
            SNode::Element(x) => match branch_kind(x.tag) {
                Err(err) => Err(err),
                Ok(kind) => {
                    proof {
                        lemma_ksize_index(kids, k);
                        lemma_nsize_element(x);
                    }
                    match if_branch(g, kind, x) {
                        Err(err) => Err(err),
                        Ok(b) => if k == i && x.tag != "If"@ {
                            Err(
                                el_err(
                                    XmlErrorKind::Unsupported,
                                    angled(x.tag) + " cannot start a chain — use <If> first"@,
                                    x,
                                ),
                            )
                        } else {
                            Ok(b)
                        },
                    }
                },
            },
            _ => Err(
                serr(
                    XmlErrorKind::Unsupported,
                    "<If>/<ElseIf>/<Else> chain cannot contain non-element nodes"@,
                    None,
                ),
            ),
        }
    }
}

pub open spec fn branch_name(kind: ControlFlowDef) -> Seq<char> {
    match kind {
        ControlFlowDef::If => "If"@,
        ControlFlowDef::ElseIf => "ElseIf"@,
        _ => "Else"@,
    }
}

/// One branch of an if chain: `if c { … }`, `else if c { … }` or
/// `else { … }`, the body turned into an `AnyElement`.
#[verifier::opaque]
pub open spec fn if_branch(g: Gen, kind: ControlFlowDef, e: SElement) -> Result<Seq<char>, SError>
    decreases esize(e), 2int,
{
    let cond = if kind == ControlFlowDef::Else {
        Ok(seq![])
    } else {
        match find_attr(e.attrs, "condition"@) {
            None => Err(
                el_err(
                    XmlErrorKind::UnknownAttribute,
                    "<"@ + branch_name(kind) + "> requires a `condition={...}` attribute"@,
                    e,
                ),
            ),
            Some(a) => spec_attr_expr_only(a),
        }
    };
    match cond {
        Err(x) => Err(x),
        Ok(c) => if e.children.len() == 0 {
            Err(
                el_err(
                    XmlErrorKind::Unsupported,
                    "if/else branch must contain at least one child"@,
                    e,
                ),
            )
        } else {
            match seq_code(g, e.children) {
                Err(x) => Err(x),
                Ok(body) => {
                    let bb = "::gpui::IntoElement::into_any_element("@ + body + ")"@;
                    Ok(
                        match kind {
                            ControlFlowDef::If => "if "@ + c + " { "@ + bb + " }"@,
                            ControlFlowDef::ElseIf => "else if "@ + c + " { "@ + bb + " }"@,
                            _ => "else { "@ + bb + " }"@,
                        },
                    )
                },
            }
        },
    }
}

/// A child node's expression: an element's code, a spliced
/// expression, or a text as a string literal.
#[verifier::opaque]
pub open spec fn gen_child(g: Gen, n: SNode) -> Result<Seq<char>, SError>
    decreases nsize(n), 5int,
{
    match n {
        SNode::Element(x) => {
            proof {
                lemma_nsize_element(x);
            }
            gen_element(g, x)
        },
        SNode::Expr { expr, offset } => spec_ts(expr, offset, "child expression"@),
        SNode::Text { text, .. } => Ok(str_lit(text)),
    }
}

/// A child node's expression, a leaf left as its rendered type.
#[verifier::opaque]
pub open spec fn gen_child_unwrapped(g: Gen, n: SNode) -> Result<Seq<char>, SError>
    decreases nsize(n), 5int,
{
    match n {
        SNode::Element(x) => {
            proof {
                lemma_nsize_element(x);
            }
            match kind_of(g, x.tag) {
            ComponentKind::Leaf(l) => gen_leaf(g, l, x, false),
            _ => gen_element(g, x),
        }},
        SNode::Expr { expr, offset } => spec_ts(expr, offset, "child expression"@),
        SNode::Text { text, .. } => Ok(str_lit(text)),
    }
}

/// Children as one element: nothing is an empty `gpui::div()`, one
/// child is itself, more are appended to a fresh `gpui::div()`.
#[verifier::opaque]
pub open spec fn seq_code(g: Gen, kids: Seq<SNode>) -> Result<Seq<char>, SError>
    decreases ksize(kids), kids.len() + 11,
{
    if kids.len() == 0 {
        Ok("gpui::div()"@)
    } else if kids.len() == 1 {
        proof {
            lemma_ksize_index(kids, 0);
        }
        gen_child(g, kids[0])
    } else {
        wrap("{ let __el = gpui::div(); "@, seq_stmts(g, kids, kids.len() as int), " __el }"@)
    }
}

/// The child statements of the first `n` children.
#[verifier::opaque]
pub open spec fn seq_stmts(g: Gen, kids: Seq<SNode>, n: int) -> Result<Seq<char>, SError>
    decreases ksize(kids), n + 10,
{
    if n <= 0 || n > kids.len() {
        Ok(seq![])
    } else {
        proof {
            lemma_ksize_index(kids, n - 1);
        }
        cat(seq_stmts(g, kids, n - 1), wrap("let __el = ::gpui::ParentElement::child(__el, "@, gen_child(g, kids[n - 1]), ");"@))
    }
}

/// The pseudo-tags.
#[verifier::opaque]
pub open spec fn gen_control(g: Gen, f: ControlFlowDef, e: SElement) -> Result<Seq<char>, SError>
    decreases esize(e), 3int,
{
    match f {
        ControlFlowDef::If => if_branch(g, f, e),
        ControlFlowDef::ElseIf => if_branch(g, f, e),
        ControlFlowDef::Else => if_branch(g, f, e),
        ControlFlowDef::For => gen_for(g, e),
        ControlFlowDef::Fragment => seq_code(g, e.children),
        ControlFlowDef::Template => seq_code(g, e.children),
        ControlFlowDef::Slot => Ok(seq![]),
        ControlFlowDef::Match => gen_match(g, e),
        ControlFlowDef::Case => Err(
            el_err(XmlErrorKind::Unsupported, "<Case> must appear directly inside a <Match>"@, e),
        ),
        ControlFlowDef::State => gen_state(g, e),
        ControlFlowDef::VirtualList => gen_virtual_list(g, e, false),
        ControlFlowDef::UniformVirtualList => gen_virtual_list(g, e, true),
        ControlFlowDef::Include => Err(
            serr(
                XmlErrorKind::Unsupported,
                "internal error: <Include> should have been expanded before codegen"@,
                None,
            ),
        ),
    }
}

/// The name a `let:`-derived attribute binds: the trimmed brace
/// expression, else the literal, with `default` for an empty one or
/// the normaliser's `true`.
pub open spec fn let_name(a: Option<SAttr>, default: Seq<char>) -> Option<Seq<char>> {
    match a {
        None => None,
        Some(x) => Some(
            match x.expr {
                Some(ex) => if trim(ex).len() == 0 {
                    default
                } else {
                    trim(ex)
                },
                None => if x.raw == "true"@ || x.raw.len() == 0 {
                    default
                } else {
                    x.raw
                },
            },
        ),
    }
}

/// `<For each={xs} let:item let:index key={…}>`: a loop appending one
/// row per item to a fresh `gpui::div()`; with a key each row is keyed
/// by it.
#[verifier::opaque]
pub open spec fn gen_for(g: Gen, e: SElement) -> Result<Seq<char>, SError>
    decreases esize(e), 2int,
{
    match find_attr(e.attrs, "each"@) {
        None => Err(
            el_err(
                XmlErrorKind::UnknownAttribute,
                "<For> requires an `each={...}` attribute"@,
                e,
            ),
        ),
        Some(each) => match spec_attr_expr_only(each) {
            Err(x) => Err(x),
            Ok(ep) => {
                let item = match let_name(find_attr(e.attrs, "let_item"@), "item"@) {
                    Some(n) => n,
                    None => "it"@,
                };
                let index = match let_name(find_attr(e.attrs, "let_index"@), "i"@) {
                    Some(n) => n,
                    None => "i"@,
                };
                let has_index = find_attr(e.attrs, "let_index"@) is Some;
                let key = match find_attr(e.attrs, "key"@) {
                    None => Ok(None),
                    Some(k) => if k.expr is None {
                        Err(
                            serr(
                                XmlErrorKind::InvalidExpression,
                                "<For key> requires a brace expression, e.g. `key={item.id}`"@,
                                Some(k.offset),
                            ),
                        )
                    } else {
                        match spec_attr_expr_only(k) {
                            Ok(kp) => Ok(Some(kp)),
                            Err(x) => Err(x),
                        }
                    },
                };
                match key {
                    Err(x) => Err(x),
                    Ok(kp) => if e.children.len() == 0 {
                        Err(
                            el_err(
                                XmlErrorKind::Unsupported,
                                "<For> must contain at least one child"@,
                                e,
                            ),
                        )
                    } else {
                        match seq_code(g, e.children) {
                            Err(x) => Err(x),
                            Ok(child) => Ok(for_loop(ep, item, index, has_index, kp, child)),
                        }
                    },
                }
            },
        },
    }
}

/// The loop `<For>` expands to.
pub open spec fn for_loop(
    each: Seq<char>,
    item: Seq<char>,
    index: Seq<char>,
    has_index: bool,
    key: Option<Seq<char>>,
    child: Seq<char>,
) -> Seq<char> {
    let row = match key {
        Some(k) => "{ let __row = gpui::div(); let __row = ::gpui::InteractiveElement::id(__row, format!(\"for_row_{}\", "@
            + k + ")); ::gpui::ParentElement::child(__row, "@ + child + ") }"@,
        None => "{ let __row = gpui::div(); ::gpui::ParentElement::child(__row, "@ + child + ") }"@,
    };
    if has_index {
        "{ let mut __div = gpui::div(); for (__i, "@ + item + ") in ("@ + each
            + ").iter().enumerate() { let "@ + index + " = __i; __div = ::gpui::ParentElement::child(__div, "@
            + row + "); } __div }"@
    } else {
        "{ let mut __div = gpui::div(); for "@ + item + " in ("@ + each
            + ").iter() { __div = ::gpui::ParentElement::child(__div, "@ + row + "); } __div }"@
    }
}

/// `<Match on={v}>` with `<Case pattern=…>` arms: a Rust `match`.
#[verifier::opaque]
pub open spec fn gen_match(g: Gen, e: SElement) -> Result<Seq<char>, SError>
    decreases esize(e), 2int,
{
    match find_attr(e.attrs, "on"@) {
        None => Err(
            el_err(
                XmlErrorKind::UnknownAttribute,
                "<Match> requires an `on={...}` attribute (the value being matched)"@,
                e,
            ),
        ),
        Some(on) => match spec_attr_expr_only(on) {
            Err(x) => Err(x),
            Ok(op) => match match_arms(g, e.children, e.children.len() as int) {
                Err(x) => Err(x),
                Ok(arms) => if e.children.len() == 0 {
                    Err(
                        el_err(
                            XmlErrorKind::Unsupported,
                            "<Match> must contain at least one <Case>"@,
                            e,
                        ),
                    )
                } else {
                    Ok("match ("@ + op + ") { "@ + arms + " }"@)
                },
            },
        },
    }
}

/// The pattern of a `<Case>`: `_`, a brace expression, or the literal
/// as a string literal.
pub open spec fn case_pattern(a: SAttr) -> Result<Seq<char>, SError> {
    if a.expr is None && a.raw == "_"@ {
        Ok("_"@)
    } else if a.expr is Some {
        spec_attr_expr_only(a)
    } else {
        Ok(str_lit(a.raw))
    }
}

/// The arms for the first `n` children of a `<Match>`.
#[verifier::opaque]
pub open spec fn match_arms(g: Gen, kids: Seq<SNode>, n: int) -> Result<Seq<char>, SError>
    decreases ksize(kids), n + 10,
{
    if n <= 0 || n > kids.len() {
        Ok(seq![])
    } else {
        cat(match_arms(g, kids, n - 1), match_arm(g, kids, n - 1))
    }
}

/// The arm for `kids[k]`, which must be a `<Case>`.
#[verifier::opaque]
pub open spec fn match_arm(g: Gen, kids: Seq<SNode>, k: int) -> Result<Seq<char>, SError>
    decreases ksize(kids), k + 10,
{
    if k < 0 || k >= kids.len() {
        Ok(seq![])
    } else {
        match kids[k] {
            SNode::Element(x) => if x.tag == "Case"@ {
                match find_attr(x.attrs, "pattern"@) {
                    None => Err(
                        el_err(
                            XmlErrorKind::UnknownAttribute,
                            "<Case> requires a `pattern={...}` attribute"@,
                            x,
                        ),
                    ),
                    Some(pa) => match case_pattern(pa) {
                        Err(err) => Err(err),
                        Ok(pat) => if x.children.len() == 0 {
                            Err(
                                el_err(
                                    XmlErrorKind::Unsupported,
                                    "<Case> must contain at least one child"@,
                                    x,
                                ),
                            )
                        } else {
                            proof {
                                lemma_ksize_index(kids, k);
                                lemma_nsize_element(x);
                            }
                            match seq_code(g, x.children) {
                                Err(err) => Err(err),
                                Ok(body) => Ok(pat + " => { "@ + body + " },"@),
                            }
                        },
                    },
                }
            } else {
                Err(
                    el_err(
                        XmlErrorKind::Unsupported,
                        angled(x.tag) + " is not a valid arm of <Match> — use <Case>"@,
                        x,
                    ),
                )
            },
            _ => Err(serr(XmlErrorKind::Unsupported, "<Match> arms must be <Case> elements"@, None)),
        }
    }
}

/// `str::parse::<i64>` rendered as an `i64`-suffixed literal.
pub open spec fn i64_lit(raw: Seq<char>) -> Option<Seq<char>> {
    let neg = raw.len() > 0 && raw[0] == '-';
    let d = unsign(raw);
    if d.len() > 0 && all_digits(d) && (if neg {
        dec_num(d) <= 0x8000_0000_0000_0000
    } else {
        dec_num(d) <= 0x7fff_ffff_ffff_ffff
    }) {
        Some(
            (if neg && dec_num(d) > 0 {
                "-"@
            } else {
                seq![]
            }) + decimal(dec_num(d)) + "i64"@,
        )
    } else {
        None
    }
}

/// The initial value of a `<State default="…">` literal: a boolean, a
/// float (when it has a `.`), an integer, else a `String`.
pub open spec fn state_literal(raw: Seq<char>) -> Seq<char> {
    if raw == "true"@ {
        "true"@
    } else if raw == "false"@ {
        "false"@
    } else if raw.contains('.') && float_lit(raw, "f64"@) is Some {
        float_lit(raw, "f64"@)->0
    } else if i64_lit(raw) is Some {
        i64_lit(raw)->0
    } else {
        "String::from("@ + str_lit(raw) + ")"@
    }
}

/// `<State name="n" default="…">`: a local entity made with the app
/// context, in scope for the children.
#[verifier::opaque]
pub open spec fn gen_state(g: Gen, e: SElement) -> Result<Seq<char>, SError>
    decreases esize(e), 2int,
{
    match find_attr(e.attrs, "name"@) {
        None => Err(
            el_err(
                XmlErrorKind::UnknownAttribute,
                "<State> requires a `name=\"...\"` attribute"@,
                e,
            ),
        ),
        Some(na) => if na.expr is Some {
            Err(
                serr(
                    XmlErrorKind::Unsupported,
                    "<State name> requires a literal identifier, not a brace expression"@,
                    Some(na.offset),
                ),
            )
        } else {
            match find_attr(e.attrs, "default"@) {
                None => Err(
                    el_err(
                        XmlErrorKind::UnknownAttribute,
                        "<State> requires a `default=\"...\"` attribute (initial value)"@,
                        e,
                    ),
                ),
                Some(da) => {
                    let dv = match da.expr {
                        Some(x) => spec_ts(x, da.offset, "<State default>"@),
                        None => Ok(state_literal(da.raw)),
                    };
                    match dv {
                        Err(x) => Err(x),
                        Ok(d) => match seq_code(g, e.children) {
                            Err(x) => Err(x),
                            Ok(body) => Ok(
                                "{ let "@ + na.raw + " = ("@ + g.cx@ + ").new(|_| "@ + d + "); "@
                                    + body + " }"@,
                            ),
                        },
                    }
                },
            }
        },
    }
}


/// The names a virtual list keeps for itself; its other attributes
/// style the rendered list.
pub open spec fn vl_own_attrs() -> Seq<Seq<char>> {
    seq![
        "id"@, "item_count"@, "overdraw"@, "alignment"@, "on_visible_range_change"@, "let_item"@,
        "let_index"@, "controller"@, "row"@
    ]
}

/// The style statements of the first `n` attributes whose names are
/// not in `own`.
pub open spec fn pass_through(attrs: Seq<SAttr>, own: Seq<Seq<char>>, tag: Seq<char>, n: int) -> Result<
    Seq<char>,
    SError,
>
    decreases n,
{
    if n <= 0 || n > attrs.len() {
        Ok(seq![])
    } else {
        cat(
            pass_through(attrs, own, tag, n - 1),
            if own.contains(attrs[n - 1].name) {
                Ok(seq![])
            } else {
                spec_container_attr(attrs[n - 1], seq![], tag)
            },
        )
    }
}

/// `<n>usize => { <child> }` for the first `n` children.
#[verifier::opaque]
pub open spec fn vl_arms(g: Gen, kids: Seq<SNode>, n: int) -> Result<Seq<char>, SError>
    decreases ksize(kids), n + 10,
{
    if n <= 0 || n > kids.len() {
        Ok(seq![])
    } else {
        proof {
            lemma_ksize_index(kids, n - 1);
        }
        cat(
            vl_arms(g, kids, n - 1),
            wrap(decimal((n - 1) as nat) + "usize => { "@, gen_child(g, kids[n - 1]), " }"@),
        )
    }
}

/// The item count and row closure of a virtual list: an explicit
/// `row` closure with `item_count`, the children as a row template
/// with `item_count`, or one row per child.
#[verifier::opaque]
pub open spec fn vl_rows(g: Gen, e: SElement) -> Result<(Seq<char>, Seq<char>), SError>
    decreases esize(e), 1int,
{
    let count = find_attr(e.attrs, "item_count"@);
    let row = find_attr(e.attrs, "row"@);
    if row is Some && count is Some {
        match spec_attr_expr_only(count->0) {
            Err(x) => Err(x),
            Ok(c) => match spec_attr_expr_only(row->0) {
                Err(x) => Err(x),
                Ok(r) => if e.children.len() > 0 {
                    Err(
                        el_err(
                            XmlErrorKind::Unsupported,
                            angled(e.tag)
                                + " `row={...}` cannot be used together with children; remove the children or use `item_count={...}` with children instead"@,
                            e,
                        ),
                    )
                } else {
                    Ok((c, r))
                },
            },
        }
    } else if row is Some {
        Err(
            el_err(
                XmlErrorKind::Unsupported,
                angled(e.tag) + " `row={...}` requires an `item_count={...}` attribute"@,
                e,
            ),
        )
    } else if count is Some {
        match spec_attr_expr_only(count->0) {
            Err(x) => Err(x),
            Ok(c) => if e.children.len() == 0 {
                Err(
                    el_err(
                        XmlErrorKind::Unsupported,
                        angled(e.tag)
                            + " with `item_count` must contain at least one child (the row template)"@,
                        e,
                    ),
                )
            } else {
                let index = match let_name(find_attr(e.attrs, "let_index"@), "index"@) {
                    Some(n) => n,
                    None => "index"@,
                };
                let bind = match let_name(find_attr(e.attrs, "let_item"@), "item"@) {
                    Some(it) => "let "@ + it + ": usize = "@ + index + ";"@,
                    None => seq![],
                };
                match seq_code(g, e.children) {
                    Err(x) => Err(x),
                    Ok(body) => Ok(
                        (
                            c,
                            "move |"@ + index
                                + ": usize, window: &mut ::gpui::Window, cx: &mut ::gpui::App| -> ::gpui::AnyElement { "@
                                + bind + " ::gpui::IntoElement::into_any_element("@ + body + ") }"@,
                        ),
                    ),
                }
            },
        }
    } else if e.children.len() == 0 {
        Err(
            el_err(
                XmlErrorKind::Unsupported,
                angled(e.tag)
                    + " requires either an `item_count={...}` attribute or at least one child row"@,
                e,
            ),
        )
    } else {
        match vl_arms(g, e.children, e.children.len() as int) {
            Err(x) => Err(x),
            Ok(arms) => Ok(
                (
                    decimal(e.children.len()) + "usize"@,
                    "move |__ix: usize, window: &mut ::gpui::Window, cx: &mut ::gpui::App| -> ::gpui::AnyElement { ::gpui::IntoElement::into_any_element(match __ix { "@
                        + arms + " _ => ::gpui::div(), }) }"@,
                ),
            ),
        }
    }
}

/// The default overdraw of a virtual list, `::gpui::px(16.)`.
pub open spec fn default_overdraw() -> Seq<char> {
    "::gpui::px(16"@ + "."@ + ")"@
}

/// The `ListAlignment` of a heterogeneous virtual list.
pub open spec fn vl_alignment(e: SElement) -> Result<Seq<char>, SError> {
    match find_attr(e.attrs, "alignment"@) {
        None => Ok("::gpui::ListAlignment::Top"@),
        Some(a) => if a.raw == "bottom"@ {
            Ok("::gpui::ListAlignment::Bottom"@)
        } else if a.raw == "top"@ || a.raw.len() == 0 {
            Ok("::gpui::ListAlignment::Top"@)
        } else {
            Err(
                serr(
                    XmlErrorKind::Unsupported,
                    angled(e.tag) + " alignment must be \"top\" or \"bottom\", got "@ + ticked(a.raw),
                    Some(a.offset),
                ),
            )
        },
    }
}

/// The optional attributes of a virtual list: overdraw, alignment
/// (heterogeneous only), the visible-range handler (heterogeneous
/// only) and an external controller.
pub open spec fn vl_options(e: SElement, uniform: bool) -> Result<
    (Seq<char>, Seq<char>, Seq<char>, Option<Seq<char>>),
    SError,
> {
    let overdraw = match find_attr(e.attrs, "overdraw"@) {
        Some(a) => spec_attr_expr_only(a),
        None => Ok(default_overdraw()),
    };
    let align = if uniform {
        Ok(seq![])
    } else {
        vl_alignment(e)
    };
    let range = if uniform {
        Ok(seq![])
    } else {
        match find_attr(e.attrs, "on_visible_range_change"@) {
            None => Ok(seq![]),
            Some(a) => match spec_attr_expr_only(a) {
                Err(x) => Err(x),
                Ok(x) => {
                    let (ps, args) = event_params("on_visible_range_change"@, "VirtualList"@);
                    Ok(".on_visible_range_change("@ + wrap_closure(a.expr, x, ps, args) + ")"@)
                },
            },
        }
    };
    let ctl = match find_attr(e.attrs, "controller"@) {
        None => Ok(None),
        Some(a) => match spec_attr_expr_only(a) {
            Err(x) => Err(x),
            Ok(x) => Ok(Some(x)),
        },
    };
    match overdraw {
        Err(x) => Err(x),
        Ok(o) => match align {
            Err(x) => Err(x),
            Ok(al) => match range {
                Err(x) => Err(x),
                Ok(rg) => match ctl {
                    Err(x) => Err(x),
                    Ok(c) => Ok((o, al, rg, c)),
                },
            },
        },
    }
}

pub open spec fn vl_path(uniform: bool) -> Seq<char> {
    if uniform {
        "::yororen_ui::headless::virtual_list::uniform_virtual_list"@
    } else {
        "::yororen_ui::headless::virtual_list::virtual_list"@
    }
}

/// The block a virtual list expands to, from its parts.
pub open spec fn vl_block(
    cx: Seq<char>,
    uniform: bool,
    id: Seq<char>,
    count: Seq<char>,
    row: Seq<char>,
    opts: (Seq<char>, Seq<char>, Seq<char>, Option<Seq<char>>),
    style: Seq<char>,
) -> Seq<char> {
    let (overdraw, align, range, ctl) = opts;
    let init = if uniform {
        "::yororen_ui::headless::virtual_list::UniformVirtualListController::new()"@
    } else {
        "::yororen_ui::headless::virtual_list::VirtualListController::new("@ + count + " as usize, "@
            + align + ", "@ + overdraw + ")"@
    };
    let entity = match ctl {
        Some(x) => "let __entity = ("@ + x + ").clone();"@,
        None => "let __entity = window.use_keyed_state("@ + id + ", "@ + cx + ", |_window, _cx| "@
            + init + ");"@,
    };
    let sync = if uniform {
        seq![]
    } else {
        "let __target_count = ("@ + count + " as usize); __entity.update("@ + cx
            + ", |__c: &mut ::yororen_ui::headless::virtual_list::VirtualListController, _| { let __current = __c.state().item_count(); if __target_count > __current { __c.append(__target_count - __current); } else if __target_count < __current { __c.reset(__target_count); } });"@
    };
    let call = if uniform {
        vl_path(uniform) + "("@ + id + ", "@ + count + " as usize, &__snap, "@ + cx + ")"@
    } else {
        vl_path(uniform) + "("@ + id + ", &__snap, "@ + cx + ")"@
    };
    "{ "@ + entity + " "@ + sync + " let __snap = __entity.read("@ + cx
        + ").clone(); let mut __props = "@ + call + "; __props = __props.row("@ + row
        + "); __props = __props"@ + range + "; let mut __el = __props.render("@ + cx + "); "@
        + style + " ::gpui::IntoElement::into_any_element(__el) }"@
}

/// `<VirtualList>` / `<UniformVirtualList>`: a virtualized list whose
/// controller persists in keyed element state.
#[verifier::opaque]
pub open spec fn gen_virtual_list(g: Gen, e: SElement, uniform: bool) -> Result<Seq<char>, SError>
    decreases esize(e), 2int,
{
    match find_attr(e.attrs, "id"@) {
        None => Err(
            el_err(
                XmlErrorKind::UnknownAttribute,
                angled(e.tag) + " requires a `id={...}` attribute"@,
                e,
            ),
        ),
        Some(ia) => {
            let id = match ia.expr {
                Some(x) => spec_ts(x, ia.offset, "<VirtualList> id"@),
                None => Ok(owned_lit(ia.raw)),
            };
            match id {
                Err(x) => Err(x),
                Ok(idc) => match vl_rows(g, e) {
                    Err(x) => Err(x),
                    Ok((count, row)) => match vl_options(e, uniform) {
                        Err(x) => Err(x),
                        Ok(opts) => match pass_through(
                            e.attrs,
                            vl_own_attrs(),
                            e.tag,
                            e.attrs.len() as int,
                        ) {
                            Err(x) => Err(x),
                            Ok(style) => Ok(
                                vl_block(g.cx@, uniform, idc, count, row, opts, style),
                            ),
                        },
                    },
                },
            }
        },
    }
}


/// An attribute a positional factory argument needs but the element
/// lacks.
pub open spec fn missing_attr(e: SElement, attr: Seq<char>) -> SError {
    el_err(XmlErrorKind::UnknownAttribute, angled(e.tag) + " requires a "@ + ticked(attr) + " attribute"@, e)
}

/// The prop kind whose literal reading a positional argument kind
/// shares.
pub open spec fn arg_prop_kind(k: ExtraArgKind) -> PropValue {
    match k {
        ExtraArgKind::UInt => PropValue::UInt,
        ExtraArgKind::HeadingLevel => PropValue::HeadingLevel,
        ExtraArgKind::IconSource => PropValue::IconSource,
        ExtraArgKind::ImageSource => PropValue::ImageSource,
        ExtraArgKind::KeybindingInputMode => PropValue::KeybindingInputMode,
        _ => PropValue::Color,
    }
}

/// The value of one positional factory argument of element `e`.
pub open spec fn spec_extra_arg(x: ExtraArg, e: SElement) -> Result<Seq<char>, SError> {
    let fa = find_attr(e.attrs, x.attr@);
    match x.kind {
        ExtraArgKind::Text => match fa {
            Some(a) => spec_text_value(a),
            None => match spec_text_content(e.children) {
                Some(t) => Ok(owned_lit(t)),
                None => Err(
                    el_err(
                        XmlErrorKind::UnknownAttribute,
                        angled(e.tag) + " needs a "@ + ticked(x.attr@)
                            + " attribute or text content"@,
                        e,
                    ),
                ),
            },
        },
        ExtraArgKind::Custom => match fa {
            Some(a) => spec_attr_value(a),
            None => Err(missing_attr(e, x.attr@)),
        },
        ExtraArgKind::Borrow => match fa {
            Some(a) => spec_attr_value(a),
            None => Err(missing_attr(e, x.attr@)),
        },
        ExtraArgKind::StringList => match fa {
            Some(a) => if a.expr is Some {
                spec_attr_value(a)
            } else {
                Err(
                    serr(
                        XmlErrorKind::InvalidExpression,
                        angled(e.tag) + " attribute "@ + ticked(x.attr@)
                            + " requires a brace expression, e.g. "@ + ticked(
                            x.attr@ + "={vec![\"Cmd\".into(), \"S\".into()]}"@,
                        ),
                        Some(a.offset),
                    ),
                )
            },
            None => Err(missing_attr(e, x.attr@)),
        },
        ExtraArgKind::Callback => match fa {
            Some(a) => match spec_attr_value(a) {
                Err(err) => Err(err),
                Ok(v) => {
                    let (ps, args) = default_params();
                    Ok(wrap_closure(a.expr, v, ps, args))
                },
            },
            None => Err(missing_attr(e, x.attr@)),
        },
        _ => match fa {
            Some(a) => spec_prop_value(a, arg_prop_kind(x.kind)),
            None => Err(missing_attr(e, x.attr@)),
        },
    }
}

/// The values of the first `n` positional arguments.
pub open spec fn extra_args_code(l: LeafDef, e: SElement, n: int) -> Result<Seq<Seq<char>>, SError>
    decreases n,
{
    if n <= 0 || n > l.extra_args@.len() {
        Ok(seq![])
    } else {
        match extra_args_code(l, e, n - 1) {
            Err(x) => Err(x),
            Ok(pre) => match spec_extra_arg(l.extra_args@[n - 1], e) {
                Err(x) => Err(x),
                Ok(v) => Ok(pre.push(v)),
            },
        }
    }
}

/// `let mut __el = <factory>(<id>, <positional args>, [cx]);`
pub open spec fn leaf_head(g: Gen, l: LeafDef, e: SElement) -> Result<Seq<char>, SError> {
    match find_attr(e.attrs, "id"@) {
        None => Err(
            el_err(XmlErrorKind::UnknownAttribute, angled(e.tag) + " requires an `id` attribute"@, e),
        ),
        Some(ia) => match spec_attr_value(ia) {
            Err(x) => Err(x),
            Ok(idv) => match extra_args_code(l, e, l.extra_args@.len() as int) {
                Err(x) => Err(x),
                Ok(args) => match spec_ts(l.factory@, e.offset, "factory path for "@ + angled(e.tag)) {
                    Err(x) => Err(x),
                    Ok(f) => Ok(
                        "let mut __el = "@ + f + "("@ + crate::values::join_comma(
                            seq![idv] + args + if l.needs_app {
                                seq![g.cx@]
                            } else {
                                seq![]
                            },
                        ) + ");"@,
                    ),
                },
            },
        },
    }
}

pub open spec fn is_extra_attr(l: LeafDef, name: Seq<char>) -> bool {
    exists|i: int| 0 <= i < l.extra_args@.len() && #[trigger] l.extra_args@[i].attr@ == name
}

pub open spec fn bind_msg() -> Seq<char> {
    "@bind requires a brace expression, e.g. `@bind={self.name}`"@
}

/// `__el = __el.<setter>(<value>);`
pub open spec fn set_stmt(setter: Seq<char>, v: Seq<char>) -> Seq<char> {
    "__el = __el."@ + setter + "("@ + v + ");"@
}

/// A handler with modifiers as a closure over `(__ev, __window, cx)`.
pub open spec fn modified_closure(clone: Option<Seq<char>>, body: Seq<char>) -> Seq<char> {
    match clone {
        Some(st) => "{ "@ + st + " move |__ev, __window, cx| { "@ + body + " } }"@,
        None => "move |__ev, __window, cx| { "@ + body + " }"@,
    }
}

/// The leaf event a modified handler name (`on_key_down.enter`)
/// refers to, by the part before its first dot.
pub open spec fn modified_event(l: LeafDef, name: Seq<char>) -> Option<(&'static str, &'static str)> {
    match spec_split_event_modifiers(name) {
        Some((base, _)) => find_event(l.events@, base),
        None => None,
    }
}

/// The statement one attribute of a leaf contributes before rendering.
pub open spec fn leaf_attr(g: Gen, l: LeafDef, tag: Seq<char>, a: SAttr) -> Result<Seq<char>, SError> {
    if a.name == "id"@ || is_extra_attr(l, a.name) {
        Ok(seq![])
    } else if a.name == "bind"@ {
        match a.expr {
            Some(x) => match spec_ts(x, a.offset, bind_msg()) {
                Err(err) => Err(err),
                Ok(p) => Ok(bind_code(p, l, g.cx@)),
            },
            None => Err(serr(XmlErrorKind::InvalidExpression, bind_msg(), Some(a.offset))),
        }
    } else if find_prop(l.props@, a.name) is Some {
        let p = find_prop(l.props@, a.name)->0;
        if p.value == PropValue::Flag {
            if a.expr is Some {
                Err(
                    serr(
                        XmlErrorKind::InvalidExpression,
                        "attribute "@ + ticked(a.name) + " is a flag (no value) — drop the `={…}`"@,
                        Some(a.offset),
                    ),
                )
            } else if a.raw == "true"@ {
                Ok("__el = __el."@ + p.setter@ + "();"@)
            } else {
                Ok(seq![])
            }
        } else {
            match spec_prop_value(a, p.value) {
                Err(err) => Err(err),
                Ok(v) => Ok(set_stmt(p.setter@, v)),
            }
        }
    } else if find_event(l.events@, a.name) is Some {
        let ev = find_event(l.events@, a.name)->0;
        match spec_attr_expr_only(a) {
            Err(err) => Err(err),
            Ok(x) => {
                let (ps, args) = event_params(ev.1@, tag);
                Ok(set_stmt(ev.1@, wrap_closure(a.expr, x, ps, args)))
            },
        }
    } else if modified_event(l, a.name) is Some {
        let (base, mods) = spec_split_event_modifiers(a.name)->0;
        let ev = find_event(l.events@, base)->0;
        match spec_attr_expr_only(a) {
            Err(err) => Err(err),
            Ok(x) => {
                let (clone, call) = event_call(a.expr, x);
                match wrap_mods(mods, call) {
                    Err(err) => Err(err),
                    Ok(body) => Ok(set_stmt(ev.1@, modified_closure(clone, body))),
                }
            },
        }
    } else if leaf_style_attr(a.name, l) {
        Ok(seq![])
    } else {
        Err(
            serr(
                XmlErrorKind::UnknownAttribute,
                "unknown attribute "@ + ticked(a.name) + " on "@ + angled(tag) + "; accepted: "@
                    + accepted_leaf(l) + hint(a.name, accepted_leaf(l)),
                Some(a.offset),
            ),
        )
    }
}

/// The statements of the first `n` attributes of a leaf.
pub open spec fn leaf_attrs(g: Gen, l: LeafDef, tag: Seq<char>, attrs: Seq<SAttr>, n: int) -> Result<
    Seq<char>,
    SError,
>
    decreases n,
{
    if n <= 0 || n > attrs.len() {
        Ok(seq![])
    } else {
        cat(leaf_attrs(g, l, tag, attrs, n - 1), leaf_attr(g, l, tag, attrs[n - 1]))
    }
}

/// The first slot of a leaf named `name`.
pub open spec fn find_slot(slots: Seq<crate::schema::SlotDef>, name: Seq<char>) -> Option<
    crate::schema::SlotDef,
>
    decreases slots.len(),
{
    if slots.len() == 0 {
        None
    } else if slots[0].name@ == name {
        Some(slots[0])
    } else {
        find_slot(slots.drop_first(), name)
    }
}

/// The slot a child fills: an element whose `slot="…"` names one of
/// the leaf's slots.
pub open spec fn slot_of(l: LeafDef, n: SNode) -> Option<crate::schema::SlotDef> {
    match n {
        SNode::Element(x) => match find_attr(x.attrs, "slot"@) {
            Some(sa) => find_slot(l.slots@, sa.raw),
            None => None,
        },
        _ => None,
    }
}

/// Attributes without the ones named `name`.
pub open spec fn without(attrs: Seq<SAttr>, name: Seq<char>) -> Seq<SAttr>
    decreases attrs.len(),
{
    if attrs.len() == 0 {
        seq![]
    } else {
        without(attrs.drop_last(), name) + if attrs.last().name == name {
            seq![]
        } else {
            seq![attrs.last()]
        }
    }
}

/// The children that fill no slot, in order.
pub open spec fn remaining(l: LeafDef, kids: Seq<SNode>) -> Seq<SNode>
    decreases kids.len(),
{
    if kids.len() == 0 {
        seq![]
    } else {
        remaining(l, kids.drop_last()) + if slot_of(l, kids.last()) is Some {
            seq![]
        } else {
            seq![kids.last()]
        }
    }
}

pub proof fn lemma_remaining_size(l: LeafDef, kids: Seq<SNode>)
    ensures
        ksize(remaining(l, kids)) <= ksize(kids),
    decreases kids.len(),
{
    reveal(crate::ast::ksize);
    if kids.len() > 0 {
        lemma_remaining_size(l, kids.drop_last());
        let r = remaining(l, kids.drop_last());
        if slot_of(l, kids.last()) is Some {
            assert(remaining(l, kids) =~= r);
        } else {
            assert(remaining(l, kids) =~= r.push(kids.last()));
            assert(remaining(l, kids).drop_last() =~= r);
        }
    }
}

/// Whether a `Text` positional argument of the leaf has no attribute on
/// `e`, so that the element's text content is that argument.
pub open spec fn text_consumed(l: LeafDef, e: SElement) -> bool {
    exists|i: int|
        0 <= i < l.extra_args@.len() && (#[trigger] l.extra_args@[i]).kind == ExtraArgKind::Text
            && find_attr(e.attrs, l.extra_args@[i].attr@) is None
}

/// `kids` without its text nodes, in order.
pub open spec fn without_text(kids: Seq<SNode>) -> Seq<SNode>
    decreases kids.len(),
{
    if kids.len() == 0 {
        seq![]
    } else {
        without_text(kids.drop_last()) + if kids.last() is Text {
            seq![]
        } else {
            seq![kids.last()]
        }
    }
}

pub proof fn lemma_without_text_size(kids: Seq<SNode>)
    ensures
        ksize(without_text(kids)) <= ksize(kids),
    decreases kids.len(),
{
    reveal(crate::ast::ksize);
    if kids.len() > 0 {
        lemma_without_text_size(kids.drop_last());
        let r = without_text(kids.drop_last());
        if kids.last() is Text {
            assert(without_text(kids) =~= r);
        } else {
            assert(without_text(kids) =~= r.push(kids.last()));
            assert(without_text(kids).drop_last() =~= r);
        }
    }
}

/// The children of a leaf that go to the builder or follow the render
/// call: those that fill no slot, without the text content when a
/// `Text` positional argument has taken it.
pub open spec fn leaf_kids(l: LeafDef, e: SElement) -> Seq<SNode> {
    if text_consumed(l, e) {
        without_text(remaining(l, e.children))
    } else {
        remaining(l, e.children)
    }
}

pub proof fn lemma_leaf_kids_size(l: LeafDef, e: SElement)
    ensures
        ksize(leaf_kids(l, e)) <= ksize(e.children),
{
    lemma_remaining_size(l, e.children);
    lemma_without_text_size(remaining(l, e.children));
}

/// The slot setters for the first `n` children: each slotted child,
/// without its `slot` attribute, passed to the slot's setter.
#[verifier::opaque]
pub open spec fn slot_stmts(g: Gen, l: LeafDef, kids: Seq<SNode>, n: int) -> Result<Seq<char>, SError>
    decreases ksize(kids), n + 10,
{
    if n <= 0 || n > kids.len() {
        Ok(seq![])
    } else {
        match slot_of(l, kids[n - 1]) {
            None => slot_stmts(g, l, kids, n - 1),
            Some(sd) => match kids[n - 1] {
                SNode::Element(x) => {
                    proof {
                        lemma_ksize_index(kids, n - 1);
                        lemma_nsize_element(x);
                    }
                    cat(
                        slot_stmts(g, l, kids, n - 1),
                        wrap(
                            "__el = __el."@ + sd.setter@ + "("@,
                            gen_element(g, SElement { attrs: without(x.attrs, "slot"@), ..x }),
                            ");"@,
                        ),
                    )
                },
                _ => slot_stmts(g, l, kids, n - 1),
            },
        }
    }
}

/// Children given to the builder before rendering, the first `n`.
#[verifier::opaque]
pub open spec fn before_stmts(g: Gen, l: LeafDef, e: SElement, kids: Seq<SNode>, n: int) -> Result<
    Seq<char>,
    SError,
>
    decreases ksize(kids), n + 10,
{
    if n <= 0 || n > kids.len() {
        Ok(seq![])
    } else {
        proof {
            lemma_ksize_index(kids, n - 1);
        }
        cat(
            before_stmts(g, l, e, kids, n - 1),
            match kids[n - 1] {
                SNode::Text { .. } => Err(
                    el_err(
                        XmlErrorKind::Unsupported,
                        angled(e.tag) + " does not support text content; use a <Label> child"@,
                        e,
                    ),
                ),
                _ => wrap(
                    "__el = __el.child("@,
                    if l.unwrap_children {
                        gen_child_unwrapped(g, kids[n - 1])
                    } else {
                        gen_child(g, kids[n - 1])
                    },
                    ");"@,
                ),
            },
        )
    }
}

/// Children appended after rendering, from `kids[i..]`: if-chains
/// merged, the text content added once (where the leaf takes text).
#[verifier::opaque]
pub open spec fn tail_code(g: Gen, l: LeafDef, e: SElement, kids: Seq<SNode>, i: int, added: bool) -> Result<
    Seq<char>,
    SError,
>
    decreases ksize(kids), 2 * kids.len() - i + 10,
{
    if i < 0 || i >= kids.len() {
        Ok(seq![])
    } else if is_if_node(kids[i]) {
        proof {
            lemma_run_end(kids, i);
        }
        let j = run_end(kids, i);
        cat(wrap("let __el = ::gpui::ParentElement::child(__el, "@, if_chain(g, kids, i, j), ");"@), tail_code(g, l, e, kids, j, added))
    } else {
        match kids[i] {
            SNode::Text { .. } => if l.supports_text_child {
                let t = spec_text_content(kids);
                if t is Some && !added {
                    cat(Ok(child_stmt(str_lit(t->0))), tail_code(g, l, e, kids, i + 1, true))
                } else {
                    tail_code(g, l, e, kids, i + 1, added)
                }
            } else {
                Err(
                    el_err(
                        XmlErrorKind::Unsupported,
                        angled(e.tag) + " does not support text content; wrap text in a <Label>"@,
                        e,
                    ),
                )
            },
            _ => {
                proof {
                    lemma_ksize_index(kids, i);
                }
                cat(wrap("let __el = ::gpui::ParentElement::child(__el, "@, gen_child(g, kids[i]), ");"@), tail_code(g, l, e, kids, i + 1, added))
            },
        }
    }
}

pub open spec fn has_submit(e: SElement) -> bool {
    e.tag == "Form"@ && find_attr(e.attrs, "submit"@) is Some
}

/// The render call of a leaf.
pub open spec fn render_stmt(g: Gen, l: LeafDef) -> Seq<char> {
    if l.render == RenderMode::Default {
        if l.needs_window {
            "let __el = __el.render(&mut *"@ + g.cx@ + ", &mut *window);"@
        } else {
            "let __el = __el.render(&*"@ + g.cx@ + ");"@
        }
    } else {
        seq![]
    }
}

/// The render call of a leaf, preceded by the submit button's
/// creation on a form that has one.
pub open spec fn leaf_mid(g: Gen, l: LeafDef, e: SElement) -> Seq<char> {
    (if has_submit(e) {
        "let __form_submit_btn = __el.submit_button(&mut *"@ + g.cx@ + ");"@
    } else {
        seq![]
    }) + render_stmt(g, l)
}

/// The end of a leaf block: the submit button appended where there is
/// one, then the element, converted when `wrap_any`.
pub open spec fn leaf_end(e: SElement, wrap_any: bool) -> Seq<char> {
    (if has_submit(e) {
        "let __el = if let Some(__btn) = __form_submit_btn { ::gpui::ParentElement::child(__el, __btn) } else { __el };"@
    } else {
        seq![]
    }) + if wrap_any {
        "::gpui::IntoElement::into_any_element(__el)"@
    } else {
        "__el"@
    }
}

/// The pass-through style statements of a leaf that renders itself.
pub open spec fn leaf_style(l: LeafDef, e: SElement) -> Result<Seq<char>, SError> {
    if l.render == RenderMode::Default {
        style_stmts(l, e.tag, e.attrs, e.attrs.len() as int)
    } else {
        Ok(seq![])
    }
}

/// `{ head attrs slots before mid style tail end }`, or the first error.
pub open spec fn leaf_block(
    head: Result<Seq<char>, SError>,
    attrs: Result<Seq<char>, SError>,
    slots: Result<Seq<char>, SError>,
    before: Result<Seq<char>, SError>,
    mid: Seq<char>,
    style: Result<Seq<char>, SError>,
    tail: Result<Seq<char>, SError>,
    end: Seq<char>,
) -> Result<Seq<char>, SError> {
    wrap(
        "{ "@,
        cat(head, cat(attrs, cat(slots, cat(before, cat(Ok(mid), cat(style, cat(tail, Ok(end)))))))),
        " }"@,
    )
}

/// A leaf from the code of its recursive parts: the factory call,
/// setters, slots and pre-render children, the render call, style
/// pass-through, post-render children, and, when `wrap_any`, the
/// conversion into an `AnyElement`.
pub open spec fn leaf_assemble(
    g: Gen,
    l: LeafDef,
    e: SElement,
    wrap_any: bool,
    slots: Result<Seq<char>, SError>,
    before: Result<Seq<char>, SError>,
    tail: Result<Seq<char>, SError>,
) -> Result<Seq<char>, SError> {
    leaf_block(
        leaf_head(g, l, e),
        leaf_attrs(g, l, e.tag, e.attrs, e.attrs.len() as int),
        slots,
        before,
        leaf_mid(g, l, e),
        leaf_style(l, e),
        tail,
        leaf_end(e, wrap_any),
    )
}

/// A leaf element; its slotted children fill the slots, and the others
/// go to the builder before rendering or are appended after it (text
/// content taken by a `Text` positional argument is not added again).
#[verifier::opaque]
pub open spec fn gen_leaf(g: Gen, l: LeafDef, e: SElement, wrap_any: bool) -> Result<Seq<char>, SError>
    decreases esize(e), 3int,
{
    let rem = leaf_kids(l, e);
    let default = l.render == RenderMode::Default;
    proof {
        lemma_leaf_kids_size(l, e);
    }
    leaf_assemble(
        g,
        l,
        e,
        wrap_any,
        slot_stmts(g, l, e.children, e.children.len() as int),
        if l.children_before_render {
            before_stmts(g, l, e, rem, rem.len() as int)
        } else {
            Ok(seq![])
        },
        if default && !l.children_before_render && rem.len() > 0 {
            tail_code(g, l, e, rem, 0, false)
        } else {
            Ok(seq![])
        },
    )
}

/// The style statements for a leaf's first `n` pass-through attributes.
pub open spec fn style_stmts(l: LeafDef, tag: Seq<char>, attrs: Seq<SAttr>, n: int) -> Result<
    Seq<char>,
    SError,
>
    decreases n,
{
    if n <= 0 || n > attrs.len() {
        Ok(seq![])
    } else {
        cat(
            style_stmts(l, tag, attrs, n - 1),
            if leaf_style_attr(attrs[n - 1].name, l) {
                spec_container_attr(attrs[n - 1], seq![], tag)
            } else {
                Ok(seq![])
            },
        )
    }
}

} // verus!

verus! {

pub proof fn lemma_kids_code_step(g: Gen, kids: Seq<SNode>, i: int)
    requires
        0 <= i <= kids.len(),
    ensures
        i == kids.len() ==> kids_code(g, kids, i) == Ok::<Seq<char>, SError>(seq![]),
        i < kids.len() ==> kids_code(g, kids, i) == cat(
            kids_item(g, kids, i),
            kids_code(g, kids, kids_next(kids, i)),
        ),
{
    reveal(kids_code);
    reveal(kids_item);
}

pub proof fn lemma_chain_body_step(g: Gen, kids: Seq<SNode>, i: int, k: int)
    requires
        0 <= i <= k <= kids.len(),
    ensures
        k < kids.len() ==> chain_body(g, kids, i, k + 1) == cat(chain_body(g, kids, i, k), chain_item(g, kids, i, k)),
        chain_body(g, kids, i, i) == Ok::<Seq<char>, SError>(seq![]),
{
    reveal(chain_body);
    reveal(chain_item);
}

pub proof fn lemma_match_arms_step(g: Gen, kids: Seq<SNode>, k: int)
    requires
        0 <= k <= kids.len(),
    ensures
        k < kids.len() ==> match_arms(g, kids, k + 1) == cat(match_arms(g, kids, k), match_arm(g, kids, k)),
        match_arms(g, kids, 0) == Ok::<Seq<char>, SError>(seq![]),
{
    reveal(match_arms);
    reveal(match_arm);
}

pub proof fn lemma_seq_stmts_step(g: Gen, kids: Seq<SNode>, k: int)
    requires
        0 <= k <= kids.len(),
    ensures
        k < kids.len() ==> seq_stmts(g, kids, k + 1) == cat(
            seq_stmts(g, kids, k),
            wrap("let __el = ::gpui::ParentElement::child(__el, "@, gen_child(g, kids[k]), ");"@),
        ),
        seq_stmts(g, kids, 0) == Ok::<Seq<char>, SError>(seq![]),
{
    reveal(seq_stmts);
    reveal(gen_child);
}

pub proof fn lemma_container_attrs_step(
    fixed: Seq<(&'static str, &'static str)>,
    tag: Seq<char>,
    attrs: Seq<SAttr>,
    k: int,
)
    requires
        0 <= k <= attrs.len(),
    ensures
        k < attrs.len() ==> container_attrs(fixed, tag, attrs, k + 1) == cat(
            container_attrs(fixed, tag, attrs, k),
            spec_container_attr(attrs[k], fixed, tag),
        ),
        container_attrs(fixed, tag, attrs, 0) == Ok::<Seq<char>, SError>(seq![]),
{
    reveal(container_attrs);
}

/// A fold of `cat` steps that has failed stays failed.
pub proof fn lemma_cat_err(a: Result<Seq<char>, SError>, b: Result<Seq<char>, SError>, x: SError)
    requires
        a == Err::<Seq<char>, SError>(x),
    ensures
        cat(a, b) == Err::<Seq<char>, SError>(x),
{
}


pub proof fn lemma_cat_assoc(a: Seq<char>, b: Seq<char>, x: Result<Seq<char>, SError>)
    ensures
        cat(Ok(a), cat(Ok(b), x)) == cat(Ok(a + b), x),
        cat(Ok(seq![]), x) == x,
{
    match x {
        Ok(q) => {
            assert((a + b) + q =~= a + (b + q));
            assert(Seq::<char>::empty() + q =~= q);
        },
        Err(_) => {},
    }
}


pub proof fn lemma_if_chain_unfold(g: Gen, kids: Seq<SNode>, i: int, j: int)
    requires
        0 <= i < j <= kids.len(),
    ensures
        if_chain(g, kids, i, j) == wrap(
            "{ "@,
            chain_body(g, kids, i, j),
            (if (kids[j - 1] matches SNode::Element(x) && x.tag == "Else"@) {
                seq![]
            } else {
                " else { ::gpui::IntoElement::into_any_element(gpui::div()) }"@
            }) + " }"@,
        ),
{
    reveal(if_chain);
    reveal(chain_body);
}

pub proof fn lemma_seq_code_unfold(g: Gen, kids: Seq<SNode>)
    ensures
        kids.len() == 0 ==> seq_code(g, kids) == Ok::<Seq<char>, SError>("gpui::div()"@),
        kids.len() == 1 ==> seq_code(g, kids) == gen_child(g, kids[0]),
        kids.len() >= 2 ==> seq_code(g, kids) == wrap(
            "{ let __el = gpui::div(); "@,
            seq_stmts(g, kids, kids.len() as int),
            " __el }"@,
        ),
{
    reveal(seq_code);
    reveal(gen_child);
    reveal(seq_stmts);
}

pub proof fn lemma_container_unfold(g: Gen, fixed: Seq<(&'static str, &'static str)>, e: SElement)
    ensures
        gen_container(g, fixed, e) == wrap(
            "{ let __el = gpui::div(); "@,
            cat(container_attrs(fixed, e.tag, e.attrs, e.attrs.len() as int), kids_code(g, e.children, 0)),
            " __el }"@,
        ),
{
    reveal(gen_container);
    reveal(container_attrs);
    reveal(kids_code);
}

pub proof fn lemma_match_unfold(g: Gen, e: SElement)
    ensures
        gen_match(g, e) == match find_attr(e.attrs, "on"@) {
            None => Err(
                el_err(
                    XmlErrorKind::UnknownAttribute,
                    "<Match> requires an `on={...}` attribute (the value being matched)"@,
                    e,
                ),
            ),
            Some(on) => match spec_attr_expr_only(on) {
                Err(x) => Err(x),
                Ok(op) => match match_arms(g, e.children, e.children.len() as int) {
                    Err(x) => Err(x),
                    Ok(arms) => if e.children.len() == 0 {
                        Err(
                            el_err(
                                XmlErrorKind::Unsupported,
                                "<Match> must contain at least one <Case>"@,
                                e,
                            ),
                        )
                    } else {
                        Ok("match ("@ + op + ") { "@ + arms + " }"@)
                    },
                },
            },
        },
{
    reveal(gen_match);
    reveal(match_arms);
}


pub proof fn lemma_vl_arms_step(g: Gen, kids: Seq<SNode>, k: int)
    requires
        0 <= k <= kids.len(),
    ensures
        k < kids.len() ==> vl_arms(g, kids, k + 1) == cat(
            vl_arms(g, kids, k),
            wrap(decimal(k as nat) + "usize => { "@, gen_child(g, kids[k]), " }"@),
        ),
        vl_arms(g, kids, 0) == Ok::<Seq<char>, SError>(seq![]),
{
    reveal(vl_arms);
    reveal(gen_child);
}


/// A virtual list without `item_count` and `row` takes one row per
/// child; with no children it is an error naming both ways to give
/// rows (with children, see `lemma_rows_are_arms`).
pub proof fn lemma_rows_from_children(g: Gen, e: SElement)
    requires
        find_attr(e.attrs, "item_count"@) is None,
        find_attr(e.attrs, "row"@) is None,
    ensures
        e.children.len() == 0 ==> vl_rows(g, e) == Err::<(Seq<char>, Seq<char>), SError>(
            el_err(
                XmlErrorKind::Unsupported,
                angled(e.tag)
                    + " requires either an `item_count={...}` attribute or at least one child row"@,
                e,
            ),
        ),
{
    reveal(vl_rows);
}

/// With `n > 0` children and no `item_count` or `row`, the item count
/// is the literal `nusize` and the row closure matches the index against
/// the arms `0usize` to `(n-1)usize`, each building its child
/// (`lemma_vl_arms_step`), with an empty `div()` for any other index.
#[verifier::spinoff_prover]
pub proof fn lemma_rows_are_arms(g: Gen, e: SElement, arms: Seq<char>)
    requires
        find_attr(e.attrs, "item_count"@) is None,
        find_attr(e.attrs, "row"@) is None,
        e.children.len() > 0,
        vl_arms(g, e.children, e.children.len() as int) == Ok::<Seq<char>, SError>(arms),
    ensures
        vl_rows(g, e) == Ok::<(Seq<char>, Seq<char>), SError>(
            (
                decimal(e.children.len()) + "usize"@,
                "move |__ix: usize, window: &mut ::gpui::Window, cx: &mut ::gpui::App| -> ::gpui::AnyElement { ::gpui::IntoElement::into_any_element(match __ix { "@
                    + arms + " _ => ::gpui::div(), }) }"@,
            ),
        ),
{
    let count = find_attr(e.attrs, "item_count"@);
    let row = find_attr(e.attrs, "row"@);
    assert(!(row is Some && count is Some));
    assert(!(row is Some));
    assert(!(count is Some));
    assert(e.children.len() != 0);
    reveal(vl_rows);
}

/// With children and no `item_count` or `row`, a child that cannot be
/// generated makes the rows that child's error.
#[verifier::spinoff_prover]
pub proof fn lemma_rows_arm_error(g: Gen, e: SElement, x: SError)
    requires
        find_attr(e.attrs, "item_count"@) is None,
        find_attr(e.attrs, "row"@) is None,
        e.children.len() > 0,
        vl_arms(g, e.children, e.children.len() as int) == Err::<Seq<char>, SError>(x),
    ensures
        vl_rows(g, e) == Err::<(Seq<char>, Seq<char>), SError>(x),
{
    let count = find_attr(e.attrs, "item_count"@);
    let row = find_attr(e.attrs, "row"@);
    assert(!(row is Some && count is Some));
    assert(!(row is Some));
    assert(!(count is Some));
    assert(e.children.len() != 0);
    reveal(vl_rows);
}

/// A virtual list whose `id` reads, without `item_count` or `row`: with
/// no children the list is the error that asks for either; with `n`
/// children whose arms generate, any code it gives is the list block
/// whose item count is the literal `nusize` and whose row closure
/// matches the index against those arms (`lemma_rows_are_arms`).
#[verifier::spinoff_prover]
pub proof fn lemma_virtual_list_rows(g: Gen, e: SElement, uniform: bool, idc: Seq<char>)
    requires
        find_attr(e.attrs, "id"@) matches Some(ia) && match ia.expr {
            Some(x) => spec_ts(x, ia.offset, "<VirtualList> id"@),
            None => Ok(owned_lit(ia.raw)),
        } == Ok::<Seq<char>, SError>(idc),
        find_attr(e.attrs, "item_count"@) is None,
        find_attr(e.attrs, "row"@) is None,
    ensures
        e.children.len() == 0 ==> gen_virtual_list(g, e, uniform) == Err::<Seq<char>, SError>(
            el_err(
                XmlErrorKind::Unsupported,
                angled(e.tag)
                    + " requires either an `item_count={...}` attribute or at least one child row"@,
                e,
            ),
        ),
        e.children.len() > 0 && vl_arms(g, e.children, e.children.len() as int) is Ok && gen_virtual_list(
            g,
            e,
            uniform,
        ) is Ok ==> exists|opts: (Seq<char>, Seq<char>, Seq<char>, Option<Seq<char>>), style: Seq<char>|
            gen_virtual_list(g, e, uniform) == Ok::<Seq<char>, SError>(
                #[trigger] vl_block(
                    g.cx@,
                    uniform,
                    idc,
                    decimal(e.children.len()) + "usize"@,
                    "move |__ix: usize, window: &mut ::gpui::Window, cx: &mut ::gpui::App| -> ::gpui::AnyElement { ::gpui::IntoElement::into_any_element(match __ix { "@
                        + vl_arms(g, e.children, e.children.len() as int)->Ok_0 + " _ => ::gpui::div(), }) }"@,
                    opts,
                    style,
                ),
            ),
{
    reveal(gen_virtual_list);
    lemma_rows_from_children(g, e);
    if e.children.len() > 0 {
        if let Ok(arms) = vl_arms(g, e.children, e.children.len() as int) {
            lemma_rows_are_arms(g, e, arms);
            if gen_virtual_list(g, e, uniform) is Ok {
                let opts = vl_options(e, uniform)->Ok_0;
                let style = pass_through(e.attrs, vl_own_attrs(), e.tag, e.attrs.len() as int)->Ok_0;
                assert(gen_virtual_list(g, e, uniform) == Ok::<Seq<char>, SError>(
                    vl_block(
                        g.cx@,
                        uniform,
                        idc,
                        decimal(e.children.len()) + "usize"@,
                        "move |__ix: usize, window: &mut ::gpui::Window, cx: &mut ::gpui::App| -> ::gpui::AnyElement { ::gpui::IntoElement::into_any_element(match __ix { "@
                            + arms + " _ => ::gpui::div(), }) }"@,
                        opts,
                        style,
                    ),
                ));
            }
        }
    }
}

/// A `<Match on={…}>` whose scrutinee reads: without children it is
/// the error asking for a `<Case>`; an arm that fails makes the whole
/// match fail with that arm's error; otherwise it is the Rust `match`
/// of the scrutinee with the arms in order (`lemma_match_arms_step`).
#[verifier::spinoff_prover]
pub proof fn lemma_match_shape(g: Gen, e: SElement, op: Seq<char>)
    requires
        find_attr(e.attrs, "on"@) matches Some(on) && spec_attr_expr_only(on) == Ok::<Seq<char>, SError>(op),
    ensures
        e.children.len() == 0 ==> gen_match(g, e) == Err::<Seq<char>, SError>(
            el_err(XmlErrorKind::Unsupported, "<Match> must contain at least one <Case>"@, e),
        ),
        match_arms(g, e.children, e.children.len() as int) matches Err(x) ==> gen_match(g, e) == Err::<
            Seq<char>,
            SError,
        >(x),
        e.children.len() > 0 && match_arms(g, e.children, e.children.len() as int) is Ok ==> gen_match(g, e)
            == Ok::<Seq<char>, SError>(
            "match ("@ + op + ") { "@ + match_arms(g, e.children, e.children.len() as int)->Ok_0 + " }"@,
        ),
{
    let on = find_attr(e.attrs, "on"@)->0;
    assert(spec_attr_expr_only(on) == Ok::<Seq<char>, SError>(op));
    let arms = match_arms(g, e.children, e.children.len() as int);
    if e.children.len() == 0 {
        assert(arms == Ok::<Seq<char>, SError>(seq![])) by {
            reveal(match_arms);
        }
    }
    lemma_match_unfold(g, e);
}

/// A child of `<Match>` that is an element other than `<Case>` is no
/// valid arm: an `Unsupported` error naming it.
pub proof fn lemma_match_arm_not_case(g: Gen, kids: Seq<SNode>, k: int)
    requires
        0 <= k < kids.len(),
        kids[k] matches SNode::Element(x) && x.tag != "Case"@,
    ensures
        match_arm(g, kids, k) == Err::<Seq<char>, SError>(
            el_err(
                XmlErrorKind::Unsupported,
                angled(kids[k]->Element_0.tag) + " is not a valid arm of <Match> — use <Case>"@,
                kids[k]->Element_0,
            ),
        ),
{
    reveal(match_arm);
}

/// One failing arm fails the whole list of arms: a `<Match>` with a
/// child element other than `<Case>` (or a `<Case>` that does not
/// generate) is an error.
pub proof fn lemma_match_arms_fail(g: Gen, kids: Seq<SNode>, n: int, k: int)
    requires
        0 <= k < n <= kids.len(),
        match_arm(g, kids, k) is Err,
    ensures
        match_arms(g, kids, n) is Err,
    decreases n,
{
    lemma_match_arms_step(g, kids, n - 1);
    if k < n - 1 {
        lemma_match_arms_fail(g, kids, n - 1, k);
    }
}

pub proof fn lemma_leaf_unfold(g: Gen, l: LeafDef, e: SElement, wrap_any: bool)
    ensures
        gen_leaf(g, l, e, wrap_any) == leaf_assemble(
            g,
            l,
            e,
            wrap_any,
            slot_stmts(g, l, e.children, e.children.len() as int),
            if l.children_before_render {
                before_stmts(g, l, e, leaf_kids(l, e), leaf_kids(l, e).len() as int)
            } else {
                Ok(seq![])
            },
            if l.render == RenderMode::Default && !l.children_before_render
                && leaf_kids(l, e).len() > 0 {
                tail_code(g, l, e, leaf_kids(l, e), 0, false)
            } else {
                Ok(seq![])
            },
        ),
{
    reveal(gen_leaf);
    reveal(slot_stmts);
    reveal(before_stmts);
    reveal(tail_code);
}

pub proof fn lemma_slot_stmts_step(g: Gen, l: LeafDef, kids: Seq<SNode>, k: int)
    requires
        0 <= k <= kids.len(),
    ensures
        slot_stmts(g, l, kids, 0) == Ok::<Seq<char>, SError>(seq![]),
        k < kids.len() ==> slot_stmts(g, l, kids, k + 1) == match slot_of(l, kids[k]) {
            None => slot_stmts(g, l, kids, k),
            Some(sd) => match kids[k] {
                SNode::Element(x) => cat(
                    slot_stmts(g, l, kids, k),
                    wrap(
                        "__el = __el."@ + sd.setter@ + "("@,
                        gen_element(g, SElement { attrs: without(x.attrs, "slot"@), ..x }),
                        ");"@,
                    ),
                ),
                _ => slot_stmts(g, l, kids, k),
            },
        },
{
    reveal(slot_stmts);
    reveal(gen_element);
}

pub proof fn lemma_before_stmts_step(g: Gen, l: LeafDef, e: SElement, kids: Seq<SNode>, k: int)
    requires
        0 <= k <= kids.len(),
    ensures
        before_stmts(g, l, e, kids, 0) == Ok::<Seq<char>, SError>(seq![]),
        k < kids.len() ==> before_stmts(g, l, e, kids, k + 1) == cat(
            before_stmts(g, l, e, kids, k),
            match kids[k] {
                SNode::Text { .. } => Err(
                    el_err(
                        XmlErrorKind::Unsupported,
                        angled(e.tag) + " does not support text content; use a <Label> child"@,
                        e,
                    ),
                ),
                _ => wrap(
                    "__el = __el.child("@,
                    if l.unwrap_children {
                        gen_child_unwrapped(g, kids[k])
                    } else {
                        gen_child(g, kids[k])
                    },
                    ");"@,
                ),
            },
        ),
{
    reveal(before_stmts);
    reveal(gen_child);
    reveal(gen_child_unwrapped);
}

} // verus!
