//! The code generator: an AST element becomes the Rust source of an
//! expression building it with the headless builders and gpui.
use vstd::prelude::*;

use crate::ast::{
    clone_nodes, esize, ksize, lemma_ksize_index, lemma_nsize_element, lemma_nodes_view, node_view, nodes_view, nsize, AstAttribute,
    AstElement, AstNode, SElement, SNode,
};
use crate::leaf::{assemble_leaf, attrs_without, drop_text_nodes, remaining_nodes, slot_of_node, text_consumed_by};
use crate::values::{extract_text_content, spec_text_content};
use crate::schema::{LeafDef, RenderMode};
use crate::diagnostics::spec_did_you_mean;
use crate::emit::{attr_named, find_attr, opt_attr_view, owned_lit_code, push_str_lit, res_view, str_lit, ts};
use crate::error::{decimal, push_decimal, serr, SError, XmlError, XmlErrorKind};
use crate::gen_spec::{
    lemma_cat_assoc, lemma_vl_arms_step, lemma_leaf_unfold, lemma_slot_stmts_step, lemma_before_stmts_step, leaf_assemble, lemma_if_chain_unfold, lemma_seq_code_unfold, lemma_container_unfold, lemma_match_unfold, lemma_kids_code_step, lemma_chain_body_step, lemma_match_arms_step, lemma_seq_stmts_step, lemma_container_attrs_step,
    chain_item, kids_item, kids_next, match_arm, Gen, kind_of, cat, wrap, el_err, angled, child_stmt, is_if_tag, is_if_node, run_end, lemma_run_end, builtin_tag_names, gen_element, gen_runtime_leaf, container_attrs, gen_container, kids_code, if_chain, branch_kind, chain_body, branch_name, if_branch, gen_child, gen_child_unwrapped, seq_code, seq_stmts, gen_control, let_name, gen_for, for_loop, gen_match, case_pattern, match_arms, i64_lit, state_literal, gen_state, vl_own_attrs, pass_through, vl_arms, vl_rows, default_overdraw, vl_alignment, vl_options, vl_path, vl_block, gen_virtual_list, missing_attr, arg_prop_kind, spec_extra_arg, extra_args_code, leaf_head, is_extra_attr, bind_msg, set_stmt, modified_closure, modified_event, leaf_attr, leaf_attrs, find_slot, slot_of, without, remaining, lemma_remaining_size, leaf_kids, lemma_leaf_kids_size, slot_stmts, before_stmts, tail_code, has_submit, render_stmt, gen_leaf, style_stmts,
};
use crate::schema::{ComponentDef, ComponentKind, ControlFlowDef};
use crate::strings::{chars_of, str_eq, string_of, trim_chars, to_owned};
use crate::values::{attr_expr_only, attr_value_tokens, cat2, cat3, float_literal};

verus! {

/// An error at `offset` with the given kind.
pub fn err_at(kind: XmlErrorKind, msg: String, offset: usize) -> (r: XmlError)
    ensures
        r@ == serr(kind, msg@, Some(offset)),
{
    XmlError::new(kind, msg).at(offset)
}

pub fn is_if_tag_exec(tag: &str) -> (b: bool)
    ensures
        b == is_if_tag(tag@),
{
    str_eq(tag, "If") || str_eq(tag, "ElseIf") || str_eq(tag, "Else")
}

pub fn is_if_node_exec(n: &AstNode) -> (b: bool)
    ensures
        b == is_if_node(n@),
{
    match n {
        AstNode::Element(x) => is_if_tag_exec(x.tag.as_str()),
        _ => false,
    }
}

/// The end of the run of if-chain siblings starting at `i`.
fn run_end_exec(kids: &Vec<AstNode>, i: usize) -> (j: usize)
    requires
        i <= kids@.len(),
    ensures
        j == run_end(nodes_view(kids@), i as int),
        i <= j <= kids@.len(),
{
    proof {
        lemma_nodes_view(kids@);
        lemma_run_end(nodes_view(kids@), i as int);
    }
    let mut j = i;
    while j < kids.len() && is_if_node_exec(&kids[j])
        invariant
            i <= j <= kids@.len(),
            nodes_view(kids@).len() == kids@.len(),
            forall|k: int| 0 <= k < kids@.len() ==> #[trigger] nodes_view(kids@)[k] == node_view(
                kids@[k],
            ),
            run_end(nodes_view(kids@), j as int) == run_end(nodes_view(kids@), i as int),
        decreases kids.len() - j,
    {
        j += 1;
    }
    j
}

/// The code of a child node.
pub fn codegen_child(g: &Gen, n: &AstNode) -> (r: Result<String, XmlError>)
    ensures
        res_view(r) == gen_child(*g, n@),
    decreases nsize(n@), 5int,
{
    proof {
        reveal(gen_child);
        reveal(gen_element);
    }
    match n {
        AstNode::Element(x) => {
            proof {
                lemma_nsize_element(x@);
            }
            codegen_element(g, x)
        },
        AstNode::Expr { expr, byte_offset } => ts(expr.as_str(), *byte_offset, "child expression"),
        AstNode::Text { text, .. } => {
            let mut out = String::new();
            push_str_lit(&mut out, text.as_str());
            Ok(out)
        },
    }
}

/// The code of a child node, a leaf left as its rendered type.
pub fn codegen_child_unwrapped(g: &Gen, n: &AstNode) -> (r: Result<String, XmlError>)
    ensures
        res_view(r) == gen_child_unwrapped(*g, n@),
    decreases nsize(n@), 5int,
{
    proof {
        reveal(gen_child_unwrapped);
        reveal(kind_of);
        reveal(gen_leaf);
        reveal(gen_element);
    }
    match n {
        AstNode::Element(x) => {
            proof {
                lemma_nsize_element(x@);
            }
            match crate::schema::lookup_in(g.builtins, g.overrides, g.user, x.tag.as_str()) {
                Some(d) => match &d.kind {
                    ComponentKind::Leaf(l) => codegen_leaf(g, l, x, false),
                    _ => codegen_element(g, x),
                },
                None => codegen_element(g, x),
            }
        },
        AstNode::Expr { expr, byte_offset } => ts(expr.as_str(), *byte_offset, "child expression"),
        AstNode::Text { text, .. } => {
            let mut out = String::new();
            push_str_lit(&mut out, text.as_str());
            Ok(out)
        },
    }
}

/// `let __el = ::gpui::ParentElement::child(__el, <x>);` appended.
fn push_child_stmt(out: &mut String, x: &str)
    ensures
        final(out)@ == old(out)@ + child_stmt(x@),
{
    out.append("let __el = ::gpui::ParentElement::child(__el, ");
    out.append(x);
    out.append(");");
}

proof fn lemma_seq_stmts_err(g: Gen, kids: Seq<SNode>, k: int, n: int, x: SError)
    requires
        0 < k <= n <= kids.len(),
        seq_stmts(g, kids, k) == Err::<Seq<char>, SError>(x),
    ensures
        seq_stmts(g, kids, n) == Err::<Seq<char>, SError>(x),
    decreases n - k,
{
    if n > k {
        lemma_seq_stmts_err(g, kids, k, n - 1, x);
        lemma_seq_stmts_step(g, kids, n - 1);
    }
}

/// Children as one element.
pub fn codegen_children_as_element(g: &Gen, kids: &Vec<AstNode>) -> (r: Result<String, XmlError>)
    ensures
        res_view(r) == seq_code(*g, nodes_view(kids@)),
    decreases ksize(nodes_view(kids@)), kids@.len() + 11,
{
    proof {
        lemma_seq_code_unfold(*g, nodes_view(kids@));
    }
    let ghost kv = nodes_view(kids@);
    proof {
        lemma_nodes_view(kids@);
    }
    if kids.len() == 0 {
        return Ok(to_owned("gpui::div()"));
    }
    if kids.len() == 1 {
        proof {
            lemma_ksize_index(kv, 0);
        }
        return codegen_child(g, &kids[0]);
    }
    proof {
        lemma_seq_stmts_step(*g, kv, 0);
    }
    let mut acc = String::new();
    let mut k: usize = 0;
    while k < kids.len()
        invariant
            k <= kids@.len(),
            kids@.len() >= 2,
            kv == nodes_view(kids@),
            kv.len() == kids@.len(),
            forall|i: int| 0 <= i < kids@.len() ==> #[trigger] kv[i] == node_view(kids@[i]),
            seq_stmts(*g, kv, k as int) == Ok::<Seq<char>, SError>(acc@),
            seq_code(*g, kv) == wrap(
                "{ let __el = gpui::div(); "@,
                seq_stmts(*g, kv, kv.len() as int),
                " __el }"@,
            ),
        decreases kids.len() - k,
    {
        proof {
            lemma_ksize_index(kv, k as int);
            lemma_seq_stmts_step(*g, kv, k as int);
        }
        match codegen_child(g, &kids[k]) {
            Ok(c) => {
                push_child_stmt(&mut acc, c.as_str());
            },
            Err(x) => {
                proof {
                    lemma_seq_stmts_err(*g, kv, k + 1, kv.len() as int, x@);
                }
                return Err(x);
            },
        }
        k += 1;
    }
    let mut out = to_owned("{ let __el = gpui::div(); ");
    out.append(acc.as_str());
    out.append(" __el }");
    Ok(out)
}

/// Branch `kids[k]` of an if chain starting at `i`.
#[verifier::spinoff_prover]
pub fn codegen_chain_item(g: &Gen, kids: &Vec<AstNode>, i: usize, k: usize) -> (r: Result<
    String,
    XmlError,
>)
    requires
        i <= k < kids@.len(),
    ensures
        res_view(r) == chain_item(*g, nodes_view(kids@), i as int, k as int),
    decreases ksize(nodes_view(kids@)), k + 5,
{
    proof {
        reveal(chain_item);
        reveal(if_branch);
    }
    proof {
        lemma_nodes_view(kids@);
    }
    let ghost kv = nodes_view(kids@);
    match &kids[k] {
        AstNode::Element(x) => {
            let kind = if str_eq(x.tag.as_str(), "If") {
                ControlFlowDef::If
            } else if str_eq(x.tag.as_str(), "ElseIf") {
                ControlFlowDef::ElseIf
            } else if str_eq(x.tag.as_str(), "Else") {
                ControlFlowDef::Else
            } else {
                let m = cat3("unexpected tag in if-chain: <", x.tag.as_str(), ">");
                proof {
                    reveal_strlit("unexpected tag in if-chain: <");
                    reveal_strlit("unexpected tag in if-chain: ");
                    reveal_strlit("<");
                    reveal_strlit(">");
                    assert(m@ =~= "unexpected tag in if-chain: "@ + angled(x@.tag));
                }
                return Err(XmlError::new(XmlErrorKind::Unsupported, m));
            };
            proof {
                lemma_ksize_index(kv, k as int);
                lemma_nsize_element(x@);
            }
            match codegen_if_branch(g, kind, x) {
                Ok(b) => {
                    if k == i && !str_eq(x.tag.as_str(), "If") {
                        let mut m = cat3("<", x.tag.as_str(), ">");
                        m.append(" cannot start a chain — use <If> first");
                        assert(m@ =~= angled(x@.tag) + " cannot start a chain — use <If> first"@);
                        return Err(err_at(XmlErrorKind::Unsupported, m, x.byte_offset));
                    }
                    Ok(b)
                },
                Err(err) => Err(err),
            }
        },
        _ => Err(
            XmlError::new(
                XmlErrorKind::Unsupported,
                to_owned("<If>/<ElseIf>/<Else> chain cannot contain non-element nodes"),
            ),
        ),
    }
}

/// A run of `If` / `ElseIf` / `Else` siblings as one block.
pub fn codegen_if_chain(g: &Gen, kids: &Vec<AstNode>, i: usize, j: usize) -> (r: Result<
    String,
    XmlError,
>)
    requires
        i < j <= kids@.len(),
    ensures
        res_view(r) == if_chain(*g, nodes_view(kids@), i as int, j as int),
    decreases ksize(nodes_view(kids@)), j + 6,
{
    proof {
        reveal(if_chain);
        reveal(chain_body);
    }
    proof {
        lemma_nodes_view(kids@);
    }
    let ghost kv = nodes_view(kids@);
    proof {
        lemma_chain_body_step(*g, kv, i as int, i as int);
    }
    let mut acc = String::new();
    let mut k: usize = i;
    while k < j
        invariant
            i <= k <= j,
            j <= kids@.len(),
            kv == nodes_view(kids@),
            kv.len() == kids@.len(),
            chain_body(*g, kv, i as int, k as int) == Ok::<Seq<char>, SError>(acc@),
            if_chain(*g, kv, i as int, j as int) matches Err(x) ==> chain_body(
                *g,
                kv,
                i as int,
                j as int,
            ) == Err::<Seq<char>, SError>(x),
            chain_body(*g, kv, i as int, j as int) matches Err(x) ==> if_chain(
                *g,
                kv,
                i as int,
                j as int,
            ) == Err::<Seq<char>, SError>(x),
        decreases j - k,
    {
        proof {
            lemma_chain_body_step(*g, kv, i as int, k as int);
        }
        match codegen_chain_item(g, kids, i, k) {
            Ok(b) => {
                acc.append(b.as_str());
            },
            Err(err) => {
                proof {
                    lemma_chain_err(*g, kv, i as int, k + 1, j as int, err@);
                }
                return Err(err);
            },
        }
        k += 1;
    }
    let mut out = to_owned("{ ");
    out.append(acc.as_str());
    let last_else = match &kids[j - 1] {
        AstNode::Element(x) => str_eq(x.tag.as_str(), "Else"),
        _ => false,
    };
    if !last_else {
        out.append(" else { ::gpui::IntoElement::into_any_element(gpui::div()) }");
    }
    out.append(" }");
    proof {
        let tail = (if last_else {
            Seq::<char>::empty()
        } else {
            " else { ::gpui::IntoElement::into_any_element(gpui::div()) }"@
        }) + " }"@;
        assert(out@ =~= "{ "@ + acc@ + tail);
    }
    Ok(out)
}

proof fn lemma_chain_err(g: Gen, kids: Seq<SNode>, i: int, k: int, n: int, x: SError)
    requires
        0 <= i < k <= n <= kids.len(),
        chain_body(g, kids, i, k) == Err::<Seq<char>, SError>(x),
    ensures
        chain_body(g, kids, i, n) == Err::<Seq<char>, SError>(x),
    decreases n - k,
{
    if n > k {
        lemma_chain_err(g, kids, i, k, n - 1, x);
        lemma_chain_body_step(g, kids, i, n - 1);
    }
}

/// The child statement for the if-chain run starting at `kids[i]`.
fn codegen_kids_chain(g: &Gen, kids: &Vec<AstNode>, i: usize) -> (r: (Result<String, XmlError>, usize))
    requires
        i < kids@.len(),
        is_if_node(nodes_view(kids@)[i as int]),
    ensures
        res_view(r.0) == kids_item(*g, nodes_view(kids@), i as int),
        r.1 as int == run_end(nodes_view(kids@), i as int),
        i < r.1 <= kids@.len(),
    decreases ksize(nodes_view(kids@)), 2 * kids@.len() - i + 8,
{
    proof {
        reveal(kids_item);
        reveal(if_chain);
        lemma_nodes_view(kids@);
        lemma_run_end(nodes_view(kids@), i as int);
        lemma_run_end(nodes_view(kids@), i + 1);
    }
    let j = run_end_exec(kids, i);
    let r = match codegen_if_chain(g, kids, i, j) {
        Ok(c) => {
            let mut acc = String::new();
            push_child_stmt(&mut acc, c.as_str());
            Ok(acc)
        },
        Err(x) => Err(x),
    };
    (r, j)
}

/// The child statement for a child that starts no if-chain.
fn codegen_kids_child(g: &Gen, kids: &Vec<AstNode>, i: usize) -> (r: Result<String, XmlError>)
    requires
        i < kids@.len(),
        !is_if_node(nodes_view(kids@)[i as int]),
    ensures
        res_view(r) == kids_item(*g, nodes_view(kids@), i as int),
    decreases ksize(nodes_view(kids@)), 2 * kids@.len() - i + 8,
{
    proof {
        reveal(kids_item);
        reveal(gen_child);
        lemma_nodes_view(kids@);
        lemma_ksize_index(nodes_view(kids@), i as int);
    }
    match codegen_child(g, &kids[i]) {
        Ok(c) => {
            let mut acc = String::new();
            push_child_stmt(&mut acc, c.as_str());
            Ok(acc)
        },
        Err(x) => Err(x),
    }
}

/// The child statement starting at `kids[i]`, and where the next one
/// starts.
pub fn codegen_kids_item(g: &Gen, kids: &Vec<AstNode>, i: usize) -> (r: (Result<String, XmlError>, usize))
    requires
        i < kids@.len(),
    ensures
        res_view(r.0) == kids_item(*g, nodes_view(kids@), i as int),
        r.1 as int == kids_next(nodes_view(kids@), i as int),
        i < r.1 <= kids@.len(),
    decreases ksize(nodes_view(kids@)), 2 * kids@.len() - i + 9,
{
    proof {
        lemma_nodes_view(kids@);
    }
    let len = kids.len();
    if is_if_node_exec(&kids[i]) {
        codegen_kids_chain(g, kids, i)
    } else {
        let r = codegen_kids_child(g, kids, i);
        (r, i + 1)
    }
}

/// The statements for a container's children, if-chains merged.
#[verifier::spinoff_prover]
pub fn codegen_children_stmts(g: &Gen, kids: &Vec<AstNode>) -> (r: Result<String, XmlError>)
    ensures
        res_view(r) == kids_code(*g, nodes_view(kids@), 0),
    decreases ksize(nodes_view(kids@)), 2 * kids@.len() + 11,
{
    proof {
        lemma_nodes_view(kids@);
    }
    let ghost kv = nodes_view(kids@);
    let mut acc = String::new();
    let mut i: usize = 0;
    proof {
        lemma_cat_assoc(seq![], seq![], kids_code(*g, kv, 0));
    }
    while i < kids.len()
        invariant
            i <= kids@.len(),
            kv == nodes_view(kids@),
            kv.len() == kids@.len(),
            cat(Ok(acc@), kids_code(*g, kv, i as int)) == kids_code(*g, kv, 0),
        decreases kids.len() - i,
    {
        proof {
            lemma_kids_code_step(*g, kv, i as int);
        }
        proof {
            lemma_run_end(kv, i as int);
        }
        let (item, next) = codegen_kids_item(g, kids, i);
        match item {
            Ok(c) => {
                proof {
                    lemma_cat_assoc(acc@, c@, kids_code(*g, kv, next as int));
                }
                acc.append(c.as_str());
            },
            Err(x) => {
                return Err(x);
            },
        }
        i = next;
    }
    proof {
        lemma_kids_code_step(*g, kv, i as int);
    }
    Ok(acc)
}

proof fn lemma_container_attrs_err(
    fixed: Seq<(&'static str, &'static str)>,
    tag: Seq<char>,
    attrs: Seq<crate::ast::SAttr>,
    k: int,
    n: int,
    x: SError,
)
    requires
        0 < k <= n <= attrs.len(),
        container_attrs(fixed, tag, attrs, k) == Err::<Seq<char>, SError>(x),
    ensures
        container_attrs(fixed, tag, attrs, n) == Err::<Seq<char>, SError>(x),
    decreases n - k,
{
    if n > k {
        lemma_container_attrs_err(fixed, tag, attrs, k, n - 1, x);
        lemma_container_attrs_step(fixed, tag, attrs, n - 1);
    }
}

/// A container element.
pub fn codegen_container(g: &Gen, fixed: &[(&'static str, &'static str)], e: &AstElement) -> (r: Result<
    String,
    XmlError,
>)
    ensures
        res_view(r) == gen_container(*g, fixed@, e@),
    decreases esize(e@), 3int,
{
    proof {
        lemma_container_unfold(*g, fixed@, e@);
    }
    let ghost av = e@.attrs;
    proof {
        lemma_container_attrs_step(fixed@, e@.tag, av, 0);
    }
    let mut acc = String::new();
    let mut k: usize = 0;
    while k < e.attributes.len()
        invariant
            k <= e.attributes@.len(),
            av == e@.attrs,
            av.len() == e.attributes@.len(),
            forall|t: int| 0 <= t < av.len() ==> #[trigger] av[t] == e.attributes@[t]@,
            container_attrs(fixed@, e@.tag, av, k as int) == Ok::<Seq<char>, SError>(acc@),
            gen_container(*g, fixed@, e@) == wrap(
                "{ let __el = gpui::div(); "@,
                cat(container_attrs(fixed@, e@.tag, av, av.len() as int), kids_code(*g, e@.children, 0)),
                " __el }"@,
            ),
        decreases e.attributes.len() - k,
    {
        proof {
            lemma_container_attrs_step(fixed@, e@.tag, av, k as int);
        }
        match crate::style::apply_container_attr(&e.attributes[k], fixed, e.tag.as_str()) {
            Ok(s) => {
                acc.append(s.as_str());
            },
            Err(x) => {
                proof {
                    lemma_container_attrs_err(fixed@, e@.tag, av, k + 1, av.len() as int, x@);
                }
                return Err(x);
            },
        }
        k += 1;
    }
    let kids = match codegen_children_stmts(g, &e.children) {
        Ok(s) => s,
        Err(x) => {
            return Err(x);
        },
    };
    let mut out = to_owned("{ let __el = gpui::div(); ");
    out.append(acc.as_str());
    out.append(kids.as_str());
    out.append(" __el }");
    assert(out@ =~= "{ let __el = gpui::div(); "@ + (acc@ + kids@) + " __el }"@);
    Ok(out)
}

/// A tag unknown to every table: rendered through the run-time
/// registry.
pub fn codegen_runtime_leaf(g: &Gen, e: &AstElement) -> (r: Result<String, XmlError>)
    ensures
        res_view(r) == gen_runtime_leaf(*g, e@),
{
    match attr_named(e, "id") {
        None => {
            let tags = crate::schema::builtin_tags();
            let mut m = cat3("<", e.tag.as_str(), ">");
            m.append(
                " is not a built-in tag and (as a runtime-registered component) requires an `id` attribute",
            );
            let ghost base = m@;
            assert(crate::diagnostics::cands_view(tags@) =~= builtin_tag_names());
            match crate::diagnostics::did_you_mean(e.tag.as_str(), &tags) {
                Some(s) => {
                    m.append(" — did you mean `<");
                    m.append(s);
                    m.append(">`?");
                    proof {
                        let i = spec_did_you_mean(e@.tag, builtin_tag_names())->0;
                        assert(s@ == builtin_tag_names()[i]);
                        assert(m@ =~= base + (" — did you mean `<"@ + builtin_tag_names()[i] + ">`?"@));
                    }
                },
                None => {
                    assert(m@ =~= base + Seq::<char>::empty());
                },
            }
            assert(base =~= angled(e@.tag)
                + " is not a built-in tag and (as a runtime-registered component) requires an `id` attribute"@);
            Err(err_at(XmlErrorKind::UnknownAttribute, m, e.byte_offset))
        },
        Some(a) => match attr_value_tokens(a) {
            Err(x) => Err(x),
            Ok(v) => {
                let mut out = to_owned("::yororen_ui_xml::runtime::render_or_empty(");
                push_str_lit(&mut out, e.tag.as_str());
                out.append(", ");
                out.append(v.as_str());
                out.append(", ");
                out.append(g.cx);
                out.append(")");
                assert(out@ =~= ("::yororen_ui_xml::runtime::render_or_empty("@ + str_lit(e@.tag)
                    + ", "@) + v@ + (", "@ + g.cx@ + ")"@));
                Ok(out)
            },
        },
    }
}

/// An element.
pub fn codegen_element(g: &Gen, e: &AstElement) -> (r: Result<String, XmlError>)
    ensures
        res_view(r) == gen_element(*g, e@),
    decreases esize(e@), 4int,
{
    proof {
        reveal(gen_element);
        reveal(kind_of);
        reveal(gen_container);
        reveal(gen_leaf);
        reveal(gen_control);
    }
    match crate::schema::lookup_in(g.builtins, g.overrides, g.user, e.tag.as_str()) {
        Some(d) => match &d.kind {
            ComponentKind::Container(c) => codegen_container(g, c.fixed_methods.as_slice(), e),
            ComponentKind::Leaf(l) => codegen_leaf(g, l, e, true),
            ComponentKind::ControlFlow(f) => codegen_control_flow(g, *f, e),
            ComponentKind::RuntimeLeaf => codegen_runtime_leaf(g, e),
        },
        None => codegen_runtime_leaf(g, e),
    }
}


/// One branch of an if chain.
pub fn codegen_if_branch(g: &Gen, kind: ControlFlowDef, e: &AstElement) -> (r: Result<
    String,
    XmlError,
>)
    ensures
        res_view(r) == if_branch(*g, kind, e@),
    decreases esize(e@), 2int,
{
    proof {
        reveal(if_branch);
        reveal(seq_code);
    }
    let cond = if kind == ControlFlowDef::Else {
        String::new()
    } else {
        match attr_named(e, "condition") {
            None => {
                let name = match kind {
                    ControlFlowDef::If => "If",
                    ControlFlowDef::ElseIf => "ElseIf",
                    _ => "Else",
                };
                let m = cat3("<", name, "> requires a `condition={...}` attribute");
                proof {
                    reveal_strlit("<");
                    reveal_strlit("> requires a `condition={...}` attribute");
                    assert(name@ == branch_name(kind));
                }
                return Err(err_at(XmlErrorKind::UnknownAttribute, m, e.byte_offset));
            },
            Some(a) => match attr_expr_only(a) {
                Ok(c) => c,
                Err(x) => {
                    return Err(x);
                },
            },
        }
    };
    if e.children.len() == 0 {
        return Err(
            err_at(
                XmlErrorKind::Unsupported,
                to_owned("if/else branch must contain at least one child"),
                e.byte_offset,
            ),
        );
    }
    let body = match codegen_children_as_element(g, &e.children) {
        Ok(b) => b,
        Err(x) => {
            return Err(x);
        },
    };
    let bb = cat3("::gpui::IntoElement::into_any_element(", body.as_str(), ")");
    let out = match kind {
        ControlFlowDef::If => {
            let mut o = cat3("if ", cond.as_str(), " { ");
            o.append(bb.as_str());
            o.append(" }");
            o
        },
        ControlFlowDef::ElseIf => {
            let mut o = cat3("else if ", cond.as_str(), " { ");
            o.append(bb.as_str());
            o.append(" }");
            o
        },
        _ => cat3("else { ", bb.as_str(), " }"),
    };
    Ok(out)
}

/// The name bound by a `let:` attribute, as `let_name` says.
pub fn let_binding(a: Option<&AstAttribute>, default: &str) -> (r: Option<String>)
    ensures
        crate::ast::opt_view(r) == let_name(opt_attr_view(a), default@),
{
    match a {
        None => None,
        Some(x) => match &x.expr {
            Some(ex) => {
                let v = chars_of(ex.as_str());
                let t = trim_chars(&v);
                if t.len() == 0 {
                    Some(to_owned(default))
                } else {
                    Some(string_of(&t))
                }
            },
            None => if str_eq(x.raw.as_str(), "true") || x.raw.as_str().is_empty() {
                Some(to_owned(default))
            } else {
                Some(x.raw.clone())
            },
        },
    }
}

/// `<For>`.
pub fn codegen_for(g: &Gen, e: &AstElement) -> (r: Result<String, XmlError>)
    ensures
        res_view(r) == gen_for(*g, e@),
    decreases esize(e@), 2int,
{
    proof {
        reveal(gen_for);
        reveal(seq_code);
    }
    let each = match attr_named(e, "each") {
        None => {
            return Err(
                err_at(
                    XmlErrorKind::UnknownAttribute,
                    to_owned("<For> requires an `each={...}` attribute"),
                    e.byte_offset,
                ),
            );
        },
        Some(a) => a,
    };
    let ep = match attr_expr_only(each) {
        Ok(x) => x,
        Err(x) => {
            return Err(x);
        },
    };
    let item = match let_binding(attr_named(e, "let_item"), "item") {
        Some(n) => n,
        None => to_owned("it"),
    };
    let li = attr_named(e, "let_index");
    let has_index = li.is_some();
    let index = match let_binding(li, "i") {
        Some(n) => n,
        None => to_owned("i"),
    };
    let key: Option<String> = match attr_named(e, "key") {
        None => None,
        Some(k) => {
            if k.expr.is_none() {
                return Err(
                    err_at(
                        XmlErrorKind::InvalidExpression,
                        to_owned("<For key> requires a brace expression, e.g. `key={item.id}`"),
                        k.byte_offset,
                    ),
                );
            }
            match attr_expr_only(k) {
                Ok(kp) => Some(kp),
                Err(x) => {
                    return Err(x);
                },
            }
        },
    };
    if e.children.len() == 0 {
        return Err(
            err_at(
                XmlErrorKind::Unsupported,
                to_owned("<For> must contain at least one child"),
                e.byte_offset,
            ),
        );
    }
    let child = match codegen_children_as_element(g, &e.children) {
        Ok(c) => c,
        Err(x) => {
            return Err(x);
        },
    };
    let row = match &key {
        Some(k) => {
            let mut o = to_owned(
                "{ let __row = gpui::div(); let __row = ::gpui::InteractiveElement::id(__row, format!(\"for_row_{}\", ",
            );
            o.append(k.as_str());
            o.append(")); ::gpui::ParentElement::child(__row, ");
            o.append(child.as_str());
            o.append(") }");
            o
        },
        None => cat3("{ let __row = gpui::div(); ::gpui::ParentElement::child(__row, ", child.as_str(), ") }"),
    };
    let mut out = to_owned("{ let mut __div = gpui::div(); for ");
    if has_index {
        out.append("(__i, ");
        out.append(item.as_str());
        out.append(") in (");
        out.append(ep.as_str());
        out.append(").iter().enumerate() { let ");
        out.append(index.as_str());
        out.append(" = __i; __div = ::gpui::ParentElement::child(__div, ");
    } else {
        out.append(item.as_str());
        out.append(" in (");
        out.append(ep.as_str());
        out.append(").iter() { __div = ::gpui::ParentElement::child(__div, ");
    }
    out.append(row.as_str());
    out.append("); } __div }");
    proof {
        reveal_strlit("{ let mut __div = gpui::div(); for ");
        reveal_strlit("{ let mut __div = gpui::div(); for (__i, ");
        reveal_strlit("(__i, ");
        reveal_strlit(" in (");
        reveal_strlit("); } __div }");
        reveal_strlit("); } __div }");
        reveal_strlit(") in (");
        reveal_strlit("{ let mut __div = gpui::div(); for ");
        reveal_strlit(").iter().enumerate() { let ");
        reveal_strlit(" = __i; __div = ::gpui::ParentElement::child(__div, ");
        reveal_strlit(").iter() { __div = ::gpui::ParentElement::child(__div, ");
        reveal_strlit(
            ") in (",
        );
        let kp = match key {
            Some(k) => Some(k@),
            None => None,
        };
        assert(out@ =~= for_loop(ep@, item@, index@, has_index, kp, child@));
    }
    Ok(out)
}

proof fn lemma_match_arms_err(g: Gen, kids: Seq<SNode>, k: int, n: int, x: SError)
    requires
        0 < k <= n <= kids.len(),
        match_arms(g, kids, k) == Err::<Seq<char>, SError>(x),
    ensures
        match_arms(g, kids, n) == Err::<Seq<char>, SError>(x),
    decreases n - k,
{
    if n > k {
        lemma_match_arms_err(g, kids, k, n - 1, x);
        lemma_match_arms_step(g, kids, n - 1);
    }
}

/// The arm for `kids[k]` of a `<Match>`.
pub fn codegen_match_arm(g: &Gen, kids: &Vec<AstNode>, k: usize) -> (r: Result<String, XmlError>)
    requires
        k < kids@.len(),
    ensures
        res_view(r) == match_arm(*g, nodes_view(kids@), k as int),
    decreases ksize(nodes_view(kids@)), k + 10,
{
    proof {
        reveal(match_arm);
        reveal(seq_code);
    }
    proof {
        lemma_nodes_view(kids@);
    }
    let ghost kv = nodes_view(kids@);
    match &kids[k] {
        AstNode::Element(x) => {
            if str_eq(x.tag.as_str(), "Case") {
                match attr_named(x, "pattern") {
                    None => Err(
                        err_at(
                            XmlErrorKind::UnknownAttribute,
                            to_owned("<Case> requires a `pattern={...}` attribute"),
                            x.byte_offset,
                        ),
                    ),
                    Some(pa) => {
                        let pat: Result<String, XmlError> = if pa.expr.is_none() && str_eq(
                            pa.raw.as_str(),
                            "_",
                        ) {
                            Ok(to_owned("_"))
                        } else if pa.expr.is_some() {
                            attr_expr_only(pa)
                        } else {
                            let mut o = String::new();
                            push_str_lit(&mut o, pa.raw.as_str());
                            Ok(o)
                        };
                        match pat {
                            Err(err) => Err(err),
                            Ok(p) => if x.children.len() == 0 {
                                Err(
                                    err_at(
                                        XmlErrorKind::Unsupported,
                                        to_owned("<Case> must contain at least one child"),
                                        x.byte_offset,
                                    ),
                                )
                            } else {
                                proof {
                                    lemma_ksize_index(kv, k as int);
                                    lemma_nsize_element(x@);
                                }
                                match codegen_children_as_element(g, &x.children) {
                                    Err(err) => Err(err),
                                    Ok(body) => {
                                        let mut o = cat2(p.as_str(), " => { ");
                                        o.append(body.as_str());
                                        o.append(" },");
                                        assert(o@ =~= p@ + " => { "@ + body@ + " },"@);
                                        Ok(o)
                                    },
                                }
                            },
                        }
                    },
                }
            } else {
                let mut m = cat3("<", x.tag.as_str(), ">");
                m.append(" is not a valid arm of <Match> — use <Case>");
                assert(m@ =~= angled(x@.tag) + " is not a valid arm of <Match> — use <Case>"@);
                Err(err_at(XmlErrorKind::Unsupported, m, x.byte_offset))
            }
        },
        _ => Err(
            XmlError::new(XmlErrorKind::Unsupported, to_owned("<Match> arms must be <Case> elements")),
        ),
    }
}

/// `<Match>`.
#[verifier::spinoff_prover]
pub fn codegen_match(g: &Gen, e: &AstElement) -> (r: Result<String, XmlError>)
    ensures
        res_view(r) == gen_match(*g, e@),
    decreases esize(e@), 2int,
{
    proof {
        lemma_match_unfold(*g, e@);
    }
    proof {
        lemma_nodes_view(e.children@);
    }
    let on = match attr_named(e, "on") {
        None => {
            return Err(
                err_at(
                    XmlErrorKind::UnknownAttribute,
                    to_owned("<Match> requires an `on={...}` attribute (the value being matched)"),
                    e.byte_offset,
                ),
            );
        },
        Some(a) => a,
    };
    let op = match attr_expr_only(on) {
        Ok(x) => x,
        Err(x) => {
            return Err(x);
        },
    };
    let ghost kv = nodes_view(e.children@);
    proof {
        lemma_match_arms_step(*g, kv, 0);
    }
    let mut arms = String::new();
    let mut k: usize = 0;
    while k < e.children.len()
        invariant
            k <= e.children@.len(),
            kv == nodes_view(e.children@),
            kv == e@.children,
            kv.len() == e.children@.len(),
            match_arms(*g, kv, k as int) == Ok::<Seq<char>, SError>(arms@),
            gen_match(*g, e@) == (match match_arms(*g, kv, kv.len() as int) {
                Err(x) => Err(x),
                Ok(a) => if kv.len() == 0 {
                    Err(el_err(XmlErrorKind::Unsupported, "<Match> must contain at least one <Case>"@, e@))
                } else {
                    Ok("match ("@ + op@ + ") { "@ + a + " }"@)
                },
            }),
        decreases e.children.len() - k,
    {
        proof {
            lemma_match_arms_step(*g, kv, k as int);
        }
        match codegen_match_arm(g, &e.children, k) {
            Ok(a) => {
                arms.append(a.as_str());
            },
            Err(x) => {
                proof {
                    lemma_match_arms_err(*g, kv, k + 1, kv.len() as int, x@);
                }
                return Err(x);
            },
        }
        k += 1;
    }
    if e.children.len() == 0 {
        return Err(
            err_at(
                XmlErrorKind::Unsupported,
                to_owned("<Match> must contain at least one <Case>"),
                e.byte_offset,
            ),
        );
    }
    let mut out = cat3("match (", op.as_str(), ") { ");
    out.append(arms.as_str());
    out.append(" }");
    Ok(out)
}

/// Parse an `i64` as `str::parse` does, rendered as a suffixed literal.
pub fn i64_literal(raw: &str) -> (r: Option<String>)
    ensures
        crate::ast::opt_view(r) == i64_lit(raw@),
{
    let s = chars_of(raw);
    let neg = s.len() > 0 && s[0] == '-';
    let mut k: usize = 0;
    if s.len() > 0 && (s[0] == '+' || s[0] == '-') {
        k = 1;
    }
    let start = k;
    let ghost d = crate::values::unsign(s@);
    assert(d =~= s@.skip(start as int));
    if k >= s.len() {
        return None;
    }
    let limit: u64 = if neg {
        0x8000_0000_0000_0000
    } else {
        0x7fff_ffff_ffff_ffff
    };
    let mut acc: u64 = 0;
    while k < s.len()
        invariant
            start <= k <= s@.len(),
            d == s@.skip(start as int),
            d == crate::values::unsign(raw@),
            s@ == raw@,
            crate::values::all_digits(s@.subrange(start as int, k as int)),
            acc as nat == crate::values::dec_num(s@.subrange(start as int, k as int)),
            acc <= limit,
            neg == (raw@.len() > 0 && raw@[0] == '-'),
            limit == if neg {
                0x8000_0000_0000_0000u64
            } else {
                0x7fff_ffff_ffff_ffffu64
            },
        decreases s.len() - k,
    {
        let c = s[k];
        if !('0' <= c && c <= '9') {
            assert(d[k - start] == c);
            return None;
        }
        let dv = (c as u32 - '0' as u32) as u64;
        assert(s@.subrange(start as int, k + 1).drop_last() =~= s@.subrange(start as int, k as int));
        assert(s@.subrange(start as int, k + 1).last() == c);
        if acc > (limit - dv) / 10 {
            proof {
                assert(crate::values::dec_num(s@.subrange(start as int, k + 1)) == acc * 10 + dv);
                assert(acc * 10 + dv > limit) by (nonlinear_arith)
                    requires
                        acc > (limit - dv) / 10,
                        dv <= 9,
                        limit >= 9,
                ;
                if crate::values::all_digits(d) {
                    assert(d.take(k + 1 - start) =~= s@.subrange(start as int, k + 1));
                    crate::values::lemma_dec_num_prefix_pub(d, k + 1 - start);
                }
            }
            return None;
        }
        proof {
            assert(acc * 10 + dv <= limit) by (nonlinear_arith)
                requires
                    acc <= (limit - dv) / 10,
                    dv <= 9,
                    limit >= 9,
            ;
        }
        acc = acc * 10 + dv;
        k += 1;
    }
    assert(s@.subrange(start as int, s@.len() as int) =~= d);
    let mut out = String::new();
    if neg && acc > 0 {
        out.append("-");
    }
    crate::error::push_decimal_u64(&mut out, acc);
    out.append("i64");
    proof {
        reveal_strlit("-");
    }
    Some(out)
}

/// `<State>`.
pub fn codegen_state(g: &Gen, e: &AstElement) -> (r: Result<String, XmlError>)
    ensures
        res_view(r) == gen_state(*g, e@),
    decreases esize(e@), 2int,
{
    proof {
        reveal(gen_state);
        reveal(seq_code);
    }
    let na = match attr_named(e, "name") {
        None => {
            return Err(
                err_at(
                    XmlErrorKind::UnknownAttribute,
                    to_owned("<State> requires a `name=\"...\"` attribute"),
                    e.byte_offset,
                ),
            );
        },
        Some(a) => a,
    };
    if na.expr.is_some() {
        return Err(
            err_at(
                XmlErrorKind::Unsupported,
                to_owned("<State name> requires a literal identifier, not a brace expression"),
                na.byte_offset,
            ),
        );
    }
    let da = match attr_named(e, "default") {
        None => {
            return Err(
                err_at(
                    XmlErrorKind::UnknownAttribute,
                    to_owned("<State> requires a `default=\"...\"` attribute (initial value)"),
                    e.byte_offset,
                ),
            );
        },
        Some(a) => a,
    };
    let dv = match &da.expr {
        Some(x) => match ts(x.as_str(), da.byte_offset, "<State default>") {
            Ok(v) => v,
            Err(err) => {
                return Err(err);
            },
        },
        None => state_literal_code(da.raw.as_str()),
    };
    let body = match codegen_children_as_element(g, &e.children) {
        Ok(b) => b,
        Err(x) => {
            return Err(x);
        },
    };
    let mut out = cat3("{ let ", na.raw.as_str(), " = (");
    out.append(g.cx);
    out.append(").new(|_| ");
    out.append(dv.as_str());
    out.append("); ");
    out.append(body.as_str());
    out.append(" }");
    assert(out@ =~= "{ let "@ + na@.raw + " = ("@ + g.cx@ + ").new(|_| "@ + dv@ + "); "@ + body@
        + " }"@);
    Ok(out)
}

fn has_dot(s: &str) -> (b: bool)
    ensures
        b == s@.contains('.'),
{
    let v = chars_of(s);
    let mut k: usize = 0;
    while k < v.len()
        invariant
            k <= v@.len(),
            v@ == s@,
            forall|j: int| 0 <= j < k ==> v@[j] != '.',
        decreases v.len() - k,
    {
        if v[k] == '.' {
            return true;
        }
        k += 1;
    }
    false
}

/// The initial value of a `<State default="…">` literal.
pub fn state_literal_code(raw: &str) -> (r: String)
    ensures
        r@ == state_literal(raw@),
{
    if str_eq(raw, "true") {
        return to_owned("true");
    }
    if str_eq(raw, "false") {
        return to_owned("false");
    }
    if has_dot(raw) {
        if let Some(f) = float_literal(raw, "f64") {
            return f;
        }
    }
    if let Some(i) = i64_literal(raw) {
        return i;
    }
    let mut out = to_owned("String::from(");
    push_str_lit(&mut out, raw);
    out.append(")");
    out
}

/// A pseudo-tag.
pub fn codegen_control_flow(g: &Gen, f: ControlFlowDef, e: &AstElement) -> (r: Result<
    String,
    XmlError,
>)
    ensures
        res_view(r) == gen_control(*g, f, e@),
    decreases esize(e@), 3int,
{
    proof {
        reveal(gen_control);
        reveal(if_branch);
        reveal(gen_for);
        reveal(seq_code);
        reveal(gen_match);
        reveal(gen_state);
        reveal(gen_virtual_list);
    }
    match f {
        ControlFlowDef::If | ControlFlowDef::ElseIf | ControlFlowDef::Else => codegen_if_branch(g, f, e),
        ControlFlowDef::For => codegen_for(g, e),
        ControlFlowDef::Fragment | ControlFlowDef::Template => codegen_children_as_element(g, &e.children),
        ControlFlowDef::Slot => Ok(String::new()),
        ControlFlowDef::Match => codegen_match(g, e),
        ControlFlowDef::Case => Err(
            err_at(
                XmlErrorKind::Unsupported,
                to_owned("<Case> must appear directly inside a <Match>"),
                e.byte_offset,
            ),
        ),
        ControlFlowDef::State => codegen_state(g, e),
        ControlFlowDef::VirtualList => codegen_virtual_list(g, e, false),
        ControlFlowDef::UniformVirtualList => codegen_virtual_list(g, e, true),
        ControlFlowDef::Include => Err(
            XmlError::new(
                XmlErrorKind::Unsupported,
                to_owned("internal error: <Include> should have been expanded before codegen"),
            ),
        ),
    }
}

/// Whether a virtual list keeps an attribute for itself.
fn is_vl_own(name: &str) -> (b: bool)
    ensures
        b == vl_own_attrs().contains(name@),
{
    let list = [
        "id", "item_count", "overdraw", "alignment", "on_visible_range_change", "let_item",
        "let_index", "controller", "row",
    ];
    assert(crate::strings::strs_view(list@) =~= vl_own_attrs());
    crate::strings::in_list(name, &list)
}

proof fn lemma_pass_through_err(
    attrs: Seq<crate::ast::SAttr>,
    own: Seq<Seq<char>>,
    tag: Seq<char>,
    k: int,
    n: int,
    x: SError,
)
    requires
        0 < k <= n <= attrs.len(),
        pass_through(attrs, own, tag, k) == Err::<Seq<char>, SError>(x),
    ensures
        pass_through(attrs, own, tag, n) == Err::<Seq<char>, SError>(x),
    decreases n - k,
{
    if n > k {
        lemma_pass_through_err(attrs, own, tag, k, n - 1, x);
    }
}

/// The style statements of a virtual list's pass-through attributes.
fn codegen_vl_style(e: &AstElement) -> (r: Result<String, XmlError>)
    ensures
        res_view(r) == pass_through(e@.attrs, vl_own_attrs(), e@.tag, e@.attrs.len() as int),
{
    let ghost av = e@.attrs;
    let empty: [(&'static str, &'static str); 0] = [];
    assert(empty@ =~= Seq::<(&'static str, &'static str)>::empty());
    let mut acc = String::new();
    let mut k: usize = 0;
    while k < e.attributes.len()
        invariant
            k <= e.attributes@.len(),
            av == e@.attrs,
            av.len() == e.attributes@.len(),
            forall|t: int| 0 <= t < av.len() ==> #[trigger] av[t] == e.attributes@[t]@,
            empty@ == Seq::<(&'static str, &'static str)>::empty(),
            pass_through(av, vl_own_attrs(), e@.tag, k as int) == Ok::<Seq<char>, SError>(acc@),
        decreases e.attributes.len() - k,
    {
        if !is_vl_own(e.attributes[k].name.as_str()) {
            match crate::style::apply_container_attr(&e.attributes[k], &empty, e.tag.as_str()) {
                Ok(s) => {
                    acc.append(s.as_str());
                },
                Err(x) => {
                    proof {
                        lemma_pass_through_err(av, vl_own_attrs(), e@.tag, k + 1, av.len() as int, x@);
                    }
                    return Err(x);
                },
            }
        } else {
            assert(acc@ + Seq::<char>::empty() =~= acc@);
        }
        k += 1;
    }
    Ok(acc)
}

proof fn lemma_vl_arms_err(g: Gen, kids: Seq<SNode>, k: int, n: int, x: SError)
    requires
        0 < k <= n <= kids.len(),
        vl_arms(g, kids, k) == Err::<Seq<char>, SError>(x),
    ensures
        vl_arms(g, kids, n) == Err::<Seq<char>, SError>(x),
    decreases n - k,
{
    if n > k {
        lemma_vl_arms_err(g, kids, k, n - 1, x);
        lemma_vl_arms_step(g, kids, n - 1);
    }
}

/// One arm per child, `<i>usize => { <child> }`.
fn codegen_vl_arms(g: &Gen, kids: &Vec<AstNode>) -> (r: Result<String, XmlError>)
    ensures
        res_view(r) == vl_arms(*g, nodes_view(kids@), kids@.len() as int),
    decreases ksize(nodes_view(kids@)), kids@.len() + 11,
{
    proof {
        lemma_nodes_view(kids@);
    }
    let ghost kv = nodes_view(kids@);
    proof {
        lemma_vl_arms_step(*g, kv, 0);
    }
    let mut acc = String::new();
    let mut k: usize = 0;
    while k < kids.len()
        invariant
            k <= kids@.len(),
            kv == nodes_view(kids@),
            kv.len() == kids@.len(),
            forall|i: int| 0 <= i < kids@.len() ==> #[trigger] kv[i] == node_view(kids@[i]),
            vl_arms(*g, kv, k as int) == Ok::<Seq<char>, SError>(acc@),
        decreases kids.len() - k,
    {
        proof {
            lemma_ksize_index(kv, k as int);
            lemma_vl_arms_step(*g, kv, k as int);
        }
        match codegen_child(g, &kids[k]) {
            Ok(c) => {
                let mut arm = String::new();
                push_decimal(&mut arm, k);
                arm.append("usize => { ");
                arm.append(c.as_str());
                arm.append(" }");
                acc.append(arm.as_str());
            },
            Err(x) => {
                proof {
                    lemma_vl_arms_err(*g, kv, k + 1, kv.len() as int, x@);
                }
                return Err(x);
            },
        }
        k += 1;
    }
    Ok(acc)
}

pub open spec fn pair_view(r: Result<(String, String), XmlError>) -> Result<(Seq<char>, Seq<char>), SError> {
    match r {
        Ok((a, b)) => Ok((a@, b@)),
        Err(e) => Err(e@),
    }
}

/// The item count and row closure of a virtual list.
#[verifier::spinoff_prover]
fn codegen_vl_rows(g: &Gen, e: &AstElement) -> (r: Result<(String, String), XmlError>)
    ensures
        pair_view(r) == vl_rows(*g, e@),
    decreases esize(e@), 1int,
{
    proof {
        reveal(vl_rows);
    }
    let count = attr_named(e, "item_count");
    let row = attr_named(e, "row");
    if row.is_some() && count.is_some() {
        let c = match attr_expr_only(count.unwrap()) {
            Ok(c) => c,
            Err(x) => {
                return Err(x);
            },
        };
        let rw = match attr_expr_only(row.unwrap()) {
            Ok(r) => r,
            Err(x) => {
                return Err(x);
            },
        };
        if e.children.len() > 0 {
            let mut m = cat3("<", e.tag.as_str(), ">");
            m.append(
                " `row={...}` cannot be used together with children; remove the children or use `item_count={...}` with children instead",
            );
            assert(m@ =~= angled(e@.tag)
                + " `row={...}` cannot be used together with children; remove the children or use `item_count={...}` with children instead"@);
            return Err(err_at(XmlErrorKind::Unsupported, m, e.byte_offset));
        }
        return Ok((c, rw));
    }
    if row.is_some() {
        let mut m = cat3("<", e.tag.as_str(), ">");
        m.append(" `row={...}` requires an `item_count={...}` attribute");
        assert(m@ =~= angled(e@.tag) + " `row={...}` requires an `item_count={...}` attribute"@);
        return Err(err_at(XmlErrorKind::Unsupported, m, e.byte_offset));
    }
    if count.is_some() {
        let c = match attr_expr_only(count.unwrap()) {
            Ok(c) => c,
            Err(x) => {
                return Err(x);
            },
        };
        if e.children.len() == 0 {
            let mut m = cat3("<", e.tag.as_str(), ">");
            m.append(" with `item_count` must contain at least one child (the row template)");
            assert(m@ =~= angled(e@.tag)
                + " with `item_count` must contain at least one child (the row template)"@);
            return Err(err_at(XmlErrorKind::Unsupported, m, e.byte_offset));
        }
        let index = match let_binding(attr_named(e, "let_index"), "index") {
            Some(n) => n,
            None => to_owned("index"),
        };
        let bind = match let_binding(attr_named(e, "let_item"), "item") {
            Some(it) => {
                let mut b = cat3("let ", it.as_str(), ": usize = ");
                b.append(index.as_str());
                b.append(";");
                b
            },
            None => String::new(),
        };
        let body = match codegen_children_as_element(g, &e.children) {
            Ok(b) => b,
            Err(x) => {
                return Err(x);
            },
        };
        let mut rc = cat3(
            "move |",
            index.as_str(),
            ": usize, window: &mut ::gpui::Window, cx: &mut ::gpui::App| -> ::gpui::AnyElement { ",
        );
        rc.append(bind.as_str());
        rc.append(" ::gpui::IntoElement::into_any_element(");
        rc.append(body.as_str());
        rc.append(") }");
        return Ok((c, rc));
    }
    if e.children.len() == 0 {
        let mut m = cat3("<", e.tag.as_str(), ">");
        m.append(" requires either an `item_count={...}` attribute or at least one child row");
        assert(m@ =~= angled(e@.tag)
            + " requires either an `item_count={...}` attribute or at least one child row"@);
        return Err(err_at(XmlErrorKind::Unsupported, m, e.byte_offset));
    }
    proof {
        lemma_nodes_view(e.children@);
    }
    let arms = match codegen_vl_arms(g, &e.children) {
        Ok(a) => a,
        Err(x) => {
            return Err(x);
        },
    };
    proof {
        lemma_nodes_view(e.children@);
    }
    let mut count = String::new();
    push_decimal(&mut count, e.children.len());
    count.append("usize");
    assert(count@ =~= decimal(e@.children.len()) + "usize"@);
    let mut rc = to_owned(
        "move |__ix: usize, window: &mut ::gpui::Window, cx: &mut ::gpui::App| -> ::gpui::AnyElement { ::gpui::IntoElement::into_any_element(match __ix { ",
    );
    rc.append(arms.as_str());
    rc.append(" _ => ::gpui::div(), }) }");
    assert(rc@ =~= "move |__ix: usize, window: &mut ::gpui::Window, cx: &mut ::gpui::App| -> ::gpui::AnyElement { ::gpui::IntoElement::into_any_element(match __ix { "@
        + arms@ + " _ => ::gpui::div(), }) }"@);
    Ok((count, rc))
}

pub open spec fn opts_view(r: Result<(String, String, String, Option<String>), XmlError>) -> Result<
    (Seq<char>, Seq<char>, Seq<char>, Option<Seq<char>>),
    SError,
> {
    match r {
        Ok((a, b, c, d)) => Ok((a@, b@, c@, crate::ast::opt_view(d))),
        Err(e) => Err(e@),
    }
}

/// The optional attributes of a virtual list.
fn codegen_vl_options(e: &AstElement, uniform: bool) -> (r: Result<
    (String, String, String, Option<String>),
    XmlError,
>)
    ensures
        opts_view(r) == vl_options(e@, uniform),
{
    let overdraw = match attr_named(e, "overdraw") {
        Some(a) => match attr_expr_only(a) {
            Ok(x) => x,
            Err(x) => {
                return Err(x);
            },
        },
        None => {
            let mut o = to_owned("::gpui::px(16");
            o.append(".");
            o.append(")");
            o
        },
    };
    let align = if uniform {
        String::new()
    } else {
        match attr_named(e, "alignment") {
            None => to_owned("::gpui::ListAlignment::Top"),
            Some(a) => if str_eq(a.raw.as_str(), "bottom") {
                to_owned("::gpui::ListAlignment::Bottom")
            } else if str_eq(a.raw.as_str(), "top") || a.raw.as_str().is_empty() {
                to_owned("::gpui::ListAlignment::Top")
            } else {
                let mut m = cat3("<", e.tag.as_str(), ">");
                m.append(" alignment must be \"top\" or \"bottom\", got `");
                m.append(a.raw.as_str());
                m.append("`");
                proof {
                    reveal_strlit(" alignment must be \"top\" or \"bottom\", got `");
                    reveal_strlit(" alignment must be \"top\" or \"bottom\", got ");
                    reveal_strlit("`");
                    assert(m@ =~= angled(e@.tag) + " alignment must be \"top\" or \"bottom\", got "@
                        + crate::values::ticked(a@.raw));
                }
                return Err(err_at(XmlErrorKind::Unsupported, m, a.byte_offset));
            },
        }
    };
    let range = if uniform {
        String::new()
    } else {
        match attr_named(e, "on_visible_range_change") {
            None => String::new(),
            Some(a) => match attr_expr_only(a) {
                Err(x) => {
                    return Err(x);
                },
                Ok(x) => {
                    let (ps, args) = crate::handlers::event_params_of(
                        "on_visible_range_change",
                        "VirtualList",
                    );
                    let w = crate::handlers::auto_wrap_closure_expr(&a.expr, x, ps, args);
                    cat3(".on_visible_range_change(", w.as_str(), ")")
                },
            },
        }
    };
    let ctl = match attr_named(e, "controller") {
        None => None,
        Some(a) => match attr_expr_only(a) {
            Err(x) => {
                return Err(x);
            },
            Ok(x) => Some(x),
        },
    };
    proof {
        reveal_strlit("");
    }
    Ok((overdraw, align, range, ctl))
}

/// `<VirtualList>` / `<UniformVirtualList>`.
pub fn codegen_virtual_list(g: &Gen, e: &AstElement, uniform: bool) -> (r: Result<String, XmlError>)
    ensures
        res_view(r) == gen_virtual_list(*g, e@, uniform),
    decreases esize(e@), 2int,
{
    proof {
        reveal(gen_virtual_list);
        reveal(vl_rows);
    }
    let ia = match attr_named(e, "id") {
        None => {
            let mut m = cat3("<", e.tag.as_str(), ">");
            m.append(" requires a `id={...}` attribute");
            assert(m@ =~= angled(e@.tag) + " requires a `id={...}` attribute"@);
            return Err(err_at(XmlErrorKind::UnknownAttribute, m, e.byte_offset));
        },
        Some(a) => a,
    };
    let id = match &ia.expr {
        Some(x) => match ts(x.as_str(), ia.byte_offset, "<VirtualList> id") {
            Ok(v) => v,
            Err(err) => {
                return Err(err);
            },
        },
        None => owned_lit_code(ia.raw.as_str()),
    };
    let (count, row) = match codegen_vl_rows(g, e) {
        Ok(p) => p,
        Err(x) => {
            return Err(x);
        },
    };
    let (overdraw, align, range, ctl) = match codegen_vl_options(e, uniform) {
        Ok(o) => o,
        Err(x) => {
            return Err(x);
        },
    };
    let style = match codegen_vl_style(e) {
        Ok(s) => s,
        Err(x) => {
            return Err(x);
        },
    };
    let cx = g.cx;
    let init = if uniform {
        to_owned("::yororen_ui::headless::virtual_list::UniformVirtualListController::new()")
    } else {
        let mut s = cat3(
            "::yororen_ui::headless::virtual_list::VirtualListController::new(",
            count.as_str(),
            " as usize, ",
        );
        s.append(align.as_str());
        s.append(", ");
        s.append(overdraw.as_str());
        s.append(")");
        s
    };
    let entity = match &ctl {
        Some(x) => cat3("let __entity = (", x.as_str(), ").clone();"),
        None => {
            let mut s = cat3("let __entity = window.use_keyed_state(", id.as_str(), ", ");
            s.append(cx);
            s.append(", |_window, _cx| ");
            s.append(init.as_str());
            s.append(");");
            s
        },
    };
    let sync = if uniform {
        String::new()
    } else {
        let mut s = cat3("let __target_count = (", count.as_str(), " as usize); __entity.update(");
        s.append(cx);
        s.append(
            ", |__c: &mut ::yororen_ui::headless::virtual_list::VirtualListController, _| { let __current = __c.state().item_count(); if __target_count > __current { __c.append(__target_count - __current); } else if __target_count < __current { __c.reset(__target_count); } });",
        );
        s
    };
    let call = if uniform {
        let mut s = cat3("::yororen_ui::headless::virtual_list::uniform_virtual_list", "(", id.as_str());
        s.append(", ");
        s.append(count.as_str());
        s.append(" as usize, &__snap, ");
        s.append(cx);
        s.append(")");
        s
    } else {
        let mut s = cat3("::yororen_ui::headless::virtual_list::virtual_list", "(", id.as_str());
        s.append(", &__snap, ");
        s.append(cx);
        s.append(")");
        s
    };
    let mut out = cat3("{ ", entity.as_str(), " ");
    out.append(sync.as_str());
    out.append(" let __snap = __entity.read(");
    out.append(cx);
    out.append(").clone(); let mut __props = ");
    out.append(call.as_str());
    out.append("; __props = __props.row(");
    out.append(row.as_str());
    out.append("); __props = __props");
    out.append(range.as_str());
    out.append("; let mut __el = __props.render(");
    out.append(cx);
    out.append("); ");
    out.append(style.as_str());
    out.append(" ::gpui::IntoElement::into_any_element(__el) }");
    proof {
        reveal_strlit("");
        let opts = (overdraw@, align@, range@, crate::ast::opt_view(ctl));
        assert(out@ =~= vl_block(g.cx@, uniform, id@, count@, row@, opts, style@));
    }
    Ok(out)
}

proof fn lemma_slot_stmts_err(g: Gen, l: LeafDef, kids: Seq<SNode>, k: int, n: int, x: SError)
    requires
        0 <= k <= n <= kids.len(),
        slot_stmts(g, l, kids, k) == Err::<Seq<char>, SError>(x),
    ensures
        slot_stmts(g, l, kids, n) == Err::<Seq<char>, SError>(x),
    decreases n - k,
{
    if n > k {
        lemma_slot_stmts_err(g, l, kids, k, n - 1, x);
        lemma_slot_stmts_step(g, l, kids, n - 1);
    }
}

/// The slot setters of a leaf: each child carrying `slot="…"` that
/// names one of the leaf's slots, without that attribute, passed to
/// the slot's setter.
pub fn codegen_slot_stmts(g: &Gen, l: &LeafDef, kids: &Vec<AstNode>) -> (r: Result<String, XmlError>)
    ensures
        res_view(r) == slot_stmts(*g, *l, nodes_view(kids@), kids@.len() as int),
    decreases ksize(nodes_view(kids@)), kids@.len() + 11,
{
    proof {
        lemma_nodes_view(kids@);
        lemma_slot_stmts_step(*g, *l, nodes_view(kids@), 0);
    }
    let ghost kv = nodes_view(kids@);
    let mut acc = String::new();
    let mut k: usize = 0;
    while k < kids.len()
        invariant
            k <= kids@.len(),
            kv == nodes_view(kids@),
            kv.len() == kids@.len(),
            forall|i: int| 0 <= i < kids@.len() ==> #[trigger] kv[i] == node_view(kids@[i]),
            slot_stmts(*g, *l, kv, k as int) == Ok::<Seq<char>, SError>(acc@),
        decreases kids.len() - k,
    {
        proof {
            lemma_slot_stmts_step(*g, *l, kv, k as int);
            lemma_ksize_index(kv, k as int);
        }
        match slot_of_node(l, &kids[k]) {
            None => {},
            Some(sd) => match &kids[k] {
                AstNode::Element(x) => {
                    let stripped = AstElement {
                        tag: x.tag.clone(),
                        byte_offset: x.byte_offset,
                        attributes: attrs_without(&x.attributes, "slot"),
                        children: clone_nodes(&x.children),
                    };
                    assert(stripped@ == SElement { attrs: without(x@.attrs, "slot"@), ..x@ });
                    proof {
                        lemma_nsize_element(x@);
                    }
                    match codegen_element(g, &stripped) {
                        Ok(c) => {
                            let ghost pre = acc@;
                            acc.append("__el = __el.");
                            acc.append(sd.setter);
                            acc.append("(");
                            acc.append(c.as_str());
                            acc.append(");");
                            assert(acc@ =~= pre + ("__el = __el."@ + sd.setter@ + "("@ + c@ + ");"@));
                        },
                        Err(err) => {
                            proof {
                                lemma_slot_stmts_err(*g, *l, kv, k + 1, kv.len() as int, err@);
                            }
                            return Err(err);
                        },
                    }
                },
                _ => {},
            },
        }
        k += 1;
    }
    Ok(acc)
}

proof fn lemma_before_stmts_err(g: Gen, l: LeafDef, e: SElement, kids: Seq<SNode>, k: int, n: int, x: SError)
    requires
        0 <= k <= n <= kids.len(),
        before_stmts(g, l, e, kids, k) == Err::<Seq<char>, SError>(x),
    ensures
        before_stmts(g, l, e, kids, n) == Err::<Seq<char>, SError>(x),
    decreases n - k,
{
    if n > k {
        lemma_before_stmts_err(g, l, e, kids, k, n - 1, x);
        lemma_before_stmts_step(g, l, e, kids, n - 1);
    }
}

/// The children given to a leaf's builder before it renders.
pub fn codegen_before_stmts(g: &Gen, l: &LeafDef, e: &AstElement, kids: &Vec<AstNode>) -> (r: Result<
    String,
    XmlError,
>)
    ensures
        res_view(r) == before_stmts(*g, *l, e@, nodes_view(kids@), kids@.len() as int),
    decreases ksize(nodes_view(kids@)), kids@.len() + 11,
{
    proof {
        lemma_nodes_view(kids@);
        lemma_before_stmts_step(*g, *l, e@, nodes_view(kids@), 0);
    }
    let ghost kv = nodes_view(kids@);
    let mut acc = String::new();
    let mut k: usize = 0;
    while k < kids.len()
        invariant
            k <= kids@.len(),
            kv == nodes_view(kids@),
            kv.len() == kids@.len(),
            forall|i: int| 0 <= i < kids@.len() ==> #[trigger] kv[i] == node_view(kids@[i]),
            before_stmts(*g, *l, e@, kv, k as int) == Ok::<Seq<char>, SError>(acc@),
        decreases kids.len() - k,
    {
        proof {
            lemma_before_stmts_step(*g, *l, e@, kv, k as int);
            lemma_ksize_index(kv, k as int);
        }
        let item = match &kids[k] {
            AstNode::Text { .. } => {
                let mut m = cat3("<", e.tag.as_str(), ">");
                m.append(" does not support text content; use a <Label> child");
                assert(m@ =~= angled(e@.tag) + " does not support text content; use a <Label> child"@);
                Err(err_at(XmlErrorKind::Unsupported, m, e.byte_offset))
            },
            _ => if l.unwrap_children {
                codegen_child_unwrapped(g, &kids[k])
            } else {
                codegen_child(g, &kids[k])
            },
        };
        match item {
            Ok(c) => {
                let ghost pre = acc@;
                acc.append("__el = __el.child(");
                acc.append(c.as_str());
                acc.append(");");
                assert(acc@ =~= pre + ("__el = __el.child("@ + c@ + ");"@));
            },
            Err(err) => {
                proof {
                    lemma_before_stmts_err(*g, *l, e@, kv, k + 1, kv.len() as int, err@);
                }
                return Err(err);
            },
        }
        k += 1;
    }
    Ok(acc)
}

/// The children appended to a rendered leaf: if-chains merged, the
/// text content added once where the leaf takes text.
#[verifier::spinoff_prover]
pub fn codegen_tail(g: &Gen, l: &LeafDef, e: &AstElement, kids: &Vec<AstNode>) -> (r: Result<String, XmlError>)
    ensures
        res_view(r) == tail_code(*g, *l, e@, nodes_view(kids@), 0, false),
    decreases ksize(nodes_view(kids@)), 2 * kids@.len() + 11,
{
    proof {
        lemma_nodes_view(kids@);
    }
    let ghost kv = nodes_view(kids@);
    let text = extract_text_content(kids.as_slice());
    let mut acc = String::new();
    let mut i: usize = 0;
    let mut added = false;
    proof {
        lemma_cat_assoc(seq![], seq![], tail_code(*g, *l, e@, kv, 0, false));
    }
    while i < kids.len()
        invariant
            i <= kids@.len(),
            kv == nodes_view(kids@),
            kv.len() == kids@.len(),
            forall|t: int| 0 <= t < kids@.len() ==> #[trigger] kv[t] == node_view(kids@[t]),
            crate::ast::opt_view(text) == spec_text_content(kv),
            cat(Ok(acc@), tail_code(*g, *l, e@, kv, i as int, added)) == tail_code(*g, *l, e@, kv, 0, false),
        decreases kids.len() - i,
    {
        proof {
            reveal(tail_code);
            lemma_run_end(kv, i as int);
            lemma_ksize_index(kv, i as int);
        }
        if is_if_node_exec(&kids[i]) {
            let j = run_end_exec(kids, i);
            match codegen_if_chain(g, kids, i, j) {
                Ok(c) => {
                    let ghost st = child_stmt(c@);
                    proof {
                        lemma_cat_assoc(acc@, st, tail_code(*g, *l, e@, kv, j as int, added));
                    }
                    push_child_stmt(&mut acc, c.as_str());
                },
                Err(x) => {
                    return Err(x);
                },
            }
            i = j;
        } else {
            match &kids[i] {
                AstNode::Text { .. } => {
                    if l.supports_text_child {
                        if text.is_some() && !added {
                            let mut lit = String::new();
                            match &text {
                                Some(t) => push_str_lit(&mut lit, t.as_str()),
                                None => {},
                            }
                            let ghost st = child_stmt(lit@);
                            proof {
                                lemma_cat_assoc(acc@, st, tail_code(*g, *l, e@, kv, i + 1, true));
                            }
                            push_child_stmt(&mut acc, lit.as_str());
                            added = true;
                        }
                    } else {
                        let mut m = cat3("<", e.tag.as_str(), ">");
                        m.append(" does not support text content; wrap text in a <Label>");
                        assert(m@ =~= angled(e@.tag)
                            + " does not support text content; wrap text in a <Label>"@);
                        return Err(err_at(XmlErrorKind::Unsupported, m, e.byte_offset));
                    }
                },
                _ => {
                    match codegen_child(g, &kids[i]) {
                        Ok(c) => {
                            let ghost st = child_stmt(c@);
                            proof {
                                lemma_cat_assoc(acc@, st, tail_code(*g, *l, e@, kv, i + 1, added));
                            }
                            push_child_stmt(&mut acc, c.as_str());
                        },
                        Err(x) => {
                            return Err(x);
                        },
                    }
                },
            }
            i += 1;
        }
    }
    proof {
        reveal(tail_code);
    }
    Ok(acc)
}

/// A leaf element; its slotted children fill the slots, and the others
/// go to the builder before rendering or are appended after it.
pub fn codegen_leaf(g: &Gen, l: &LeafDef, e: &AstElement, wrap_any: bool) -> (r: Result<String, XmlError>)
    ensures
        res_view(r) == gen_leaf(*g, *l, e@, wrap_any),
    decreases esize(e@), 3int,
{
    proof {
        lemma_leaf_unfold(*g, *l, e@, wrap_any);
        lemma_leaf_kids_size(*l, e@);
    }
    let rem0 = remaining_nodes(l, &e.children);
    let rem = if text_consumed_by(l, e) {
        drop_text_nodes(rem0)
    } else {
        rem0
    };
    assert(nodes_view(rem@) == leaf_kids(*l, e@));
    proof {
        lemma_nodes_view(e.children@);
        lemma_nodes_view(rem@);
    }
    let slots = codegen_slot_stmts(g, l, &e.children);
    let before = if l.children_before_render {
        codegen_before_stmts(g, l, e, &rem)
    } else {
        Ok(String::new())
    };
    let tail = if l.render == RenderMode::Default && !l.children_before_render && rem.len() > 0 {
        codegen_tail(g, l, e, &rem)
    } else {
        Ok(String::new())
    };
    assemble_leaf(g, l, e, wrap_any, slots, before, tail)
}

} // verus!
