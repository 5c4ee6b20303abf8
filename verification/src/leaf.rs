//! The parts of a leaf element's code that do not recurse into its
//! children: the factory call, the attribute setters, the slot lookup
//! and the style pass-through.
use vstd::prelude::*;

use crate::ast::{lemma_nodes_view, lemma_nodes_view_push, node_view, nodes_view, AstAttribute, AstElement, AstNode, SAttr, SElement, SNode};
use crate::emit::{attr_named, find_attr, owned_lit_code, res_view, ts};
use crate::error::{SError, XmlError, XmlErrorKind};
use crate::events::{split_event_modifiers, spec_split_event_modifiers, strings_view};
use crate::gen::err_at;
use crate::gen_spec::{
    angled, arg_prop_kind, bind_msg, cat, extra_args_code, find_slot, has_submit, is_extra_attr,
    leaf_assemble, leaf_attr, leaf_attrs, leaf_block, leaf_end, leaf_head, leaf_mid, missing_attr, modified_closure, render_stmt, set_stmt,
    remaining, slot_of, spec_extra_arg, style_stmts, text_consumed, without, without_text, Gen,
};
use crate::handlers::{
    auto_wrap_closure_expr, auto_wrap_event_call, emit_bind, event_params_of, find_event_in,
    find_prop_in, wrap_event_body_with_modifiers,
};
use crate::schema::{ExtraArg, ExtraArgKind, LeafDef, PropValue, RenderMode, SlotDef};
use crate::strings::{str_eq, to_owned};
use crate::style::{accepted_leaf_attrs, apply_container_attr, is_leaf_style_attr, suggestion_hint};
use crate::values::{
    attr_expr_only, attr_value_tokens, cat3, extract_text_content, join_comma, prop_value_tokens,
    text_attr_value,
};

verus! {

/// The prop kind whose literal reading a positional argument shares.
pub fn arg_prop_kind_of(k: ExtraArgKind) -> (r: PropValue)
    ensures
        r == arg_prop_kind(k),
{
    match k {
        ExtraArgKind::UInt => PropValue::UInt,
        ExtraArgKind::HeadingLevel => PropValue::HeadingLevel,
        ExtraArgKind::IconSource => PropValue::IconSource,
        ExtraArgKind::ImageSource => PropValue::ImageSource,
        ExtraArgKind::KeybindingInputMode => PropValue::KeybindingInputMode,
        _ => PropValue::Color,
    }
}

fn missing_attr_err(e: &AstElement, attr: &str) -> (r: XmlError)
    ensures
        r@ == missing_attr(e@, attr@),
{
    let mut m = cat3("<", e.tag.as_str(), ">");
    m.append(" requires a ");
    m.append("`");
    m.append(attr);
    m.append("`");
    m.append(" attribute");
    assert(m@ =~= angled(e@.tag) + " requires a "@ + crate::values::ticked(attr@) + " attribute"@);
    err_at(XmlErrorKind::UnknownAttribute, m, e.byte_offset)
}

/// The value of one positional factory argument of `e`.
pub fn codegen_extra_arg(x: ExtraArg, e: &AstElement) -> (r: Result<String, XmlError>)
    ensures
        res_view(r) == spec_extra_arg(x, e@),
{
    let fa = attr_named(e, x.attr);
    match x.kind {
        ExtraArgKind::Text => match fa {
            Some(a) => text_attr_value(a),
            None => match extract_text_content(e.children.as_slice()) {
                Some(t) => Ok(owned_lit_code(t.as_str())),
                None => {
                    let mut m = cat3("<", e.tag.as_str(), ">");
                    m.append(" needs a ");
                    m.append("`");
                    m.append(x.attr);
                    m.append("`");
                    m.append(" attribute or text content");
                    assert(m@ =~= angled(e@.tag) + " needs a "@ + crate::values::ticked(x.attr@)
                        + " attribute or text content"@);
                    Err(err_at(XmlErrorKind::UnknownAttribute, m, e.byte_offset))
                },
            },
        },
        ExtraArgKind::Custom => match fa {
            Some(a) => attr_value_tokens(a),
            None => Err(missing_attr_err(e, x.attr)),
        },
        ExtraArgKind::Borrow => match fa {
            Some(a) => attr_value_tokens(a),
            None => Err(missing_attr_err(e, x.attr)),
        },
        ExtraArgKind::StringList => match fa {
            Some(a) => if a.expr.is_some() {
                attr_value_tokens(a)
            } else {
                let mut m = cat3("<", e.tag.as_str(), ">");
                m.append(" attribute ");
                m.append("`");
                m.append(x.attr);
                m.append("`");
                m.append(" requires a brace expression, e.g. ");
                m.append("`");
                m.append(x.attr);
                m.append("={vec![\"Cmd\".into(), \"S\".into()]}");
                m.append("`");
                assert(m@ =~= angled(e@.tag) + " attribute "@ + crate::values::ticked(x.attr@)
                    + " requires a brace expression, e.g. "@ + crate::values::ticked(
                    x.attr@ + "={vec![\"Cmd\".into(), \"S\".into()]}"@,
                ));
                Err(err_at(XmlErrorKind::InvalidExpression, m, a.byte_offset))
            },
            None => Err(missing_attr_err(e, x.attr)),
        },
        ExtraArgKind::Callback => match fa {
            Some(a) => match attr_value_tokens(a) {
                Err(err) => Err(err),
                Ok(v) => Ok(
                    auto_wrap_closure_expr(
                        &a.expr,
                        v,
                        "__arg0, __w: &mut gpui::Window, __cx: &mut gpui::App",
                        "__arg0, __w, __cx",
                    ),
                ),
            },
            None => Err(missing_attr_err(e, x.attr)),
        },
        _ => match fa {
            Some(a) => prop_value_tokens(a, arg_prop_kind_of(x.kind)),
            None => Err(missing_attr_err(e, x.attr)),
        },
    }
}

pub open spec fn vec_res_view(r: Result<Vec<String>, XmlError>) -> Result<Seq<Seq<char>>, SError> {
    match r {
        Ok(v) => Ok(strings_view(v@)),
        Err(x) => Err(x@),
    }
}

proof fn lemma_extra_args_err(l: LeafDef, e: SElement, k: int, n: int, x: SError)
    requires
        0 < k <= n <= l.extra_args@.len(),
        extra_args_code(l, e, k) == Err::<Seq<Seq<char>>, SError>(x),
    ensures
        extra_args_code(l, e, n) == Err::<Seq<Seq<char>>, SError>(x),
    decreases n - k,
{
    if n > k {
        lemma_extra_args_err(l, e, k, n - 1, x);
    }
}

/// The values of all positional factory arguments, in order.
pub fn codegen_extra_args(l: &LeafDef, e: &AstElement) -> (r: Result<Vec<String>, XmlError>)
    ensures
        vec_res_view(r) == extra_args_code(*l, e@, l.extra_args@.len() as int),
{
    let mut acc: Vec<String> = Vec::new();
    let mut k: usize = 0;
    assert(strings_view(acc@) =~= Seq::<Seq<char>>::empty());
    while k < l.extra_args.len()
        invariant
            k <= l.extra_args@.len(),
            extra_args_code(*l, e@, k as int) == Ok::<Seq<Seq<char>>, SError>(strings_view(acc@)),
        decreases l.extra_args.len() - k,
    {
        match codegen_extra_arg(l.extra_args[k], e) {
            Ok(v) => {
                let ghost pre = acc@;
                acc.push(v);
                assert(strings_view(acc@) =~= strings_view(pre).push(v@));
            },
            Err(x) => {
                proof {
                    lemma_extra_args_err(*l, e@, k + 1, l.extra_args@.len() as int, x@);
                }
                return Err(x);
            },
        }
        k += 1;
    }
    Ok(acc)
}

proof fn lemma_join_push(s: Seq<Seq<char>>, x: Seq<char>)
    requires
        s.len() >= 1,
    ensures
        join_comma(s.push(x)) == join_comma(s) + ", "@ + x,
{
    assert(s.push(x).drop_last() =~= s);
}

/// `let mut __el = <factory>(<id>, <positional args>, [cx]);`
pub fn codegen_leaf_head(g: &Gen, l: &LeafDef, e: &AstElement) -> (r: Result<String, XmlError>)
    ensures
        res_view(r) == leaf_head(*g, *l, e@),
{
    let ia = match attr_named(e, "id") {
        None => {
            let mut m = cat3("<", e.tag.as_str(), ">");
            m.append(" requires an `id` attribute");
            assert(m@ =~= angled(e@.tag) + " requires an `id` attribute"@);
            return Err(err_at(XmlErrorKind::UnknownAttribute, m, e.byte_offset));
        },
        Some(a) => a,
    };
    let idv = match attr_value_tokens(ia) {
        Err(x) => {
            return Err(x);
        },
        Ok(v) => v,
    };
    let args = match codegen_extra_args(l, e) {
        Err(x) => {
            return Err(x);
        },
        Ok(v) => v,
    };
    let mut ctx = to_owned("factory path for ");
    ctx.append("<");
    ctx.append(e.tag.as_str());
    ctx.append(">");
    assert(ctx@ =~= "factory path for "@ + angled(e@.tag));
    let f = match ts(l.factory, e.byte_offset, ctx.as_str()) {
        Err(x) => {
            return Err(x);
        },
        Ok(f) => f,
    };
    let ghost tail: Seq<Seq<char>> = if l.needs_app {
        seq![g.cx@]
    } else {
        seq![]
    };
    let ghost all = seq![idv@] + strings_view(args@) + tail;
    let mut out = cat3("let mut __el = ", f.as_str(), "(");
    let ghost head = out@;
    out.append(idv.as_str());
    assert(join_comma(seq![idv@]) == idv@);
    let mut k: usize = 0;
    while k < args.len()
        invariant
            k <= args@.len(),
            out@ == head + join_comma(seq![idv@] + strings_view(args@).take(k as int)),
        decreases args.len() - k,
    {
        let ghost pre = seq![idv@] + strings_view(args@).take(k as int);
        out.append(", ");
        out.append(args[k].as_str());
        proof {
            lemma_join_push(pre, args@[k as int]@);
            assert(pre.push(args@[k as int]@) =~= seq![idv@] + strings_view(args@).take(k + 1));
        }
        k += 1;
    }
    assert(strings_view(args@).take(args@.len() as int) =~= strings_view(args@));
    if l.needs_app {
        let ghost pre = seq![idv@] + strings_view(args@);
        out.append(", ");
        out.append(g.cx);
        proof {
            lemma_join_push(pre, g.cx@);
            assert(pre.push(g.cx@) =~= all);
        }
    } else {
        assert(seq![idv@] + strings_view(args@) =~= all);
    }
    out.append(");");
    assert(out@ =~= "let mut __el = "@ + f@ + "("@ + join_comma(all) + ");"@);
    Ok(out)
}

/// Whether `name` is the attribute of a positional factory argument.
pub fn is_extra_attr_name(l: &LeafDef, name: &str) -> (b: bool)
    ensures
        b == is_extra_attr(*l, name@),
{
    let mut k: usize = 0;
    while k < l.extra_args.len()
        invariant
            k <= l.extra_args@.len(),
            forall|i: int| 0 <= i < k ==> #[trigger] l.extra_args@[i].attr@ != name@,
        decreases l.extra_args.len() - k,
    {
        if str_eq(l.extra_args[k].attr, name) {
            return true;
        }
        k += 1;
    }
    false
}

fn set_stmt_code(setter: &str, v: &str) -> (r: String)
    ensures
        r@ == set_stmt(setter@, v@),
{
    let mut out = to_owned("__el = __el.");
    out.append(setter);
    out.append("(");
    out.append(v);
    out.append(");");
    assert(out@ =~= set_stmt(setter@, v@));
    out
}

fn modified_closure_code(clone: Option<String>, body: &str) -> (r: String)
    ensures
        r@ == modified_closure(crate::ast::opt_view(clone), body@),
{
    match clone {
        Some(st) => {
            let mut out = to_owned("{ ");
            out.append(st.as_str());
            out.append(" move |__ev, __window, cx| { ");
            out.append(body);
            out.append(" } }");
            assert(out@ =~= "{ "@ + st@ + " move |__ev, __window, cx| { "@ + body@ + " } }"@);
            out
        },
        None => {
            let out = cat3("move |__ev, __window, cx| { ", body, " }");
            out
        },
    }
}

/// The statement one attribute of a leaf contributes before
/// rendering: nothing for the id and positional arguments, the
/// two-way binding for `bind`, a setter for a prop or an event, and
/// an error naming the accepted attributes for anything else.
pub fn codegen_leaf_attr(g: &Gen, l: &LeafDef, tag: &str, a: &AstAttribute) -> (r: Result<
    String,
    XmlError,
>)
    ensures
        res_view(r) == leaf_attr(*g, *l, tag@, a@),
{
    let name = a.name.as_str();
    if str_eq(name, "id") || is_extra_attr_name(l, name) {
        return Ok(String::new());
    }
    if str_eq(name, "bind") {
        return match &a.expr {
            Some(x) => match ts(x.as_str(), a.byte_offset, "@bind requires a brace expression, e.g. `@bind={self.name}`") {
                Err(err) => Err(err),
                Ok(p) => Ok(emit_bind(p.as_str(), l, g.cx)),
            },
            None => Err(
                err_at(
                    XmlErrorKind::InvalidExpression,
                    to_owned("@bind requires a brace expression, e.g. `@bind={self.name}`"),
                    a.byte_offset,
                ),
            ),
        };
    }
    match find_prop_in(&l.props, name) {
        Some(p) => {
            if p.value == PropValue::Flag {
                if a.expr.is_some() {
                    let mut m = to_owned("attribute ");
                    m.append("`");
                    m.append(name);
                    m.append("`");
                    m.append(" is a flag (no value) \u{2014} drop the `={\u{2026}}`");
                    assert(m@ =~= "attribute "@ + crate::values::ticked(a@.name)
                        + " is a flag (no value) \u{2014} drop the `={\u{2026}}`"@);
                    return Err(err_at(XmlErrorKind::InvalidExpression, m, a.byte_offset));
                } else if str_eq(a.raw.as_str(), "true") {
                    return Ok(cat3("__el = __el.", p.setter, "();"));
                } else {
                    return Ok(String::new());
                }
            }
            return match prop_value_tokens(a, p.value) {
                Err(err) => Err(err),
                Ok(v) => Ok(set_stmt_code(p.setter, v.as_str())),
            };
        },
        None => {},
    }
    match find_event_in(&l.events, name) {
        Some(ev) => {
            return match attr_expr_only(a) {
                Err(err) => Err(err),
                Ok(x) => {
                    let (ps, args) = event_params_of(ev.1, tag);
                    let c = auto_wrap_closure_expr(&a.expr, x, ps, args);
                    Ok(set_stmt_code(ev.1, c.as_str()))
                },
            };
        },
        None => {},
    }
    match split_event_modifiers(name) {
        Some((base, mods)) => match find_event_in(&l.events, base.as_str()) {
            Some(ev) => {
                return match attr_expr_only(a) {
                    Err(err) => Err(err),
                    Ok(x) => {
                        let (clone, call) = auto_wrap_event_call(&a.expr, &x);
                        match wrap_event_body_with_modifiers(&mods, call) {
                            Err(err) => Err(err),
                            Ok(body) => {
                                let c = modified_closure_code(clone, body.as_str());
                                Ok(set_stmt_code(ev.1, c.as_str()))
                            },
                        }
                    },
                };
            },
            None => {},
        },
        None => {},
    }
    if is_leaf_style_attr(name, l) {
        return Ok(String::new());
    }
    let acc = accepted_leaf_attrs(l);
    let h = suggestion_hint(name, acc.as_str());
    let mut m = to_owned("unknown attribute ");
    m.append("`");
    m.append(name);
    m.append("`");
    m.append(" on ");
    m.append("<");
    m.append(tag);
    m.append(">");
    m.append("; accepted: ");
    m.append(acc.as_str());
    m.append(h.as_str());
    assert(m@ =~= "unknown attribute "@ + crate::values::ticked(a@.name) + " on "@ + angled(tag@)
        + "; accepted: "@ + crate::style::accepted_leaf(*l) + crate::style::hint(
        a@.name,
        crate::style::accepted_leaf(*l),
    ));
    Err(err_at(XmlErrorKind::UnknownAttribute, m, a.byte_offset))
}

proof fn lemma_leaf_attrs_err(g: Gen, l: LeafDef, tag: Seq<char>, attrs: Seq<SAttr>, k: int, n: int, x: SError)
    requires
        0 < k <= n <= attrs.len(),
        leaf_attrs(g, l, tag, attrs, k) == Err::<Seq<char>, SError>(x),
    ensures
        leaf_attrs(g, l, tag, attrs, n) == Err::<Seq<char>, SError>(x),
    decreases n - k,
{
    if n > k {
        lemma_leaf_attrs_err(g, l, tag, attrs, k, n - 1, x);
    }
}

/// The statements of all attributes of a leaf, in order.
pub fn codegen_leaf_attrs(g: &Gen, l: &LeafDef, e: &AstElement) -> (r: Result<String, XmlError>)
    ensures
        res_view(r) == leaf_attrs(*g, *l, e@.tag, e@.attrs, e@.attrs.len() as int),
{
    let ghost av = e@.attrs;
    assert(av =~= e.attributes@.map_values(|a: AstAttribute| a@));
    let mut acc = String::new();
    let mut k: usize = 0;
    while k < e.attributes.len()
        invariant
            k <= e.attributes@.len(),
            av == e@.attrs,
            av.len() == e.attributes@.len(),
            forall|t: int| 0 <= t < av.len() ==> #[trigger] av[t] == e.attributes@[t]@,
            leaf_attrs(*g, *l, e@.tag, av, k as int) == Ok::<Seq<char>, SError>(acc@),
        decreases e.attributes.len() - k,
    {
        match codegen_leaf_attr(g, l, e.tag.as_str(), &e.attributes[k]) {
            Ok(s) => {
                acc.append(s.as_str());
            },
            Err(x) => {
                proof {
                    lemma_leaf_attrs_err(*g, *l, e@.tag, av, k + 1, av.len() as int, x@);
                }
                return Err(x);
            },
        }
        k += 1;
    }
    Ok(acc)
}

proof fn lemma_style_stmts_err(l: LeafDef, tag: Seq<char>, attrs: Seq<SAttr>, k: int, n: int, x: SError)
    requires
        0 < k <= n <= attrs.len(),
        style_stmts(l, tag, attrs, k) == Err::<Seq<char>, SError>(x),
    ensures
        style_stmts(l, tag, attrs, n) == Err::<Seq<char>, SError>(x),
    decreases n - k,
{
    if n > k {
        lemma_style_stmts_err(l, tag, attrs, k, n - 1, x);
    }
}

/// The style statements of a leaf's pass-through attributes.
pub fn codegen_style_stmts(l: &LeafDef, e: &AstElement) -> (r: Result<String, XmlError>)
    ensures
        res_view(r) == style_stmts(*l, e@.tag, e@.attrs, e@.attrs.len() as int),
{
    let ghost av = e@.attrs;
    assert(av =~= e.attributes@.map_values(|a: AstAttribute| a@));
    let empty: Vec<(&'static str, &'static str)> = Vec::new();
    let mut acc = String::new();
    let mut k: usize = 0;
    while k < e.attributes.len()
        invariant
            k <= e.attributes@.len(),
            av == e@.attrs,
            av.len() == e.attributes@.len(),
            forall|t: int| 0 <= t < av.len() ==> #[trigger] av[t] == e.attributes@[t]@,
            empty@ == Seq::<(&'static str, &'static str)>::empty(),
            style_stmts(*l, e@.tag, av, k as int) == Ok::<Seq<char>, SError>(acc@),
        decreases e.attributes.len() - k,
    {
        if is_leaf_style_attr(e.attributes[k].name.as_str(), l) {
            match apply_container_attr(&e.attributes[k], &empty, e.tag.as_str()) {
                Ok(s) => {
                    acc.append(s.as_str());
                },
                Err(x) => {
                    proof {
                        lemma_style_stmts_err(*l, e@.tag, av, k + 1, av.len() as int, x@);
                    }
                    return Err(x);
                },
            }
        } else {
            assert(acc@ + Seq::<char>::empty() =~= acc@);
        }
        k += 1;
    }
    Ok(acc)
}

/// The first slot named `name`.
pub fn find_slot_in(slots: &Vec<SlotDef>, name: &str) -> (r: Option<SlotDef>)
    ensures
        r == find_slot(slots@, name@),
{
    let mut k: usize = 0;
    assert(slots@.skip(0) =~= slots@);
    while k < slots.len()
        invariant
            k <= slots@.len(),
            find_slot(slots@.skip(k as int), name@) == find_slot(slots@, name@),
        decreases slots.len() - k,
    {
        if str_eq(slots[k].name, name) {
            return Some(slots[k]);
        }
        assert(slots@.skip(k as int).drop_first() =~= slots@.skip(k + 1));
        k += 1;
    }
    None
}

/// The slot a child fills, if any.
pub fn slot_of_node(l: &LeafDef, n: &AstNode) -> (r: Option<SlotDef>)
    ensures
        r == slot_of(*l, n@),
{
    match n {
        AstNode::Element(x) => match attr_named(x, "slot") {
            Some(sa) => find_slot_in(&l.slots, sa.raw.as_str()),
            None => None,
        },
        _ => None,
    }
}

/// A copy of `attrs` without the ones named `name`.
pub fn attrs_without(attrs: &Vec<AstAttribute>, name: &str) -> (r: Vec<AstAttribute>)
    ensures
        r@.map_values(|a: AstAttribute| a@) == without(attrs@.map_values(|a: AstAttribute| a@), name@),
{
    let ghost av = attrs@.map_values(|a: AstAttribute| a@);
    let mut out: Vec<AstAttribute> = Vec::new();
    let mut k: usize = 0;
    assert(av.take(0) =~= Seq::<SAttr>::empty());
    assert(out@.map_values(|a: AstAttribute| a@) =~= Seq::<SAttr>::empty());
    while k < attrs.len()
        invariant
            k <= attrs@.len(),
            av == attrs@.map_values(|a: AstAttribute| a@),
            out@.map_values(|a: AstAttribute| a@) == without(av.take(k as int), name@),
        decreases attrs.len() - k,
    {
        let ghost pre = out@;
        assert(av.take(k + 1).drop_last() =~= av.take(k as int));
        assert(av.take(k + 1).last() == attrs@[k as int]@);
        if !str_eq(attrs[k].name.as_str(), name) {
            let c = crate::ast::clone_attr(&attrs[k]);
            out.push(c);
            assert(out@.map_values(|a: AstAttribute| a@) =~= pre.map_values(|a: AstAttribute| a@)
                + seq![attrs@[k as int]@]);
        } else {
            assert(without(av.take(k as int), name@) + Seq::<SAttr>::empty() =~= without(
                av.take(k as int),
                name@,
            ));
        }
        k += 1;
    }
    assert(av.take(attrs@.len() as int) =~= av);
    out
}

/// The render call of a leaf.
pub fn render_stmt_code(g: &Gen, l: &LeafDef) -> (r: String)
    ensures
        r@ == render_stmt(*g, *l),
{
    if l.render == RenderMode::Default {
        if l.needs_window {
            let mut out = to_owned("let __el = __el.render(&mut *");
            out.append(g.cx);
            out.append(", &mut *window);");
            out
        } else {
            cat3("let __el = __el.render(&*", g.cx, ");")
        }
    } else {
        String::new()
    }
}

/// Whether `e` is a form with a submit button.
pub fn has_submit_button(e: &AstElement) -> (b: bool)
    ensures
        b == has_submit(e@),
{
    str_eq(e.tag.as_str(), "Form") && attr_named(e, "submit").is_some()
}

/// Whether a `Text` positional argument has no attribute on `e`.
pub fn text_consumed_by(l: &LeafDef, e: &AstElement) -> (b: bool)
    ensures
        b == text_consumed(*l, e@),
{
    let mut k: usize = 0;
    while k < l.extra_args.len()
        invariant
            k <= l.extra_args@.len(),
            forall|i: int|
                0 <= i < k ==> !((#[trigger] l.extra_args@[i]).kind == ExtraArgKind::Text && find_attr(
                    e@.attrs,
                    l.extra_args@[i].attr@,
                ) is None),
        decreases l.extra_args.len() - k,
    {
        let x = l.extra_args[k];
        if x.kind == ExtraArgKind::Text && attr_named(e, x.attr).is_none() {
            return true;
        }
        k += 1;
    }
    false
}

/// Copies of the nodes that are not text, in order.
pub fn drop_text_nodes(kids: Vec<AstNode>) -> (r: Vec<AstNode>)
    ensures
        nodes_view(r@) == without_text(nodes_view(kids@)),
{
    proof {
        lemma_nodes_view(kids@);
    }
    let ghost kv = nodes_view(kids@);
    let mut kids = kids;
    let mut out: Vec<AstNode> = Vec::new();
    let n = kids.len();
    let mut k: usize = 0;
    let ghost orig = kids@;
    assert(kv.take(0) =~= Seq::<SNode>::empty());
    while k < n
        invariant
            k <= n,
            n == orig.len(),
            kv == nodes_view(orig),
            kv.len() == orig.len(),
            forall|i: int| 0 <= i < orig.len() ==> #[trigger] kv[i] == node_view(orig[i]),
            kids@ == orig.skip(k as int),
            nodes_view(out@) == without_text(kv.take(k as int)),
        decreases n - k,
    {
        let ghost pre = out@;
        assert(kv.take(k + 1).drop_last() =~= kv.take(k as int));
        assert(kv.take(k + 1).last() == kv[k as int]);
        let ghost before = kids@;
        let c = kids.remove(0);
        assert(c == orig[k as int]);
        assert(kids@ =~= orig.skip(k + 1));
        match c {
            AstNode::Text { text, byte_offset } => {
                assert(without_text(kv.take(k as int)) + Seq::<SNode>::empty() =~= without_text(
                    kv.take(k as int),
                ));
            },
            other => {
                proof {
                    lemma_nodes_view_push(pre, other);
                }
                out.push(other);
                assert(nodes_view(out@) =~= without_text(kv.take(k as int)) + seq![kv[k as int]]);
            },
        }
        k += 1;
    }
    assert(kv.take(n as int) =~= kv);
    out
}

/// Copies of the children that fill no slot, in order.
pub fn remaining_nodes(l: &LeafDef, kids: &Vec<AstNode>) -> (r: Vec<AstNode>)
    ensures
        nodes_view(r@) == remaining(*l, nodes_view(kids@)),
{
    proof {
        lemma_nodes_view(kids@);
    }
    let ghost kv = nodes_view(kids@);
    let mut out: Vec<AstNode> = Vec::new();
    let mut k: usize = 0;
    assert(kv.take(0) =~= Seq::<SNode>::empty());
    while k < kids.len()
        invariant
            k <= kids@.len(),
            kv == nodes_view(kids@),
            kv.len() == kids@.len(),
            forall|i: int| 0 <= i < kids@.len() ==> #[trigger] kv[i] == node_view(kids@[i]),
            nodes_view(out@) == remaining(*l, kv.take(k as int)),
        decreases kids.len() - k,
    {
        let ghost pre = out@;
        assert(kv.take(k + 1).drop_last() =~= kv.take(k as int));
        assert(kv.take(k + 1).last() == kv[k as int]);
        if slot_of_node(l, &kids[k]).is_none() {
            let c = crate::ast::clone_node(&kids[k]);
            proof {
                lemma_nodes_view_push(pre, c);
            }
            out.push(c);
            assert(nodes_view(out@) =~= remaining(*l, kv.take(k as int)) + seq![kv[k as int]]);
        } else {
            assert(remaining(*l, kv.take(k as int)) + Seq::<SNode>::empty() =~= remaining(
                *l,
                kv.take(k as int),
            ));
        }
        k += 1;
    }
    assert(kv.take(kids@.len() as int) =~= kv);
    out
}

fn leaf_block_code(
    head: Result<String, XmlError>,
    attrs: Result<String, XmlError>,
    slots: Result<String, XmlError>,
    before: Result<String, XmlError>,
    mid: String,
    style: Result<String, XmlError>,
    tail: Result<String, XmlError>,
    end: String,
) -> (r: Result<String, XmlError>)
    ensures
        res_view(r) == leaf_block(
            res_view(head),
            res_view(attrs),
            res_view(slots),
            res_view(before),
            mid@,
            res_view(style),
            res_view(tail),
            end@,
        ),
{
    let head = match head {
        Ok(a) => a,
        Err(x) => {
            return Err(x);
        },
    };
    let attrs = match attrs {
        Ok(a) => a,
        Err(x) => {
            return Err(x);
        },
    };
    let slots = match slots {
        Ok(a) => a,
        Err(x) => {
            return Err(x);
        },
    };
    let before = match before {
        Ok(a) => a,
        Err(x) => {
            return Err(x);
        },
    };
    let style = match style {
        Ok(a) => a,
        Err(x) => {
            return Err(x);
        },
    };
    let tail = match tail {
        Ok(a) => a,
        Err(x) => {
            return Err(x);
        },
    };
    let mut out = to_owned("{ ");
    out.append(head.as_str());
    out.append(attrs.as_str());
    out.append(slots.as_str());
    out.append(before.as_str());
    out.append(mid.as_str());
    out.append(style.as_str());
    out.append(tail.as_str());
    out.append(end.as_str());
    out.append(" }");
    assert(out@ =~= "{ "@ + (head@ + (attrs@ + (slots@ + (before@ + (mid@ + (style@ + (tail@ + end@)))))))
        + " }"@);
    Ok(out)
}

/// A leaf's code from the code of its recursive parts, the first
/// error in document order winning.
pub fn assemble_leaf(
    g: &Gen,
    l: &LeafDef,
    e: &AstElement,
    wrap_any: bool,
    slots: Result<String, XmlError>,
    before: Result<String, XmlError>,
    tail: Result<String, XmlError>,
) -> (r: Result<String, XmlError>)
    ensures
        res_view(r) == leaf_assemble(*g, *l, e@, wrap_any, res_view(slots), res_view(before), res_view(tail)),
{
    let head = codegen_leaf_head(g, l, e);
    let attrs = codegen_leaf_attrs(g, l, e);
    let submit = has_submit_button(e);
    let mut mid = String::new();
    if submit {
        mid.append("let __form_submit_btn = __el.submit_button(&mut *");
        mid.append(g.cx);
        mid.append(");");
    }
    let rs = render_stmt_code(g, l);
    mid.append(rs.as_str());
    assert(mid@ =~= leaf_mid(*g, *l, e@));
    let style = if l.render == RenderMode::Default {
        codegen_style_stmts(l, e)
    } else {
        Ok(String::new())
    };
    let mut end = String::new();
    if submit {
        end.append(
            "let __el = if let Some(__btn) = __form_submit_btn { ::gpui::ParentElement::child(__el, __btn) } else { __el };",
        );
    }
    if wrap_any {
        end.append("::gpui::IntoElement::into_any_element(__el)");
    } else {
        end.append("__el");
    }
    assert(end@ =~= leaf_end(e@, wrap_any));
    leaf_block_code(head, attrs, slots, before, mid, style, tail, end)
}

} // verus!
