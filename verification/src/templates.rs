//! Compile-time templates: `<Template name="X">` definitions anywhere
//! in the tree, and `<X>` invocations replaced by the template body
//! with its `<Slot>`s filled from the call site.
use vstd::prelude::*;

use crate::ast::{
    clone_element, clone_node, clone_nodes, esize, ksize, lemma_ksize_index, lemma_nodes_view,
    lemma_nodes_view_push, lemma_nsize_element, node_view, nodes_view, nsize, AstElement, AstNode,
    SAttr, SElement, SNode,
};
use crate::emit::{attr_named, find_attr};
use crate::error::{serr, SError, XmlError, XmlErrorKind};
use crate::strings::{str_eq, to_owned};

verus! {

/// A table of named entries; a lookup finds the last entry of a name.
pub open spec fn table_get<T>(t: Seq<(Seq<char>, T)>, name: Seq<char>) -> Option<T>
    decreases t.len(),
{
    if t.len() == 0 {
        None
    } else if t.last().0 == name {
        Some(t.last().1)
    } else {
        table_get(t.drop_last(), name)
    }
}

/// No name occurs twice.
pub open spec fn distinct_names<T>(t: Seq<(Seq<char>, T)>) -> bool {
    forall|i: int, j: int| 0 <= i < j < t.len() ==> #[trigger] t[i].0 != #[trigger] t[j].0
}

pub open spec fn template_name_msg() -> Seq<char> {
    "<Template> requires a `name=\"…\"` attribute"@
}

pub open spec fn duplicate_msg(name: Seq<char>) -> Seq<char> {
    "duplicate <Template name=\""@ + name + "\"> — template names must be unique"@
}

/// The table after registering `e` itself, if it is a template.
pub open spec fn register(e: SElement, acc: Seq<(Seq<char>, SElement)>) -> Result<
    Seq<(Seq<char>, SElement)>,
    SError,
> {
    if e.tag == "Template"@ {
        match find_attr(e.attrs, "name"@) {
            None => Err(serr(XmlErrorKind::UnknownAttribute, template_name_msg(), Some(e.offset))),
            Some(na) => if na.expr is Some {
                Err(
                    serr(
                        XmlErrorKind::Unsupported,
                        "<Template name> requires a literal identifier, not a brace expression"@,
                        Some(na.offset),
                    ),
                )
            } else if table_get(acc, na.raw) is Some {
                Err(serr(XmlErrorKind::Unsupported, duplicate_msg(na.raw), Some(e.offset)))
            } else {
                Ok(acc.push((na.raw, e)))
            },
        }
    } else {
        Ok(acc)
    }
}

/// Every template of the tree under `e`, in document order, added to
/// `acc`; or the first error.
pub open spec fn walk_templates(e: SElement, acc: Seq<(Seq<char>, SElement)>) -> Result<
    Seq<(Seq<char>, SElement)>,
    SError,
>
    decreases esize(e), 1int,
{
    match register(e, acc) {
        Err(x) => Err(x),
        Ok(a) => walk_kids(e.children, e.children.len() as int, a),
    }
}

/// The templates under the first `k` of `kids`, added to `acc`.
pub open spec fn walk_kids(kids: Seq<SNode>, k: int, acc: Seq<(Seq<char>, SElement)>) -> Result<
    Seq<(Seq<char>, SElement)>,
    SError,
>
    decreases ksize(kids), k + 2,
{
    if k <= 0 || k > kids.len() {
        Ok(acc)
    } else {
        match walk_kids(kids, k - 1, acc) {
            Err(x) => Err(x),
            Ok(a) => match kids[k - 1] {
                SNode::Element(c) => {
                    proof {
                        lemma_ksize_index(kids, k - 1);
                        lemma_nsize_element(c);
                    }
                    walk_templates(c, a)
                },
                _ => Ok(a),
            },
        }
    }
}

pub open spec fn fragment(children: Seq<SNode>) -> SElement {
    SElement { tag: "Fragment"@, offset: 0, attrs: seq![], children }
}

/// A call's children split into named-slot content (the children of
/// each `<Slot name="…">`, in order) and the default slot (the rest).
pub open spec fn split_slots(kids: Seq<SNode>, k: int) -> Result<
    (Seq<(Seq<char>, Seq<SNode>)>, Seq<SNode>),
    SError,
>
    decreases k,
{
    if k <= 0 || k > kids.len() {
        Ok((seq![], seq![]))
    } else {
        match split_slots(kids, k - 1) {
            Err(x) => Err(x),
            Ok((named, dflt)) => match kids[k - 1] {
                SNode::Element(e) => if e.tag == "Slot"@ {
                    match find_attr(e.attrs, "name"@) {
                        Some(na) => if na.expr is Some {
                            Err(
                                serr(
                                    XmlErrorKind::Unsupported,
                                    "<Slot name> requires a literal identifier, not a brace expression"@,
                                    Some(na.offset),
                                ),
                            )
                        } else {
                            Ok((named.push((na.raw, e.children)), dflt))
                        },
                        None => Err(
                            serr(
                                XmlErrorKind::Unsupported,
                                "<Slot/> at the call site must have a `name` attribute — default-slot content goes directly inside the template call"@,
                                Some(e.offset),
                            ),
                        ),
                    }
                } else {
                    Ok((named, dflt.push(kids[k - 1])))
                },
                _ => Ok((named, dflt.push(kids[k - 1]))),
            },
        }
    }
}

/// The first `k` nodes with every `<Slot>` replaced: a named one by
/// that slot's content (nothing when the call gave none), an unnamed
/// one by the default slot; other elements keep their place with
/// their own children substituted.
pub open spec fn subst(
    nodes: Seq<SNode>,
    k: int,
    named: Seq<(Seq<char>, Seq<SNode>)>,
    dflt: Seq<SNode>,
) -> Result<Seq<SNode>, SError>
    decreases ksize(nodes), k,
{
    if k <= 0 || k > nodes.len() {
        Ok(seq![])
    } else {
        match subst(nodes, k - 1, named, dflt) {
            Err(x) => Err(x),
            Ok(pre) => match nodes[k - 1] {
                SNode::Element(e) => if e.tag == "Slot"@ {
                    match find_attr(e.attrs, "name"@) {
                        Some(n) => if n.expr is Some {
                            Err(
                                serr(
                                    XmlErrorKind::Unsupported,
                                    "<Slot name> inside a template must be a literal"@,
                                    Some(n.offset),
                                ),
                            )
                        } else {
                            Ok(
                                pre + match table_get(named, n.raw) {
                                    Some(c) => c,
                                    None => seq![],
                                },
                            )
                        },
                        None => Ok(pre + dflt),
                    }
                } else {
                    proof {
                        lemma_ksize_index(nodes, k - 1);
                        lemma_nsize_element(e);
                    }
                    match subst(e.children, e.children.len() as int, named, dflt) {
                        Err(x) => Err(x),
                        Ok(ch) => Ok(pre.push(SNode::Element(SElement { children: ch, ..e }))),
                    }
                },
                _ => Ok(pre.push(nodes[k - 1])),
            },
        }
    }
}

/// A `<Slot name="…">` with a literal name.
pub open spec fn is_named_slot(n: SNode) -> bool {
    &&& n is Element
    &&& n->Element_0.tag == "Slot"@
    &&& find_attr(n->Element_0.attrs, "name"@) is Some
    &&& find_attr(n->Element_0.attrs, "name"@)->0.expr is None
}

/// Named slots the call does not fill are replaced by nothing: a run
/// of such slots substitutes to no nodes at all, whatever the default
/// content is.
pub proof fn lemma_unfilled_named_slots_vanish(
    nodes: Seq<SNode>,
    k: int,
    named: Seq<(Seq<char>, Seq<SNode>)>,
    dflt: Seq<SNode>,
)
    requires
        0 <= k <= nodes.len(),
        forall|j: int| 0 <= j < k ==> is_named_slot(#[trigger] nodes[j]),
        forall|j: int|
            0 <= j < k ==> table_get(named, find_attr((#[trigger] nodes[j])->Element_0.attrs, "name"@)->0.raw) is None,
    ensures
        subst(nodes, k, named, dflt) == Ok::<Seq<SNode>, SError>(seq![]),
    decreases k,
{
    if k > 0 {
        lemma_unfilled_named_slots_vanish(nodes, k - 1, named, dflt);
        assert(is_named_slot(nodes[k - 1]));
        assert(Seq::<SNode>::empty() + Seq::<SNode>::empty() =~= Seq::<SNode>::empty());
    }
}

/// No unnamed `<Slot/>` among the first `k` nodes, nor under the
/// elements among them that are not slots.
pub open spec fn no_default_slot(nodes: Seq<SNode>, k: int) -> bool
    decreases ksize(nodes), k,
{
    if k <= 0 || k > nodes.len() {
        true
    } else {
        no_default_slot(nodes, k - 1) && match nodes[k - 1] {
            SNode::Element(e) => if e.tag == "Slot"@ {
                find_attr(e.attrs, "name"@) is Some
            } else {
                proof {
                    lemma_ksize_index(nodes, k - 1);
                    lemma_nsize_element(e);
                }
                no_default_slot(e.children, e.children.len() as int)
            },
            _ => true,
        }
    }
}

/// The call's default children go only where the template has an
/// unnamed `<Slot/>`: a body without one substitutes the same whatever
/// the default content.
pub proof fn lemma_default_only_at_unnamed_slots(
    nodes: Seq<SNode>,
    k: int,
    named: Seq<(Seq<char>, Seq<SNode>)>,
    d1: Seq<SNode>,
    d2: Seq<SNode>,
)
    requires
        no_default_slot(nodes, k),
    ensures
        subst(nodes, k, named, d1) == subst(nodes, k, named, d2),
    decreases ksize(nodes), k,
{
    if 0 < k <= nodes.len() {
        lemma_default_only_at_unnamed_slots(nodes, k - 1, named, d1, d2);
        match nodes[k - 1] {
            SNode::Element(e) => {
                if e.tag != "Slot"@ {
                    lemma_ksize_index(nodes, k - 1);
                    lemma_nsize_element(e);
                    lemma_default_only_at_unnamed_slots(e.children, e.children.len() as int, named, d1, d2);
                }
            },
            _ => {},
        }
    }
}

/// One invocation of template `tpl`: its body (an empty `<Fragment>`
/// when it has none) with the call's slots filled; a single node as
/// is, several wrapped in a `<Fragment>`.
pub open spec fn instantiate(tpl: SElement, call: SElement) -> Result<SNode, SError> {
    match split_slots(call.children, call.children.len() as int) {
        Err(x) => Err(x),
        Ok((named, dflt)) => {
            let body = if tpl.children.len() == 0 {
                seq![SNode::Element(fragment(seq![]))]
            } else {
                tpl.children
            };
            match subst(body, body.len() as int, named, dflt) {
                Err(x) => Err(x),
                Ok(b) => if b.len() == 1 {
                    Ok(b[0])
                } else {
                    Ok(SNode::Element(fragment(b)))
                },
            }
        },
    }
}

/// `e` with template invocations among its descendants expanded and
/// template definitions dropped.
pub open spec fn expand(e: SElement, t: Seq<(Seq<char>, SElement)>) -> Result<SElement, SError>
    decreases esize(e), 1int,
{
    match expand_kids(e.children, e.children.len() as int, t) {
        Err(x) => Err(x),
        Ok(ch) => Ok(SElement { children: ch, ..e }),
    }
}

/// The first `k` children, expanded.
pub open spec fn expand_kids(kids: Seq<SNode>, k: int, t: Seq<(Seq<char>, SElement)>) -> Result<
    Seq<SNode>,
    SError,
>
    decreases ksize(kids), k + 2,
{
    if k <= 0 || k > kids.len() {
        Ok(seq![])
    } else {
        match expand_kids(kids, k - 1, t) {
            Err(x) => Err(x),
            Ok(pre) => match kids[k - 1] {
                SNode::Element(c) => {
                    proof {
                        lemma_ksize_index(kids, k - 1);
                        lemma_nsize_element(c);
                    }
                    match expand(c, t) {
                        Err(x) => Err(x),
                        Ok(c2) => if c2.tag == "Template"@ {
                            Ok(pre)
                        } else {
                            match table_get(t, c2.tag) {
                                Some(tpl) => match instantiate(tpl, c2) {
                                    Err(x) => Err(x),
                                    Ok(n) => Ok(pre.push(n)),
                                },
                                None => Ok(pre.push(SNode::Element(c2))),
                            }
                        },
                    }
                },
                _ => Ok(pre.push(kids[k - 1])),
            },
        }
    }
}

pub open spec fn tpl_view(v: Seq<(String, AstElement)>) -> Seq<(Seq<char>, SElement)> {
    v.map_values(|p: (String, AstElement)| (p.0@, p.1@))
}

pub open spec fn slots_view(v: Seq<(String, Vec<AstNode>)>) -> Seq<(Seq<char>, Seq<SNode>)> {
    v.map_values(|p: (String, Vec<AstNode>)| (p.0@, nodes_view(p.1@)))
}

/// The index of the last template named `name`.
pub fn find_template(t: &Vec<(String, AstElement)>, name: &str) -> (r: Option<usize>)
    ensures
        match r {
            Some(i) => i < t@.len() && table_get(tpl_view(t@), name@) == Some(tpl_view(t@)[i as int].1),
            None => table_get(tpl_view(t@), name@) is None,
        },
{
    let ghost tv = tpl_view(t@);
    let mut k = t.len();
    assert(tv.take(k as int) =~= tv);
    while k > 0
        invariant
            k <= t@.len(),
            tv == tpl_view(t@),
            table_get(tv.take(k as int), name@) == table_get(tv, name@),
        decreases k,
    {
        assert(tv.take(k as int).last() == tv[k - 1]);
        if str_eq(t[k - 1].0.as_str(), name) {
            return Some(k - 1);
        }
        assert(tv.take(k as int).drop_last() =~= tv.take(k - 1));
        k -= 1;
    }
    None
}

/// The index of the last named slot called `name`.
pub fn find_slot_content(t: &Vec<(String, Vec<AstNode>)>, name: &str) -> (r: Option<usize>)
    ensures
        match r {
            Some(i) => i < t@.len() && table_get(slots_view(t@), name@) == Some(slots_view(t@)[i as int].1),
            None => table_get(slots_view(t@), name@) is None,
        },
{
    let ghost tv = slots_view(t@);
    let mut k = t.len();
    assert(tv.take(k as int) =~= tv);
    while k > 0
        invariant
            k <= t@.len(),
            tv == slots_view(t@),
            table_get(tv.take(k as int), name@) == table_get(tv, name@),
        decreases k,
    {
        assert(tv.take(k as int).last() == tv[k - 1]);
        if str_eq(t[k - 1].0.as_str(), name) {
            return Some(k - 1);
        }
        assert(tv.take(k as int).drop_last() =~= tv.take(k - 1));
        k -= 1;
    }
    None
}

pub open spec fn unit_view(r: Result<(), XmlError>, spec: Result<Seq<(Seq<char>, SElement)>, SError>, after: Seq<(Seq<char>, SElement)>) -> bool {
    match r {
        Ok(_) => spec == Ok::<Seq<(Seq<char>, SElement)>, SError>(after),
        Err(x) => spec == Err::<Seq<(Seq<char>, SElement)>, SError>(x@),
    }
}

proof fn lemma_walk_kids_err(kids: Seq<SNode>, k: int, n: int, acc: Seq<(Seq<char>, SElement)>, x: SError)
    requires
        0 <= k <= n <= kids.len(),
        walk_kids(kids, k, acc) == Err::<Seq<(Seq<char>, SElement)>, SError>(x),
    ensures
        walk_kids(kids, n, acc) == Err::<Seq<(Seq<char>, SElement)>, SError>(x),
    decreases n - k,
{
    if n > k {
        lemma_walk_kids_err(kids, k, n - 1, acc, x);
    }
}

/// Register every `<Template name="…">` under `el` (itself included),
/// in document order, in `out`.
pub fn walk_for_templates(el: &AstElement, out: &mut Vec<(String, AstElement)>) -> (r: Result<
    (),
    XmlError,
>)
    ensures
        unit_view(r, walk_templates(el@, tpl_view(old(out)@)), tpl_view(final(out)@)),
    decreases esize(el@), 1int,
{
    let ghost a0 = tpl_view(out@);
    if str_eq(el.tag.as_str(), "Template") {
        match attr_named(el, "name") {
            None => {
                return Err(
                    XmlError::new(
                        XmlErrorKind::UnknownAttribute,
                        to_owned("<Template> requires a `name=\"…\"` attribute"),
                    ).at(el.byte_offset),
                );
            },
            Some(na) => {
                if na.expr.is_some() {
                    return Err(
                        XmlError::new(
                            XmlErrorKind::Unsupported,
                            to_owned(
                                "<Template name> requires a literal identifier, not a brace expression",
                            ),
                        ).at(na.byte_offset),
                    );
                }
                if find_template(out, na.raw.as_str()).is_some() {
                    let mut m = to_owned("duplicate <Template name=\"");
                    m.append(na.raw.as_str());
                    m.append("\"> — template names must be unique");
                    assert(m@ =~= duplicate_msg(na.raw@));
                    return Err(XmlError::new(XmlErrorKind::Unsupported, m).at(el.byte_offset));
                }
                let ghost pre = out@;
                out.push((na.raw.clone(), clone_element(el)));
                assert(tpl_view(out@) =~= tpl_view(pre).push((na.raw@, el@)));
            },
        }
    }
    let ghost a1 = tpl_view(out@);
    assert(register(el@, a0) == Ok::<Seq<(Seq<char>, SElement)>, SError>(a1));
    proof {
        lemma_nodes_view(el.children@);
    }
    let mut k: usize = 0;
    while k < el.children.len()
        invariant
            k <= el.children@.len(),
            nodes_view(el.children@).len() == el.children@.len(),
            forall|i: int| 0 <= i < el.children@.len() ==> #[trigger] nodes_view(el.children@)[i] == node_view(el.children@[i]),
            walk_kids(el@.children, k as int, a1) == Ok::<Seq<(Seq<char>, SElement)>, SError>(tpl_view(out@)),
            walk_templates(el@, tpl_view(old(out)@)) == walk_kids(el@.children, el@.children.len() as int, a1),
        decreases el.children.len() - k,
    {
        proof {
            lemma_ksize_index(el@.children, k as int);
        }
        match &el.children[k] {
            AstNode::Element(c) => {
                proof {
                    lemma_nsize_element(c@);
                }
                let ghost before = tpl_view(out@);
                assert(el@.children[k as int] == SNode::Element(c@));
                assert(walk_kids(el@.children, k + 1, a1) == walk_templates(c@, before));
                match walk_for_templates(c, out) {
                    Ok(()) => {},
                    Err(x) => {
                        proof {
                            lemma_walk_kids_err(el@.children, k + 1, el@.children.len() as int, a1, x@);
                        }
                        return Err(x);
                    },
                }
            },
            _ => {},
        }
        k += 1;
    }
    Ok(())
}

pub open spec fn table_res_view(r: Result<Vec<(String, AstElement)>, XmlError>) -> Result<
    Seq<(Seq<char>, SElement)>,
    SError,
> {
    match r {
        Ok(v) => Ok(tpl_view(v@)),
        Err(x) => Err(x@),
    }
}

/// Every `<Template name="…">` of the tree, at any depth, by name.
pub fn collect_templates(root: &AstElement) -> (r: Result<Vec<(String, AstElement)>, XmlError>)
    ensures
        table_res_view(r) == walk_templates(root@, seq![]),
{
    let mut t: Vec<(String, AstElement)> = Vec::new();
    assert(tpl_view(t@) =~= Seq::<(Seq<char>, SElement)>::empty());
    match walk_for_templates(root, &mut t) {
        Ok(()) => Ok(t),
        Err(x) => Err(x),
    }
}

pub open spec fn split_view(r: Result<(Vec<(String, Vec<AstNode>)>, Vec<AstNode>), XmlError>) -> Result<
    (Seq<(Seq<char>, Seq<SNode>)>, Seq<SNode>),
    SError,
> {
    match r {
        Ok((n, d)) => Ok((slots_view(n@), nodes_view(d@))),
        Err(x) => Err(x@),
    }
}

proof fn lemma_split_err(kids: Seq<SNode>, k: int, n: int, x: SError)
    requires
        0 <= k <= n <= kids.len(),
        split_slots(kids, k) == Err::<(Seq<(Seq<char>, Seq<SNode>)>, Seq<SNode>), SError>(x),
    ensures
        split_slots(kids, n) == Err::<(Seq<(Seq<char>, Seq<SNode>)>, Seq<SNode>), SError>(x),
    decreases n - k,
{
    if n > k {
        lemma_split_err(kids, k, n - 1, x);
    }
}

/// A call's children split into named-slot content and the default
/// slot.
pub fn split_call_slots(call: &AstElement) -> (r: Result<
    (Vec<(String, Vec<AstNode>)>, Vec<AstNode>),
    XmlError,
>)
    ensures
        split_view(r) == split_slots(call@.children, call@.children.len() as int),
{
    let ghost kv = call@.children;
    proof {
        lemma_nodes_view(call.children@);
    }
    let mut named: Vec<(String, Vec<AstNode>)> = Vec::new();
    let mut dflt: Vec<AstNode> = Vec::new();
    let mut k: usize = 0;
    assert(slots_view(named@) =~= Seq::<(Seq<char>, Seq<SNode>)>::empty());
    assert(nodes_view(dflt@) =~= Seq::<SNode>::empty());
    while k < call.children.len()
        invariant
            k <= call.children@.len(),
            kv == call@.children,
            kv.len() == call.children@.len(),
            forall|i: int| 0 <= i < call.children@.len() ==> #[trigger] kv[i] == node_view(call.children@[i]),
            split_slots(kv, k as int) == Ok::<(Seq<(Seq<char>, Seq<SNode>)>, Seq<SNode>), SError>(
                (slots_view(named@), nodes_view(dflt@)),
            ),
        decreases call.children.len() - k,
    {
        let mut is_slot = false;
        match &call.children[k] {
            AstNode::Element(e) => {
                if str_eq(e.tag.as_str(), "Slot") {
                    is_slot = true;
                    match attr_named(e, "name") {
                        Some(na) => {
                            if na.expr.is_some() {
                                let x = XmlError::new(
                                    XmlErrorKind::Unsupported,
                                    to_owned(
                                        "<Slot name> requires a literal identifier, not a brace expression",
                                    ),
                                ).at(na.byte_offset);
                                proof {
                                    lemma_split_err(kv, k + 1, kv.len() as int, x@);
                                }
                                return Err(x);
                            }
                            let ghost pre = named@;
                            named.push((na.raw.clone(), clone_nodes(&e.children)));
                            assert(slots_view(named@) =~= slots_view(pre).push((na.raw@, e@.children)));
                        },
                        None => {
                            let x = XmlError::new(
                                XmlErrorKind::Unsupported,
                                to_owned(
                                    "<Slot/> at the call site must have a `name` attribute — default-slot content goes directly inside the template call",
                                ),
                            ).at(e.byte_offset);
                            proof {
                                lemma_split_err(kv, k + 1, kv.len() as int, x@);
                            }
                            return Err(x);
                        },
                    }
                }
            },
            _ => {},
        }
        if !is_slot {
            let c = clone_node(&call.children[k]);
            proof {
                lemma_nodes_view_push(dflt@, c);
            }
            dflt.push(c);
        }
        k += 1;
    }
    Ok((named, dflt))
}

pub open spec fn nodes_res_view(r: Result<Vec<AstNode>, XmlError>) -> Result<Seq<SNode>, SError> {
    match r {
        Ok(v) => Ok(nodes_view(v@)),
        Err(x) => Err(x@),
    }
}

proof fn lemma_subst_err(
    nodes: Seq<SNode>,
    k: int,
    n: int,
    named: Seq<(Seq<char>, Seq<SNode>)>,
    dflt: Seq<SNode>,
    x: SError,
)
    requires
        0 <= k <= n <= nodes.len(),
        subst(nodes, k, named, dflt) == Err::<Seq<SNode>, SError>(x),
    ensures
        subst(nodes, n, named, dflt) == Err::<Seq<SNode>, SError>(x),
    decreases n - k,
{
    if n > k {
        lemma_subst_err(nodes, k, n - 1, named, dflt, x);
    }
}

fn append_nodes(out: &mut Vec<AstNode>, v: &Vec<AstNode>)
    ensures
        nodes_view(final(out)@) == nodes_view(old(out)@) + nodes_view(v@),
{
    let ghost start = nodes_view(out@);
    proof {
        lemma_nodes_view(v@);
    }
    let mut k: usize = 0;
    assert(nodes_view(v@).take(0) =~= Seq::<SNode>::empty());
    assert(start + Seq::<SNode>::empty() =~= start);
    while k < v.len()
        invariant
            k <= v@.len(),
            nodes_view(v@).len() == v@.len(),
            forall|i: int| 0 <= i < v@.len() ==> #[trigger] nodes_view(v@)[i] == node_view(v@[i]),
            nodes_view(out@) == start + nodes_view(v@).take(k as int),
        decreases v.len() - k,
    {
        let c = clone_node(&v[k]);
        proof {
            lemma_nodes_view_push(out@, c);
        }
        out.push(c);
        k += 1;
        assert(nodes_view(out@) =~= start + nodes_view(v@).take(k as int));
    }
    assert(nodes_view(v@).take(v@.len() as int) =~= nodes_view(v@));
}

/// `body` with every `<Slot>` replaced by the matching call-site
/// content, at any depth.
pub fn substitute_slots(
    body: &Vec<AstNode>,
    named: &Vec<(String, Vec<AstNode>)>,
    dflt: &Vec<AstNode>,
) -> (r: Result<Vec<AstNode>, XmlError>)
    ensures
        nodes_res_view(r) == subst(nodes_view(body@), body@.len() as int, slots_view(named@), nodes_view(dflt@)),
    decreases ksize(nodes_view(body@)), body@.len(),
{
    let ghost bv = nodes_view(body@);
    let ghost nv = slots_view(named@);
    let ghost dv = nodes_view(dflt@);
    proof {
        lemma_nodes_view(body@);
    }
    let mut out: Vec<AstNode> = Vec::new();
    let mut k: usize = 0;
    assert(nodes_view(out@) =~= Seq::<SNode>::empty());
    while k < body.len()
        invariant
            k <= body@.len(),
            bv == nodes_view(body@),
            nv == slots_view(named@),
            dv == nodes_view(dflt@),
            bv.len() == body@.len(),
            forall|i: int| 0 <= i < body@.len() ==> #[trigger] bv[i] == node_view(body@[i]),
            subst(bv, k as int, nv, dv) == Ok::<Seq<SNode>, SError>(nodes_view(out@)),
        decreases body.len() - k,
    {
        proof {
            lemma_ksize_index(bv, k as int);
        }
        let mut done = false;
        match &body[k] {
            AstNode::Element(e) => {
                if str_eq(e.tag.as_str(), "Slot") {
                    done = true;
                    match attr_named(e, "name") {
                        Some(n) => {
                            if n.expr.is_some() {
                                let x = XmlError::new(
                                    XmlErrorKind::Unsupported,
                                    to_owned("<Slot name> inside a template must be a literal"),
                                ).at(n.byte_offset);
                                proof {
                                    lemma_subst_err(bv, k + 1, bv.len() as int, nv, dv, x@);
                                }
                                return Err(x);
                            }
                            match find_slot_content(named, n.raw.as_str()) {
                                Some(i) => {
                                    append_nodes(&mut out, &named[i].1);
                                },
                                None => {
                                    assert(nodes_view(out@) + Seq::<SNode>::empty() =~= nodes_view(out@));
                                },
                            }
                        },
                        None => {
                            append_nodes(&mut out, dflt);
                        },
                    }
                } else {
                    done = true;
                    proof {
                        lemma_nsize_element(e@);
                        lemma_nodes_view(e.children@);
                    }
                    match substitute_slots(&e.children, named, dflt) {
                        Ok(ch) => {
                            let el = AstElement {
                                tag: e.tag.clone(),
                                byte_offset: e.byte_offset,
                                attributes: crate::ast::clone_attrs(&e.attributes),
                                children: ch,
                            };
                            assert(el@ == SElement { children: nodes_view(ch@), ..e@ });
                            proof {
                                lemma_nodes_view_push(out@, AstNode::Element(el));
                            }
                            out.push(AstNode::Element(el));
                        },
                        Err(x) => {
                            proof {
                                lemma_subst_err(bv, k + 1, bv.len() as int, nv, dv, x@);
                            }
                            return Err(x);
                        },
                    }
                }
            },
            _ => {},
        }
        if !done {
            let c = clone_node(&body[k]);
            proof {
                lemma_nodes_view_push(out@, c);
            }
            out.push(c);
        }
        k += 1;
    }
    Ok(out)
}

pub open spec fn node_res_view(r: Result<AstNode, XmlError>) -> Result<SNode, SError> {
    match r {
        Ok(n) => Ok(n@),
        Err(x) => Err(x@),
    }
}

fn fragment_of(children: Vec<AstNode>) -> (r: AstElement)
    ensures
        r@ == fragment(nodes_view(children@)),
{
    let r = AstElement { tag: to_owned("Fragment"), byte_offset: 0, attributes: Vec::new(), children };
    assert(r@.attrs =~= Seq::<SAttr>::empty());
    r
}

/// One invocation of a template, its slots filled from the call.
pub fn instantiate_template(tpl: &AstElement, call: &AstElement) -> (r: Result<AstNode, XmlError>)
    ensures
        node_res_view(r) == instantiate(tpl@, call@),
{
    let (named, dflt) = match split_call_slots(call) {
        Ok(p) => p,
        Err(x) => {
            return Err(x);
        },
    };
    proof {
        lemma_nodes_view(tpl.children@);
    }
    let mut body = clone_nodes(&tpl.children);
    if body.len() == 0 {
        let f = fragment_of(Vec::new());
        assert(nodes_view(Seq::<AstNode>::empty()) =~= Seq::<SNode>::empty());
        proof {
            lemma_nodes_view_push(body@, AstNode::Element(f));
        }
        body.push(AstNode::Element(f));
        assert(nodes_view(body@) =~= seq![SNode::Element(fragment(seq![]))]);
    }
    proof {
        lemma_nodes_view(body@);
    }
    let mut b = match substitute_slots(&body, &named, &dflt) {
        Ok(b) => b,
        Err(x) => {
            return Err(x);
        },
    };
    proof {
        lemma_nodes_view(b@);
    }
    if b.len() == 1 {
        let n = b.pop().unwrap();
        Ok(n)
    } else {
        Ok(AstNode::Element(fragment_of(b)))
    }
}

proof fn lemma_expand_kids_err(kids: Seq<SNode>, k: int, n: int, t: Seq<(Seq<char>, SElement)>, x: SError)
    requires
        0 <= k <= n <= kids.len(),
        expand_kids(kids, k, t) == Err::<Seq<SNode>, SError>(x),
    ensures
        expand_kids(kids, n, t) == Err::<Seq<SNode>, SError>(x),
    decreases n - k,
{
    if n > k {
        lemma_expand_kids_err(kids, k, n - 1, t, x);
    }
}

pub open spec fn elem_res_view(r: Result<AstElement, XmlError>) -> Result<SElement, SError> {
    match r {
        Ok(e) => Ok(e@),
        Err(x) => Err(x@),
    }
}

/// `e` with the template invocations among its descendants expanded
/// and template definitions dropped.
pub fn expand_element(e: &AstElement, t: &Vec<(String, AstElement)>) -> (r: Result<AstElement, XmlError>)
    ensures
        elem_res_view(r) == expand(e@, tpl_view(t@)),
    decreases esize(e@), 1int,
{
    let ghost kv = e@.children;
    let ghost tv = tpl_view(t@);
    proof {
        lemma_nodes_view(e.children@);
    }
    let mut out: Vec<AstNode> = Vec::new();
    let mut k: usize = 0;
    assert(nodes_view(out@) =~= Seq::<SNode>::empty());
    while k < e.children.len()
        invariant
            k <= e.children@.len(),
            kv == e@.children,
            tv == tpl_view(t@),
            kv.len() == e.children@.len(),
            forall|i: int| 0 <= i < e.children@.len() ==> #[trigger] kv[i] == node_view(e.children@[i]),
            expand_kids(kv, k as int, tv) == Ok::<Seq<SNode>, SError>(nodes_view(out@)),
        decreases e.children.len() - k,
    {
        proof {
            lemma_ksize_index(kv, k as int);
        }
        match &e.children[k] {
            AstNode::Element(c) => {
                proof {
                    lemma_nsize_element(c@);
                }
                match expand_element(c, t) {
                    Err(x) => {
                        proof {
                            lemma_expand_kids_err(kv, k + 1, kv.len() as int, tv, x@);
                        }
                        return Err(x);
                    },
                    Ok(c2) => {
                        if !str_eq(c2.tag.as_str(), "Template") {
                            match find_template(t, c2.tag.as_str()) {
                                Some(i) => match instantiate_template(&t[i].1, &c2) {
                                    Err(x) => {
                                        proof {
                                            lemma_expand_kids_err(kv, k + 1, kv.len() as int, tv, x@);
                                        }
                                        return Err(x);
                                    },
                                    Ok(n) => {
                                        proof {
                                            lemma_nodes_view_push(out@, n);
                                        }
                                        out.push(n);
                                    },
                                },
                                None => {
                                    proof {
                                        lemma_nodes_view_push(out@, AstNode::Element(c2));
                                    }
                                    out.push(AstNode::Element(c2));
                                },
                            }
                        }
                    },
                }
            },
            _ => {
                let c = clone_node(&e.children[k]);
                proof {
                    lemma_nodes_view_push(out@, c);
                }
                out.push(c);
            },
        }
        k += 1;
    }
    let r = AstElement {
        tag: e.tag.clone(),
        byte_offset: e.byte_offset,
        attributes: crate::ast::clone_attrs(&e.attributes),
        children: out,
    };
    assert(r@ == SElement { children: nodes_view(out@), ..e@ });
    Ok(r)
}

/// Expand, in place, every template invocation under `element`,
/// dropping the template definitions. On an error the element is left
/// as it was.
pub fn expand_template_invocations(element: &mut AstElement, t: &Vec<(String, AstElement)>) -> (r: Result<
    (),
    XmlError,
>)
    ensures
        match r {
            Ok(_) => expand(old(element)@, tpl_view(t@)) == Ok::<SElement, SError>(final(element)@),
            Err(x) => expand(old(element)@, tpl_view(t@)) == Err::<SElement, SError>(x@) && final(element)@ == old(element)@,
        },
{
    match expand_element(element, t) {
        Ok(e) => {
            *element = e;
            Ok(())
        },
        Err(x) => Err(x),
    }
}

proof fn lemma_table_get_none<T>(t: Seq<(Seq<char>, T)>, name: Seq<char>)
    ensures
        table_get(t, name) is None ==> forall|i: int| 0 <= i < t.len() ==> #[trigger] t[i].0 != name,
    decreases t.len(),
{
    if t.len() > 0 {
        lemma_table_get_none(t.drop_last(), name);
        if table_get(t, name) is None {
            assert forall|i: int| 0 <= i < t.len() implies #[trigger] t[i].0 != name by {
                if i < t.len() - 1 {
                    assert(t.drop_last()[i] == t[i]);
                }
            }
        }
    }
}

/// Template names are unique: collecting the templates of a tree into
/// a table without repeated names gives a table without repeated
/// names.
pub proof fn lemma_template_names_distinct(e: SElement, acc: Seq<(Seq<char>, SElement)>)
    requires
        distinct_names(acc),
    ensures
        walk_templates(e, acc) matches Ok(t) ==> distinct_names(t),
    decreases esize(e), 1int,
{
    match register(e, acc) {
        Ok(a) => {
            if e.tag == "Template"@ {
                match find_attr(e.attrs, "name"@) {
                    Some(na) => {
                        lemma_table_get_none(acc, na.raw);
                    },
                    None => {},
                }
            }
            assert(distinct_names(a));
            lemma_kids_names_distinct(e.children, e.children.len() as int, a);
        },
        Err(_) => {},
    }
}

proof fn lemma_kids_names_distinct(kids: Seq<SNode>, k: int, acc: Seq<(Seq<char>, SElement)>)
    requires
        distinct_names(acc),
    ensures
        walk_kids(kids, k, acc) matches Ok(t) ==> distinct_names(t),
    decreases ksize(kids), k + 2,
{
    if 0 < k <= kids.len() {
        lemma_kids_names_distinct(kids, k - 1, acc);
        match walk_kids(kids, k - 1, acc) {
            Ok(a) => match kids[k - 1] {
                SNode::Element(c) => {
                    lemma_ksize_index(kids, k - 1);
                    lemma_nsize_element(c);
                    lemma_template_names_distinct(c, a);
                },
                _ => {},
            },
            Err(_) => {},
        }
    }
}

/// An entry of the template table: a `<Template>` element under its
/// literal `name`.
pub open spec fn template_entry(p: (Seq<char>, SElement)) -> bool {
    &&& p.1.tag == "Template"@
    &&& find_attr(p.1.attrs, "name"@) matches Some(na)
    &&& na.expr is None
    &&& na.raw == p.0
}

/// `t` is `acc` followed by template entries.
pub open spec fn extends_with_templates(acc: Seq<(Seq<char>, SElement)>, t: Seq<(Seq<char>, SElement)>) -> bool {
    &&& acc.len() <= t.len()
    &&& t.take(acc.len() as int) == acc
    &&& forall|k: int| acc.len() <= k < t.len() ==> template_entry(#[trigger] t[k])
}

proof fn lemma_extends_trans(
    a: Seq<(Seq<char>, SElement)>,
    b: Seq<(Seq<char>, SElement)>,
    c: Seq<(Seq<char>, SElement)>,
)
    requires
        extends_with_templates(a, b),
        extends_with_templates(b, c),
    ensures
        extends_with_templates(a, c),
{
    assert(c.take(a.len() as int) =~= a) by {
        assert forall|k: int| 0 <= k < a.len() implies c.take(a.len() as int)[k] == a[k] by {
            assert(c.take(b.len() as int)[k] == b[k]);
            assert(b.take(a.len() as int)[k] == a[k]);
        }
    }
    assert forall|k: int| a.len() <= k < c.len() implies template_entry(#[trigger] c[k]) by {
        if k < b.len() {
            assert(c.take(b.len() as int)[k] == b[k]);
        }
    }
}

/// Collecting templates only adds entries after those already there,
/// each a `<Template>` element under its literal name; a `<Template>`
/// without a name is an `UnknownAttribute` error naming the missing
/// `name` (`template_name_msg`), and a name already in the table is the
/// `duplicate` error (`duplicate_msg`).
pub proof fn lemma_templates_collected(e: SElement, acc: Seq<(Seq<char>, SElement)>)
    ensures
        walk_templates(e, acc) matches Ok(t) ==> extends_with_templates(acc, t),
        e.tag == "Template"@ && find_attr(e.attrs, "name"@) is None ==> walk_templates(e, acc) == Err::<
            Seq<(Seq<char>, SElement)>,
            SError,
        >(serr(XmlErrorKind::UnknownAttribute, template_name_msg(), Some(e.offset))),
        (e.tag == "Template"@ && find_attr(e.attrs, "name"@) is Some && find_attr(e.attrs, "name"@)->0.expr is None
            && table_get(acc, find_attr(e.attrs, "name"@)->0.raw) is Some) ==> walk_templates(e, acc) == Err::<
            Seq<(Seq<char>, SElement)>,
            SError,
        >(serr(XmlErrorKind::Unsupported, duplicate_msg(find_attr(e.attrs, "name"@)->0.raw), Some(e.offset))),
    decreases esize(e), 1int,
{
    match register(e, acc) {
        Ok(a) => {
            assert(extends_with_templates(acc, a)) by {
                if e.tag == "Template"@ {
                    assert(a.take(acc.len() as int) =~= acc);
                } else {
                    assert(a.take(acc.len() as int) =~= acc);
                }
            }
            lemma_kids_collected(e.children, e.children.len() as int, a);
            if let Ok(t) = walk_templates(e, acc) {
                lemma_extends_trans(acc, a, t);
            }
        },
        Err(_) => {},
    }
}

proof fn lemma_kids_collected(kids: Seq<SNode>, k: int, acc: Seq<(Seq<char>, SElement)>)
    ensures
        walk_kids(kids, k, acc) matches Ok(t) ==> extends_with_templates(acc, t),
    decreases ksize(kids), k + 2,
{
    if 0 < k <= kids.len() {
        lemma_kids_collected(kids, k - 1, acc);
        match walk_kids(kids, k - 1, acc) {
            Ok(a) => match kids[k - 1] {
                SNode::Element(c) => {
                    lemma_ksize_index(kids, k - 1);
                    lemma_nsize_element(c);
                    lemma_templates_collected(c, a);
                    if let Ok(t) = walk_kids(kids, k, acc) {
                        lemma_extends_trans(acc, a, t);
                    }
                },
                _ => {},
            },
            Err(_) => {},
        }
    } else {
        assert(acc.take(acc.len() as int) =~= acc);
    }
}

/// Every `<Template>` element of the tree under `e`, at any depth, in
/// document order.
pub open spec fn tree_templates(e: SElement) -> Seq<SElement>
    decreases esize(e), 1int,
{
    (if e.tag == "Template"@ {
        seq![e]
    } else {
        seq![]
    }) + kids_templates(e.children, e.children.len() as int)
}

/// The `<Template>` elements under the first `k` of `kids`.
pub open spec fn kids_templates(kids: Seq<SNode>, k: int) -> Seq<SElement>
    decreases ksize(kids), k + 2,
{
    if k <= 0 || k > kids.len() {
        seq![]
    } else {
        kids_templates(kids, k - 1) + match kids[k - 1] {
            SNode::Element(c) => {
                proof {
                    lemma_ksize_index(kids, k - 1);
                    lemma_nsize_element(c);
                }
                tree_templates(c)
            },
            _ => seq![],
        }
    }
}

/// The table entries of templates: each under its `name`.
pub open spec fn template_entries(ts: Seq<SElement>) -> Seq<(Seq<char>, SElement)> {
    ts.map_values(|x: SElement| (find_attr(x.attrs, "name"@)->0.raw, x))
}

proof fn lemma_entries_concat(a: Seq<SElement>, b: Seq<SElement>)
    ensures
        template_entries(a + b) == template_entries(a) + template_entries(b),
{
    assert(template_entries(a + b) =~= template_entries(a) + template_entries(b));
}

proof fn lemma_walk_is_tree_templates(e: SElement, acc: Seq<(Seq<char>, SElement)>)
    ensures
        walk_templates(e, acc) matches Ok(t) ==> t == acc + template_entries(tree_templates(e)),
    decreases esize(e), 1int,
{
    match register(e, acc) {
        Ok(a) => {
            lemma_kids_are_tree_templates(e.children, e.children.len() as int, a);
            let own: Seq<SElement> = if e.tag == "Template"@ { seq![e] } else { seq![] };
            lemma_entries_concat(own, kids_templates(e.children, e.children.len() as int));
            if e.tag == "Template"@ {
                assert(a =~= acc + template_entries(own));
            } else {
                assert(a =~= acc + template_entries(own));
            }
            if let Ok(t) = walk_templates(e, acc) {
                assert(t =~= acc + template_entries(tree_templates(e)));
            }
        },
        Err(_) => {},
    }
}

proof fn lemma_kids_are_tree_templates(kids: Seq<SNode>, k: int, acc: Seq<(Seq<char>, SElement)>)
    ensures
        walk_kids(kids, k, acc) matches Ok(t) ==> t == acc + template_entries(kids_templates(kids, k)),
    decreases ksize(kids), k + 2,
{
    if 0 < k <= kids.len() {
        lemma_kids_are_tree_templates(kids, k - 1, acc);
        match walk_kids(kids, k - 1, acc) {
            Ok(a) => match kids[k - 1] {
                SNode::Element(c) => {
                    lemma_ksize_index(kids, k - 1);
                    lemma_nsize_element(c);
                    lemma_walk_is_tree_templates(c, a);
                    lemma_entries_concat(kids_templates(kids, k - 1), tree_templates(c));
                    if let Ok(t) = walk_kids(kids, k, acc) {
                        assert(t =~= acc + template_entries(kids_templates(kids, k)));
                    }
                },
                _ => {
                    assert(kids_templates(kids, k) =~= kids_templates(kids, k - 1));
                },
            },
            Err(_) => {},
        }
    } else {
        assert(template_entries(kids_templates(kids, k)) =~= Seq::<(Seq<char>, SElement)>::empty());
        assert(acc + Seq::<(Seq<char>, SElement)>::empty() =~= acc);
    }
}

/// Templates are collected at any depth: a successful collection adds
/// exactly the tree's `<Template>` elements, in document order, each
/// under its literal `name`; so every template anywhere has a literal
/// name, and (from a table without repeated names) no two templates
/// anywhere share a name.
pub proof fn lemma_templates_anywhere(e: SElement, acc: Seq<(Seq<char>, SElement)>)
    ensures
        walk_templates(e, acc) matches Ok(t) ==> {
            &&& t == acc + template_entries(tree_templates(e))
            &&& forall|k: int| 0 <= k < tree_templates(e).len() ==> template_entry(
                #[trigger] template_entries(tree_templates(e))[k],
            )
            &&& distinct_names(acc) ==> distinct_names(t)
        },
{
    lemma_walk_is_tree_templates(e, acc);
    lemma_templates_collected(e, acc);
    lemma_template_names_distinct_any(e, acc);
    if let Ok(t) = walk_templates(e, acc) {
        assert forall|k: int| 0 <= k < tree_templates(e).len() implies template_entry(
            #[trigger] template_entries(tree_templates(e))[k],
        ) by {
            assert(t[acc.len() + k] == template_entries(tree_templates(e))[k]);
        }
    }
}

proof fn lemma_template_names_distinct_any(e: SElement, acc: Seq<(Seq<char>, SElement)>)
    ensures
        distinct_names(acc) ==> (walk_templates(e, acc) matches Ok(t) ==> distinct_names(t)),
{
    if distinct_names(acc) {
        lemma_template_names_distinct(e, acc);
    }
}

} // verus!
