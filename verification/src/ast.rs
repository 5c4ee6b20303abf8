//! The parsed XML tree consumed by the code generator. Every node
//! carries the byte offset of its source in the (normalised) XML so
//! that diagnostics can point back at it.
use vstd::prelude::*;

use crate::strings::to_owned;

verus! {

/// An XML element: its tag, attributes and children.
#[derive(Debug)]
pub struct AstElement {
    pub tag: String,
    /// Byte offset of the element's `<` in the XML text.
    pub byte_offset: usize,
    pub attributes: Vec<AstAttribute>,
    pub children: Vec<AstNode>,
}

/// One attribute of an element.
#[derive(Debug)]
pub struct AstAttribute {
    pub name: String,
    /// The literal text of the value as the parser saw it.
    pub raw: String,
    /// Byte offset of the attribute in the XML text.
    pub byte_offset: usize,
    /// The body of a brace expression (`{...}`), or `None` for a
    /// string literal (whose contents are then in `raw`).
    pub expr: Option<String>,
}

/// A child of an element.
#[derive(Debug)]
pub enum AstNode {
    Element(AstElement),
    /// Trimmed, non-empty text content.
    Text { text: String, byte_offset: usize },
    /// A Rust expression spliced in as a child.
    Expr { expr: String, byte_offset: usize },
}

/// The mathematical form of an attribute.
pub struct SAttr {
    pub name: Seq<char>,
    pub raw: Seq<char>,
    pub offset: usize,
    pub expr: Option<Seq<char>>,
}

/// The mathematical form of an element.
pub struct SElement {
    pub tag: Seq<char>,
    pub offset: usize,
    pub attrs: Seq<SAttr>,
    pub children: Seq<SNode>,
}

/// The mathematical form of a node.
pub enum SNode {
    Element(SElement),
    Text { text: Seq<char>, offset: usize },
    Expr { expr: Seq<char>, offset: usize },
}

pub open spec fn opt_view(o: Option<String>) -> Option<Seq<char>> {
    match o {
        Some(s) => Some(s@),
        None => None,
    }
}

impl View for AstAttribute {
    type V = SAttr;

    open spec fn view(&self) -> SAttr {
        SAttr { name: self.name@, raw: self.raw@, offset: self.byte_offset, expr: opt_view(self.expr) }
    }
}

pub open spec fn element_view(e: AstElement) -> SElement
    decreases e,
{
    SElement {
        tag: e.tag@,
        offset: e.byte_offset,
        attrs: e.attributes@.map_values(|a: AstAttribute| a@),
        children: nodes_view(e.children@),
    }
}

pub open spec fn nodes_view(v: Seq<AstNode>) -> Seq<SNode>
    decreases v,
{
    if v.len() == 0 {
        Seq::empty()
    } else {
        nodes_view(v.drop_last()).push(node_view(v.last()))
    }
}

pub open spec fn node_view(n: AstNode) -> SNode
    decreases n,
{
    match n {
        AstNode::Element(e) => SNode::Element(element_view(e)),
        AstNode::Text { text, byte_offset } => SNode::Text { text: text@, offset: byte_offset },
        AstNode::Expr { expr, byte_offset } => SNode::Expr { expr: expr@, offset: byte_offset },
    }
}

} // verus!

verus! {

impl View for AstElement {
    type V = SElement;

    open spec fn view(&self) -> SElement {
        element_view(*self)
    }
}

impl View for AstNode {
    type V = SNode;

    open spec fn view(&self) -> SNode {
        node_view(*self)
    }
}

pub proof fn lemma_nodes_view(v: Seq<AstNode>)
    ensures
        nodes_view(v).len() == v.len(),
        forall|i: int| 0 <= i < v.len() ==> #[trigger] nodes_view(v)[i] == node_view(v[i]),
    decreases v.len(),
{
    if v.len() > 0 {
        lemma_nodes_view(v.drop_last());
    }
}

pub proof fn lemma_nodes_view_push(v: Seq<AstNode>, n: AstNode)
    ensures
        nodes_view(v.push(n)) == nodes_view(v).push(node_view(n)),
{
    assert(v.push(n).drop_last() =~= v);
}

pub open spec fn attrs_view(v: Seq<AstAttribute>) -> Seq<SAttr> {
    v.map_values(|a: AstAttribute| a@)
}

/// A copy of an optional string.
pub fn clone_opt(o: &Option<String>) -> (r: Option<String>)
    ensures
        opt_view(r) == opt_view(*o),
{
    match o {
        Some(s) => Some(s.clone()),
        None => None,
    }
}

/// A copy of an attribute.
pub fn clone_attr(a: &AstAttribute) -> (r: AstAttribute)
    ensures
        r@ == a@,
{
    AstAttribute {
        name: a.name.clone(),
        raw: a.raw.clone(),
        byte_offset: a.byte_offset,
        expr: clone_opt(&a.expr),
    }
}

/// A copy of a list of attributes.
pub fn clone_attrs(v: &Vec<AstAttribute>) -> (r: Vec<AstAttribute>)
    ensures
        attrs_view(r@) == attrs_view(v@),
{
    let mut r: Vec<AstAttribute> = Vec::new();
    let mut k: usize = 0;
    while k < v.len()
        invariant
            k <= v@.len(),
            r@.len() == k,
            attrs_view(r@) == attrs_view(v@).take(k as int),
        decreases v.len() - k,
    {
        let a = clone_attr(&v[k]);
        let ghost old_r = r@;
        r.push(a);
        k += 1;
        assert(r@.len() == k);
        assert forall|i: int| 0 <= i < k implies #[trigger] attrs_view(r@)[i] == attrs_view(
            v@,
        )[i] by {
            assert(attrs_view(r@)[i] == r@[i]@);
            assert(attrs_view(v@)[i] == v@[i]@);
            if i < k - 1 {
                assert(r@[i] == old_r[i]);
                assert(attrs_view(old_r)[i] == old_r[i]@);
                assert(attrs_view(old_r)[i] == attrs_view(v@).take(k - 1)[i]);
            }
        }
        assert(attrs_view(r@) =~= attrs_view(v@).take(k as int));
    }
    assert(attrs_view(v@).take(v@.len() as int) =~= attrs_view(v@));
    r
}

/// A deep copy of an element.
pub fn clone_element(e: &AstElement) -> (r: AstElement)
    ensures
        r@ == e@,
    decreases e,
{
    let children = clone_nodes(&e.children);
    AstElement {
        tag: e.tag.clone(),
        byte_offset: e.byte_offset,
        attributes: clone_attrs(&e.attributes),
        children,
    }
}

/// A deep copy of a node.
pub fn clone_node(n: &AstNode) -> (r: AstNode)
    ensures
        r@ == n@,
    decreases n,
{
    match n {
        AstNode::Element(e) => AstNode::Element(clone_element(e)),
        AstNode::Text { text, byte_offset } => AstNode::Text {
            text: text.clone(),
            byte_offset: *byte_offset,
        },
        AstNode::Expr { expr, byte_offset } => AstNode::Expr {
            expr: expr.clone(),
            byte_offset: *byte_offset,
        },
    }
}

/// A deep copy of a list of nodes.
pub fn clone_nodes(v: &Vec<AstNode>) -> (r: Vec<AstNode>)
    ensures
        nodes_view(r@) == nodes_view(v@),
    decreases v,
{
    let mut r: Vec<AstNode> = Vec::new();
    let mut k: usize = 0;
    proof {
        lemma_nodes_view(v@);
    }
    while k < v.len()
        invariant
            k <= v@.len(),
            nodes_view(r@) == nodes_view(v@).take(k as int),
            nodes_view(v@).len() == v@.len(),
            forall|i: int| 0 <= i < v@.len() ==> #[trigger] nodes_view(v@)[i] == node_view(v@[i]),
        decreases v.len() - k,
    {
        let c = clone_node(&v[k]);
        proof {
            lemma_nodes_view_push(r@, c);
        }
        r.push(c);
        k += 1;
        assert(nodes_view(r@) =~= nodes_view(v@).take(k as int));
    }
    assert(nodes_view(v@).take(v@.len() as int) =~= nodes_view(v@));
    r
}


/// The number of nodes in a node and everything below it.
#[verifier::opaque]
pub open spec fn nsize(n: SNode) -> nat
    decreases n,
{
    match n {
        SNode::Element(e) => 1 + ksize(e.children),
        _ => 1,
    }
}

/// The number of nodes in a list of nodes and everything below them.
#[verifier::opaque]
pub open spec fn ksize(kids: Seq<SNode>) -> nat
    decreases kids,
{
    if kids.len() == 0 {
        0
    } else {
        ksize(kids.drop_last()) + nsize(kids.last())
    }
}

/// The number of nodes in an element and everything below it.
pub open spec fn esize(e: SElement) -> nat {
    1 + ksize(e.children)
}

pub proof fn lemma_ksize_index(kids: Seq<SNode>, i: int)
    requires
        0 <= i < kids.len(),
    ensures
        nsize(kids[i]) <= ksize(kids),
    decreases kids.len(),
{
    reveal(ksize);
    reveal(nsize);
    if i < kids.len() - 1 {
        lemma_ksize_index(kids.drop_last(), i);
    }
}

pub proof fn lemma_nsize_element(x: SElement)
    ensures
        nsize(SNode::Element(x)) == esize(x),
{
    reveal(nsize);
    reveal(ksize);
}

} // verus!
