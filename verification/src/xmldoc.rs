//! The XML document as a strict XML parser reads it, and the AST built
//! from it.
use vstd::prelude::*;

use crate::ast::{
    lemma_nodes_view, lemma_nodes_view_push, nodes_view, AstAttribute, AstElement, AstNode, SAttr,
    SElement, SNode,
};
use crate::error::{serr, SError, XmlError, XmlErrorKind};
use crate::normalise::{normalise_bool_attrs, spec_normalise};
use crate::parser::{
    at_bind, bind_word, brace_body, is_ascii_digit, let_rw, line_starts, rewrite_at_bind,
    rewrite_let_attrs, spec_line_starts, starts_upto, strip_brace_expression,
};
use crate::style::{first_occ, first_occ_exec, lemma_first_occ_bounds};
use crate::values::{parse_usize, usize_value};
use vstd::utf8::encode_utf8;
use crate::strings::{
    chars_of, is_whitespace, replace_all, string_of, to_owned, trim, trim_chars, trim_start,
    utf8_byte_len, utf8_len,
};

verus! {

/// An attribute as the XML parser reports it.
pub struct XmlAttrData {
    pub name: String,
    pub value: String,
    /// Byte offset of the attribute's name.
    pub start: usize,
}

/// A node as the XML parser reports it.
pub struct XmlNodeData {
    pub element: bool,
    pub text_node: bool,
    /// The local tag name (empty for nodes that are not elements).
    pub tag: String,
    /// Byte range of the node in the parsed text.
    pub start: usize,
    pub end: usize,
    pub text: Option<String>,
    pub attrs: Vec<XmlAttrData>,
    /// Indices of the children, in order.
    pub children: Vec<usize>,
}

pub struct SXmlAttr {
    pub name: Seq<char>,
    pub value: Seq<char>,
    pub start: usize,
}

pub struct SXmlNode {
    pub element: bool,
    pub text_node: bool,
    pub tag: Seq<char>,
    pub start: usize,
    pub end: usize,
    pub text: Option<Seq<char>>,
    pub attrs: Seq<SXmlAttr>,
    pub children: Seq<usize>,
}

impl View for XmlAttrData {
    type V = SXmlAttr;

    open spec fn view(&self) -> SXmlAttr {
        SXmlAttr { name: self.name@, value: self.value@, start: self.start }
    }
}

impl View for XmlNodeData {
    type V = SXmlNode;

    open spec fn view(&self) -> SXmlNode {
        SXmlNode {
            element: self.element,
            text_node: self.text_node,
            tag: self.tag@,
            start: self.start,
            end: self.end,
            text: crate::ast::opt_view(self.text),
            attrs: self.attrs@.map_values(|a: XmlAttrData| a@),
            children: self.children@,
        }
    }
}

pub open spec fn doc_view(r: Result<Vec<XmlNodeData>, String>) -> Result<Seq<SXmlNode>, Seq<char>> {
    match r {
        Ok(v) => Ok(v@.map_values(|n: XmlNodeData| n@)),
        Err(e) => Err(e@),
    }
}

/// The nodes of the document `roxmltree` reads from `text`, in
/// document order with the document node first, or the text of its
/// error.
pub uninterp spec fn roxml_nodes(text: Seq<char>) -> Result<Seq<SXmlNode>, Seq<char>>;

/// `roxmltree::Document::parse`, every node of the document listed in
/// document order (`descendants`) by kind, tag name, byte range, text,
/// attributes (name, value, start) and children (by `NodeId`), or the
/// parser's error as text. The contract names that list and says
/// nothing of its shape.
#[verifier::external_body]
fn xml_document(text: &str) -> (r: Result<Vec<XmlNodeData>, String>)
    ensures
        doc_view(r) == roxml_nodes(text@),
{
    let doc = roxmltree::Document::parse(text).map_err(|e| e.to_string())?;
    Ok(doc.descendants().map(|n| XmlNodeData {
        element: n.is_element(), text_node: n.is_text(), tag: n.tag_name().name().to_string(),
        start: n.range().start, end: n.range().end, text: n.text().map(String::from),
        attrs: n.attributes().map(|a| XmlAttrData {
            name: a.name().to_string(), value: a.value().to_string(), start: a.range().start,
        }).collect(),
        children: n.children().map(|c| c.id().get_usize()).collect(),
    }).collect())
}

/// An attribute of the AST: a brace expression's body decoded, the
/// value kept as written.
pub open spec fn attr_from(a: SXmlAttr) -> SAttr {
    SAttr { name: a.name, raw: a.value, offset: a.start, expr: brace_body(a.value) }
}

/// Where an element's diagnostics point: the start of its range, or
/// (if smaller) its end less the tag name's length.
pub open spec fn element_offset(n: SXmlNode) -> usize {
    let q = utf8_len(n.tag);
    let back: int = if n.end >= q {
        n.end - q
    } else {
        0
    };
    if back < n.start {
        back as usize
    } else {
        n.start
    }
}

/// The leading whitespace of `s`.
pub open spec fn leading_ws(s: Seq<char>) -> Seq<char> {
    s.take(s.len() - trim_start(s).len())
}

/// Where a text node's diagnostics point: its first character that is
/// not whitespace.
pub open spec fn text_offset(n: SXmlNode, raw: Seq<char>) -> usize {
    if n.start + utf8_len(leading_ws(raw)) <= usize::MAX {
        (n.start + utf8_len(leading_ws(raw))) as usize
    } else {
        n.start
    }
}

/// The element built from node `i`.
pub open spec fn tree_element(items: Seq<SXmlNode>, i: int) -> SElement
    decreases items.len() - i, items[i].children.len() + 1,
{
    if 0 <= i < items.len() {
        let n = items[i];
        SElement {
            tag: n.tag,
            offset: element_offset(n),
            attrs: n.attrs.map_values(|a: SXmlAttr| attr_from(a)),
            children: tree_kids(items, i, n.children.len() as int),
        }
    } else {
        SElement { tag: seq![], offset: 0, attrs: seq![], children: seq![] }
    }
}

/// The AST children from the first `k` children of node `i`: elements,
/// and text trimmed when something is left of it.
pub open spec fn tree_kids(items: Seq<SXmlNode>, i: int, k: int) -> Seq<SNode>
    decreases items.len() - i, k,
{
    if k <= 0 || !(0 <= i < items.len()) || k > items[i].children.len() {
        seq![]
    } else {
        let pre = tree_kids(items, i, k - 1);
        let c = items[i].children[k - 1] as int;
        if i < c < items.len() {
            let cn = items[c];
            if cn.element {
                pre.push(SNode::Element(tree_element(items, c)))
            } else if cn.text_node {
                let raw = match cn.text {
                    Some(t) => t,
                    None => seq![],
                };
                if trim(raw).len() > 0 {
                    pre.push(SNode::Text { text: trim(raw), offset: text_offset(cn, raw) })
                } else {
                    pre
                }
            } else {
                pre
            }
        } else {
            pre
        }
    }
}

/// The index of the root element: the first element child of the
/// document node.
pub open spec fn root_from(items: Seq<SXmlNode>, k: int) -> Option<int>
    decreases items[0].children.len() - k,
{
    if items.len() == 0 || k < 0 || k >= items[0].children.len() {
        None
    } else {
        let c = items[0].children[k] as int;
        if 0 < c < items.len() && items[c].element {
            Some(c)
        } else {
            root_from(items, k + 1)
        }
    }
}

pub open spec fn attrs_from(v: Vec<XmlAttrData>) -> Seq<SAttr> {
    v@.map_values(|a: XmlAttrData| attr_from(a@))
}

fn attribute_from(a: &XmlAttrData) -> (r: AstAttribute)
    ensures
        r@ == attr_from(a@),
{
    let (expr, raw) = strip_brace_expression(a.value.as_str());
    let r = AstAttribute { name: a.name.clone(), raw, byte_offset: a.start, expr };
    assert(r@.expr == brace_body(a.value@));
    r
}

fn element_offset_of(n: &XmlNodeData) -> (r: usize)
    ensures
        r == element_offset(n@),
{
    let q = utf8_byte_len(n.tag.as_str());
    let back: usize = if (n.end as u128) >= q {
        (n.end as u128 - q) as usize
    } else {
        0
    };
    if back < n.start {
        back
    } else {
        n.start
    }
}

fn text_offset_of(n: &XmlNodeData, raw: &str) -> (r: usize)
    ensures
        r == text_offset(n@, raw@),
{
    let v = chars_of(raw);
    let mut k: usize = 0;
    assert(v@.skip(0) =~= v@);
    while k < v.len() && is_whitespace(v[k])
        invariant
            k <= v@.len(),
            trim_start(v@) == trim_start(v@.skip(k as int)),
        decreases v.len() - k,
    {
        assert(v@.skip(k as int).drop_first() =~= v@.skip(k + 1));
        k += 1;
    }
    assert(trim_start(v@.skip(k as int)) == v@.skip(k as int));
    let mut lead: Vec<char> = Vec::new();
    let mut j: usize = 0;
    while j < k
        invariant
            j <= k <= v@.len(),
            lead@ == v@.take(j as int),
        decreases k - j,
    {
        lead.push(v[j]);
        j += 1;
        assert(lead@ =~= v@.take(j as int));
    }
    assert(lead@ =~= leading_ws(raw@));
    let ls = string_of(&lead);
    let w = utf8_byte_len(ls.as_str());
    if w <= (usize::MAX as u128) && (n.start as u128) + w <= (usize::MAX as u128) {
        (n.start as u128 + w) as usize
    } else {
        n.start
    }
}

/// The element built from node `i` of the parser's list.
pub fn element_from(items: &Vec<XmlNodeData>, i: usize) -> (r: AstElement)
    requires
        i < items@.len(),
    ensures
        r@ == tree_element(items@.map_values(|n: XmlNodeData| n@), i as int),
    decreases items@.len() - i, items@[i as int].children@.len() + 1,
{
    let ghost iv = items@.map_values(|n: XmlNodeData| n@);
    let n = &items[i];
    let mut attributes: Vec<AstAttribute> = Vec::new();
    let mut k: usize = 0;
    while k < n.attrs.len()
        invariant
            k <= n.attrs@.len(),
            attributes@.len() == k,
            forall|j: int| 0 <= j < k ==> #[trigger] attributes@[j]@ == attr_from(n.attrs@[j]@),
        decreases n.attrs.len() - k,
    {
        let a = attribute_from(&n.attrs[k]);
        attributes.push(a);
        k += 1;
    }
    assert(attributes@.map_values(|a: AstAttribute| a@) =~= iv[i as int].attrs.map_values(
        |a: SXmlAttr| attr_from(a),
    ));
    let children = kids_from(items, i, n.children.len());
    let r = AstElement {
        tag: n.tag.clone(),
        byte_offset: element_offset_of(n),
        attributes,
        children,
    };
    r
}

/// The AST children from the first `k` children of node `i`.
pub fn kids_from(items: &Vec<XmlNodeData>, i: usize, k: usize) -> (r: Vec<AstNode>)
    requires
        i < items@.len(),
        k <= items@[i as int].children@.len(),
    ensures
        nodes_view(r@) == tree_kids(items@.map_values(|n: XmlNodeData| n@), i as int, k as int),
    decreases items@.len() - i, k,
{
    let ghost iv = items@.map_values(|n: XmlNodeData| n@);
    if k == 0 {
        assert(nodes_view(Seq::<AstNode>::empty()) =~= Seq::<SNode>::empty());
        return Vec::new();
    }
    let mut pre = kids_from(items, i, k - 1);
    let c = items[i].children[k - 1];
    if i < c && c < items.len() {
        let cn = &items[c];
        if cn.element {
            let el = element_from(items, c);
            proof {
                lemma_nodes_view_push(pre@, AstNode::Element(el));
            }
            pre.push(AstNode::Element(el));
        } else if cn.text_node {
            let raw = match &cn.text {
                Some(t) => t.clone(),
                None => String::new(),
            };
            let rv = chars_of(raw.as_str());
            let t = trim_chars(&rv);
            if t.len() > 0 {
                let node = AstNode::Text { text: string_of(&t), byte_offset: text_offset_of(cn, raw.as_str()) };
                proof {
                    lemma_nodes_view_push(pre@, node);
                }
                pre.push(node);
            }
        }
    }
    pre
}

/// The index of the root element, from the `k`-th child of the
/// document node on.
fn root_index(items: &Vec<XmlNodeData>) -> (r: Option<usize>)
    ensures
        match r {
            Some(c) => root_from(items@.map_values(|n: XmlNodeData| n@), 0) == Some(c as int) && 0
                < c < items@.len(),
            None => root_from(items@.map_values(|n: XmlNodeData| n@), 0) is None,
        },
{
    let ghost iv = items@.map_values(|n: XmlNodeData| n@);
    if items.len() == 0 {
        return None;
    }
    let mut k: usize = 0;
    while k < items[0].children.len()
        invariant
            items@.len() > 0,
            k <= items@[0].children@.len(),
            iv == items@.map_values(|n: XmlNodeData| n@),
            root_from(iv, k as int) == root_from(iv, 0),
        decreases items@[0].children@.len() - k,
    {
        let c = items[0].children[k];
        if 0 < c && c < items.len() && items[c].element {
            return Some(c);
        }
        k += 1;
    }
    None
}

/// The AST of a parser's node list: the root element, or an error when
/// the list has none.
pub open spec fn spec_tree(items: Seq<SXmlNode>) -> Result<SElement, SError> {
    match root_from(items, 0) {
        Some(c) => Ok(tree_element(items, c)),
        None => Err(serr(XmlErrorKind::ParseError, "the document has no root element"@, Some(0))),
    }
}

pub open spec fn el_res_view(r: Result<AstElement, XmlError>) -> Result<SElement, SError> {
    match r {
        Ok(e) => Ok(e@),
        Err(x) => Err(x@),
    }
}

/// The AST of the document a parser's node list describes.
pub fn tree_from(items: &Vec<XmlNodeData>) -> (r: Result<AstElement, XmlError>)
    ensures
        el_res_view(r) == spec_tree(items@.map_values(|n: XmlNodeData| n@)),
        r matches Err(x) ==> x.rendered is None,
{
    match root_index(items) {
        Some(c) => Ok(element_from(items, c)),
        None => Err(
            XmlError::new(XmlErrorKind::ParseError, to_owned("the document has no root element")).at(0),
        ),
    }
}

/// The first position at or after `i` that does not hold an ASCII
/// digit, or the length of `s`.
pub open spec fn nondigit_from(s: Seq<char>, i: int) -> int
    decreases s.len() - i,
{
    if i < 0 || i >= s.len() {
        s.len() as int
    } else if is_ascii_digit(s[i]) {
        nondigit_from(s, i + 1)
    } else {
        i
    }
}

pub open spec fn sat_dec(n: nat) -> nat {
    if n > 0 {
        (n - 1) as nat
    } else {
        0
    }
}

/// The byte offset an error text's `at line N, column M` hint points
/// at in a text with line starts `starts` (the column's digits may end
/// the text), or `None` when the text holds no such hint.
pub open spec fn spec_error_offset(err: Seq<char>, starts: Seq<usize>) -> Option<usize> {
    let li = first_occ(err, " at line "@, 0);
    if li >= err.len() {
        None
    } else {
        let after = err.skip(li + " at line "@.len());
        let le = nondigit_from(after, 0);
        if le >= after.len() {
            None
        } else {
            match usize_value(after.take(le)) {
                None => None,
                Some(line) => {
                    let ci = first_occ(after, ", column "@, 0);
                    if ci >= after.len() {
                        None
                    } else {
                        let ac = after.skip(ci + ", column "@.len());
                        let ce = nondigit_from(ac, 0);
                        {
                            match usize_value(ac.take(ce)) {
                                None => None,
                                Some(col) => {
                                    let l = if sat_dec(line) < sat_dec(starts.len()) {
                                        sat_dec(line)
                                    } else {
                                        sat_dec(starts.len())
                                    };
                                    if starts.len() > 0 && starts[l as int] + sat_dec(col) <= usize::MAX {
                                        Some((starts[l as int] + sat_dec(col)) as usize)
                                    } else {
                                        None
                                    }
                                },
                            }
                        }
                    }
                }
            }
        }
    }
}

fn nondigit_exec(s: &Vec<char>, i: usize) -> (r: usize)
    requires
        i <= s@.len(),
    ensures
        r == nondigit_from(s@, i as int),
        i <= r <= s@.len(),
{
    let mut k = i;
    while k < s.len() && '0' <= s[k] && s[k] <= '9'
        invariant
            i <= k <= s@.len(),
            nondigit_from(s@, k as int) == nondigit_from(s@, i as int),
        decreases s.len() - k,
    {
        k += 1;
    }
    k
}

fn skip_chars(s: &Vec<char>, a: usize) -> (r: Vec<char>)
    requires
        a <= s@.len(),
    ensures
        r@ == s@.skip(a as int),
{
    let mut out: Vec<char> = Vec::new();
    let mut k = a;
    while k < s.len()
        invariant
            a <= k <= s@.len(),
            out@ == s@.subrange(a as int, k as int),
        decreases s.len() - k,
    {
        out.push(s[k]);
        k += 1;
        assert(out@ =~= s@.subrange(a as int, k as int));
    }
    assert(out@ =~= s@.skip(a as int));
    out
}

fn take_chars(s: &Vec<char>, b: usize) -> (r: String)
    requires
        b <= s@.len(),
    ensures
        r@ == s@.take(b as int),
{
    let mut out: Vec<char> = Vec::new();
    let mut k: usize = 0;
    while k < b
        invariant
            k <= b <= s@.len(),
            out@ == s@.take(k as int),
        decreases b - k,
    {
        out.push(s[k]);
        k += 1;
        assert(out@ =~= s@.take(k as int));
    }
    string_of(&out)
}

/// The byte offset an XML parser's error text points at, read from an
/// `at line N, column M` hint against the text's line starts.
pub fn parse_roxmltree_offset(error_text: &str, normalized_xml: &str) -> (r: Option<usize>)
    ensures
        r == spec_error_offset(error_text@, spec_line_starts(normalized_xml)),
{
    proof {
        reveal_strlit(" at line ");
        reveal_strlit(", column ");
    }
    let err = chars_of(error_text);
    let lm = chars_of(" at line ");
    let cm = chars_of(", column ");
    let li = first_occ_exec(&err, &lm, 0);
    if li >= err.len() {
        return None;
    }
    proof {
        lemma_first_occ_bounds(err@, lm@, 0);
    }
    let after = skip_chars(&err, li + lm.len());
    let le = nondigit_exec(&after, 0);
    if le >= after.len() {
        return None;
    }
    let ls = take_chars(&after, le);
    let line = match parse_usize(ls.as_str()) {
        None => {
            return None;
        },
        Some(v) => v,
    };
    let ci = first_occ_exec(&after, &cm, 0);
    if ci >= after.len() {
        return None;
    }
    proof {
        lemma_first_occ_bounds(after@, cm@, 0);
    }
    let ac = skip_chars(&after, ci + cm.len());
    let ce = nondigit_exec(&ac, 0);
    let cs = take_chars(&ac, ce);
    let col = match parse_usize(cs.as_str()) {
        None => {
            return None;
        },
        Some(v) => v,
    };
    let starts = line_starts(normalized_xml);
    let ln = if line > 0 {
        line - 1
    } else {
        0
    };
    let sn = if starts.len() > 0 {
        starts.len() - 1
    } else {
        0
    };
    let l = if ln < sn {
        ln
    } else {
        sn
    };
    let cn = if col > 0 {
        col - 1
    } else {
        0
    };
    if starts.len() > 0 && starts[l] <= usize::MAX - cn {
        Some(starts[l] + cn)
    } else {
        None
    }
}

/// The text the XML parser reads: `@bind` renamed, `let:` rewritten,
/// bare attributes given a value and brace expressions quoted.
pub open spec fn preprocess(xml: Seq<char>) -> Seq<char> {
    spec_normalise(let_rw(replace_all(xml, at_bind(), bind_word()), 0))
}

/// The line starts of the text whose characters are `s`.
pub open spec fn char_line_starts(s: Seq<char>) -> Seq<usize> {
    starts_upto(encode_utf8(s), encode_utf8(s).len() as int)
}

/// The AST of `xml`: the preprocessed text read by the XML parser
/// (kind 4 name `roxml_nodes`), or its error, pointed at the hint the
/// error text gives.
pub open spec fn spec_parse(xml: Seq<char>) -> Result<SElement, SError> {
    let pre = preprocess(xml);
    match roxml_nodes(pre) {
        Err(m) => Err(
            serr(
                XmlErrorKind::ParseError,
                m,
                Some(
                    match spec_error_offset(m, char_line_starts(pre)) {
                        Some(o) => o,
                        None => 0,
                    },
                ),
            ),
        ),
        Ok(items) => spec_tree(items),
    }
}

/// Parse an `xml!` text into its root element. The text must hold
/// exactly one root element.
pub fn parse(xml: &str) -> (r: Result<AstElement, XmlError>)
    ensures
        el_res_view(r) == spec_parse(xml@),
        r matches Err(x) ==> x.rendered is None,
{
    let un_atd = rewrite_at_bind(xml);
    let preprocessed = rewrite_let_attrs(un_atd.as_str());
    let normalized = normalise_bool_attrs(preprocessed.as_str());
    match xml_document(normalized.as_str()) {
        Err(m) => {
            let offset = match parse_roxmltree_offset(m.as_str(), normalized.as_str()) {
                Some(o) => o,
                None => 0,
            };
            Err(XmlError::new(XmlErrorKind::ParseError, m).at(offset))
        },
        Ok(items) => tree_from(&items),
    }
}

} // verus!
