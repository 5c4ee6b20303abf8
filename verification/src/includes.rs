//! `<Include src="…">`: another XML file inlined at compile time. The
//! library resolves the path, validates the element, parses what was
//! read and splices it in; reading the file is the caller's.
use vstd::prelude::*;

use crate::ast::{
    clone_element, esize, ksize, lemma_ksize_index, lemma_nodes_view, lemma_nsize_element, nsize,
    node_view, nodes_view, AstElement, AstNode, SElement, SNode,
};
use crate::emit::{attr_named, find_attr, res_view};
use crate::error::{serr, SError, XmlError, XmlErrorKind};
use crate::location::{loc_view, spec_render_plain, spec_render_with, LocationTracker};
use crate::parser::{line_starts, spec_line_starts};
use crate::strings::{chars_of, str_eq, string_of, to_owned};
use crate::xmldoc::{el_res_view, parse, spec_parse};

verus! {

/// Whether a path is absolute (it starts at the root, `/`).
pub open spec fn is_absolute(p: Seq<char>) -> bool {
    p.len() > 0 && p[0] == '/'
}

/// `p` without its trailing `/`s.
pub open spec fn strip_slashes(p: Seq<char>) -> Seq<char>
    decreases p.len(),
{
    if p.len() > 0 && p.last() == '/' {
        strip_slashes(p.drop_last())
    } else {
        p
    }
}

/// The position of the last `/` in `p`, or -1.
pub open spec fn last_slash(p: Seq<char>) -> int
    decreases p.len(),
{
    if p.len() == 0 {
        -1
    } else if p.last() == '/' {
        p.len() - 1
    } else {
        last_slash(p.drop_last())
    }
}

/// The directory part of a path: everything before its last component,
/// or `None` when the path has no component to drop (it is empty or
/// the root).
pub open spec fn parent_dir(p: Seq<char>) -> Option<Seq<char>> {
    let s = strip_slashes(p);
    if s.len() == 0 {
        None
    } else {
        let k = last_slash(s);
        if k < 0 {
            Some(seq![])
        } else if strip_slashes(s.take(k + 1)).len() == 0 {
            Some(seq!['/'])
        } else {
            Some(strip_slashes(s.take(k + 1)))
        }
    }
}

/// `p` appended to the directory `dir` with one separator.
pub open spec fn join_path(dir: Seq<char>, p: Seq<char>) -> Seq<char> {
    if dir.len() == 0 {
        p
    } else if dir.last() == '/' {
        dir + p
    } else {
        dir + seq!['/'] + p
    }
}

/// Where an `<Include src>` path points: an absolute path as is; a
/// relative one joined to the directory of the invoking source file,
/// or to the current directory when there is none.
pub open spec fn spec_resolve(path: Seq<char>, source_file: Option<Seq<char>>) -> Seq<char> {
    if is_absolute(path) {
        path
    } else {
        match source_file {
            Some(src) => {
                let dir = match parent_dir(src) {
                    Some(d) => if d.len() > 0 {
                        d
                    } else {
                        seq!['.']
                    },
                    None => seq!['.'],
                };
                join_path(dir, path)
            },
            None => join_path(seq!['.'], path),
        }
    }
}

fn strip_slashes_exec(v: &Vec<char>, n: usize) -> (k: usize)
    requires
        n <= v@.len(),
    ensures
        k <= n,
        v@.take(k as int) == strip_slashes(v@.take(n as int)),
{
    let mut k = n;
    while k > 0 && v[k - 1] == '/'
        invariant
            k <= n <= v@.len(),
            strip_slashes(v@.take(k as int)) == strip_slashes(v@.take(n as int)),
        decreases k,
    {
        assert(v@.take(k as int).drop_last() =~= v@.take(k - 1));
        k -= 1;
    }
    k
}

fn last_slash_exec(v: &Vec<char>, n: usize) -> (r: Option<usize>)
    requires
        n <= v@.len(),
    ensures
        match r {
            Some(k) => k < n && last_slash(v@.take(n as int)) == k,
            None => last_slash(v@.take(n as int)) == -1,
        },
{
    let mut k = n;
    while k > 0 && v[k - 1] != '/'
        invariant
            k <= n <= v@.len(),
            last_slash(v@.take(k as int)) == last_slash(v@.take(n as int)),
        decreases k,
    {
        assert(v@.take(k as int).drop_last() =~= v@.take(k - 1));
        k -= 1;
    }
    if k == 0 {
        None
    } else {
        Some(k - 1)
    }
}

fn prefix_string(v: &Vec<char>, n: usize) -> (r: String)
    requires
        n <= v@.len(),
    ensures
        r@ == v@.take(n as int),
{
    let mut out: Vec<char> = Vec::new();
    let mut k: usize = 0;
    while k < n
        invariant
            k <= n <= v@.len(),
            out@ == v@.take(k as int),
        decreases n - k,
    {
        out.push(v[k]);
        k += 1;
        assert(out@ =~= v@.take(k as int));
    }
    string_of(&out)
}

/// The directory part of a path, as `Path::parent` gives it.
pub fn parent_of(p: &str) -> (r: Option<String>)
    ensures
        crate::ast::opt_view(r) == parent_dir(p@),
{
    let v = chars_of(p);
    assert(v@.take(v@.len() as int) =~= v@);
    let n = strip_slashes_exec(&v, v.len());
    if n == 0 {
        return None;
    }
    assert(v@.take(n as int).take(n as int) =~= v@.take(n as int));
    match last_slash_exec(&v, n) {
        None => Some(String::new()),
        Some(k) => {
            assert(v@.take(n as int).take(k + 1) =~= v@.take(k + 1));
            let m = strip_slashes_exec(&v, k + 1);
            if m == 0 {
                let mut s = String::new();
                crate::strings::push_char(&mut s, '/');
                assert(s@ =~= seq!['/']);
                Some(s)
            } else {
                Some(prefix_string(&v, m))
            }
        },
    }
}

fn join_exec(dir: &str, p: &str) -> (r: String)
    ensures
        r@ == join_path(dir@, p@),
{
    let d = chars_of(dir);
    if d.len() == 0 {
        return to_owned(p);
    }
    let mut out = to_owned(dir);
    if d[d.len() - 1] != '/' {
        crate::strings::push_char(&mut out, '/');
    }
    out.append(p);
    out
}

/// Resolve an `<Include src>` path against the file that invoked the
/// macro: absolute paths pass through, relative ones are joined to that
/// file's directory, or to `.` when there is no file.
pub fn resolve_include_path(path: &str, source_file: Option<&str>) -> (r: String)
    ensures
        r@ == spec_resolve(path@, crate::compile::opt_str_view(source_file)),
{
    proof {
        reveal_strlit(".");
    }
    let pv = chars_of(path);
    if pv.len() > 0 && pv[0] == '/' {
        return to_owned(path);
    }
    match source_file {
        Some(src) => {
            let dir = match parent_of(src) {
                Some(d) => if chars_of(d.as_str()).len() > 0 {
                    d
                } else {
                    to_owned(".")
                },
                None => to_owned("."),
            };
            proof {
                reveal_strlit(".");
            }
            join_exec(dir.as_str(), path)
        },
        None => {
            proof {
                reveal_strlit(".");
            }
            join_exec(".", path)
        },
    }
}

proof fn lemma_strip_slashes_id(p: Seq<char>)
    requires
        p.len() == 0 || p.last() != '/',
    ensures
        strip_slashes(p) == p,
{
}

proof fn lemma_last_slash_of(d: Seq<char>, f: Seq<char>, m: int)
    requires
        0 <= m <= f.len(),
        forall|j: int| 0 <= j < f.len() ==> #[trigger] f[j] != '/',
    ensures
        last_slash((d + seq!['/'] + f).take(d.len() as int + 1 + m)) == d.len(),
    decreases m,
{
    let n = d + seq!['/'] + f;
    if m > 0 {
        assert(n.take(d.len() as int + 1 + m).drop_last() =~= n.take(d.len() as int + 1 + (m - 1)));
        assert(n.take(d.len() as int + 1 + m).last() == f[m - 1]);
        lemma_last_slash_of(d, f, m - 1);
    } else {
        assert(n.take(d.len() as int + 1).last() == '/');
    }
}

/// A relative `<Include src>` resolves against the directory of the
/// invoking file: for a source file `d/f` (a non-empty directory `d`,
/// absolute or relative, and a file name `f`), the path is `d/src`;
/// an absolute `src` is kept as it is; with no source file it is
/// `./src`.
pub proof fn lemma_resolve_against_source_dir(path: Seq<char>, d: Seq<char>, f: Seq<char>)
    requires
        !is_absolute(path),
        d.len() > 0,
        d.last() != '/',
        f.len() > 0,
        forall|j: int| 0 <= j < f.len() ==> #[trigger] f[j] != '/',
    ensures
        spec_resolve(path, Some(d + seq!['/'] + f)) == d + seq!['/'] + path,
        spec_resolve(path, None) == seq!['.', '/'] + path,
        spec_resolve(seq!['/'] + path, Some(d + seq!['/'] + f)) == seq!['/'] + path,
{
    let src = d + seq!['/'] + f;
    assert(src.last() == f.last());
    lemma_strip_slashes_id(src);
    assert(src.take(src.len() as int) =~= src);
    lemma_last_slash_of(d, f, f.len() as int);
    assert(last_slash(src) == d.len() as int);
    assert(src.take(d.len() as int + 1) =~= d.push('/'));
    assert(d.push('/').drop_last() =~= d);
    assert(strip_slashes(d.push('/')) == strip_slashes(d));
    lemma_strip_slashes_id(d);
    assert(parent_dir(src) == Some(d));
    assert(d + seq!['/'] + path =~= d + (seq!['/'] + path));
    assert(seq!['.'] + seq!['/'] + path =~= seq!['.', '/'] + path);
}

/// The `src` of an `<Include>`: a string literal it must have.
pub open spec fn spec_include_src(e: SElement) -> Result<Seq<char>, SError> {
    match find_attr(e.attrs, "src"@) {
        None => Err(
            serr(
                XmlErrorKind::UnknownAttribute,
                "<Include> requires a `src=\"...\"` attribute"@,
                Some(e.offset),
            ),
        ),
        Some(a) => if a.expr is Some {
            Err(
                serr(
                    XmlErrorKind::Unsupported,
                    "<Include src> requires a string literal, not a brace expression"@,
                    Some(a.offset),
                ),
            )
        } else {
            Ok(a.raw)
        },
    }
}

/// The path an `<Include>` element names.
pub fn include_src(e: &AstElement) -> (r: Result<String, XmlError>)
    ensures
        res_view(r) == spec_include_src(e@),
{
    match attr_named(e, "src") {
        None => Err(
            XmlError::new(
                XmlErrorKind::UnknownAttribute,
                to_owned("<Include> requires a `src=\"...\"` attribute"),
            ).at(e.byte_offset),
        ),
        Some(a) => if a.expr.is_some() {
            Err(
                XmlError::new(
                    XmlErrorKind::Unsupported,
                    to_owned("<Include src> requires a string literal, not a brace expression"),
                ).at(a.byte_offset),
            )
        } else {
            Ok(a.raw.clone())
        },
    }
}

/// The error for an included file that could not be read.
pub fn read_error(path: &str, resolved: &str, err: &str) -> (r: XmlError)
    ensures
        r@ == serr(
            XmlErrorKind::ParseError,
            "could not read `"@ + path@ + "` (resolved to `"@ + resolved@ + "`): "@ + err@,
            None,
        ),
        r.rendered is None,
{
    let mut m = to_owned("could not read `");
    m.append(path);
    m.append("` (resolved to `");
    m.append(resolved);
    m.append("`): ");
    m.append(err);
    XmlError::new(XmlErrorKind::ParseError, m)
}

/// The error for an included file that does not parse: the file's own
/// diagnostic, placed in that file, with a note naming it.
pub open spec fn spec_included_error(err: XmlError, contents: Seq<char>, line_starts: Seq<usize>, resolved: Seq<char>) -> (
    SError,
    Seq<char>,
) {
    (
        serr(XmlErrorKind::ParseError, "in included file `"@ + resolved + "`"@, None),
        spec_render_with(err, Some((line_starts, contents))) + "\n  = note: in included file `"@
            + resolved + "`"@,
    )
}

/// Parse the contents of an included file. An error is reported as a
/// parse error "in included file `<resolved>`", pre-rendered as the
/// parser's diagnostic placed in the included file, followed by a note
/// naming that file.
pub fn parse_included(contents: &str, resolved: &str) -> (r: Result<AstElement, XmlError>)
    ensures
        match spec_parse(contents@) {
            Ok(root) => r matches Ok(x) && x@ == root,
            Err(e) => {
                &&& r matches Err(x)
                &&& r->Err_0@ == serr(XmlErrorKind::ParseError, "in included file `"@ + resolved@ + "`"@, None)
                &&& r->Err_0.rendered matches Some(t)
                &&& r->Err_0.rendered->0@ == spec_render_plain(e, Some((spec_line_starts(contents), contents@)))
                    + "\n  = note: in included file `"@ + resolved@ + "`"@
            },
        },
{
    match parse(contents) {
        Ok(root) => Ok(root),
        Err(err) => {
            let starts = line_starts(contents);
            let loc = LocationTracker { line_starts: starts.as_slice(), xml: contents };
            let diagnostic = err.render_with(Some(&loc));
            let mut rendered = diagnostic;
            rendered.append("\n  = note: in included file `");
            rendered.append(resolved);
            rendered.append("`");
            let mut m = to_owned("in included file `");
            m.append(resolved);
            m.append("`");
            Err(XmlError::new(XmlErrorKind::ParseError, m).rendered(rendered))
        },
    }
}

/// The nodes an included root stands for: a `<Fragment>`'s children,
/// or the root itself.
pub open spec fn included_nodes(root: SElement) -> Seq<SNode> {
    if root.tag == "Fragment"@ {
        root.children
    } else {
        seq![SNode::Element(root)]
    }
}

pub fn included_nodes_of(root: AstElement) -> (r: Vec<AstNode>)
    ensures
        nodes_view(r@) == included_nodes(root@),
{
    if str_eq(root.tag.as_str(), "Fragment") {
        root.children
    } else {
        let mut v: Vec<AstNode> = Vec::new();
        proof {
            crate::ast::lemma_nodes_view_push(v@, AstNode::Element(root));
        }
        v.push(AstNode::Element(root));
        assert(nodes_view(v@) =~= seq![SNode::Element(root@)]);
        v
    }
}

/// The error for an include cycle.
pub fn cyclic_error(resolved: &str) -> (r: XmlError)
    ensures
        r@ == serr(
            XmlErrorKind::Unsupported,
            "cyclic <Include> detected: `"@ + resolved@ + "` is already being included"@,
            None,
        ),
{
    let mut m = to_owned("cyclic <Include> detected: `");
    m.append(resolved);
    m.append("` is already being included");
    XmlError::new(XmlErrorKind::Unsupported, m)
}

/// `children[i]` replaced by `nodes`.
pub fn splice_at(children: &mut Vec<AstNode>, i: usize, nodes: Vec<AstNode>)
    requires
        i < old(children)@.len(),
    ensures
        nodes_view(final(children)@) == nodes_view(old(children)@).take(i as int) + nodes_view(nodes@)
            + nodes_view(old(children)@).skip(i + 1),
{
    let ghost oc = children@;
    let ghost nv = nodes@;
    let n = children.len();
    assert(i < n);
    let mut rest = children.split_off(i + 1);
    children.truncate(i);
    let mut nodes = nodes;
    children.append(&mut nodes);
    children.append(&mut rest);
    assert(children@ =~= oc.take(i as int) + nv + oc.skip(i + 1));
    proof {
        lemma_nodes_view_concat(oc.take(i as int), nv);
        lemma_nodes_view_concat(oc.take(i as int) + nv, oc.skip(i + 1));
        lemma_nodes_view_take_skip(oc, i as int);
    }
}

proof fn lemma_nodes_view_concat(a: Seq<AstNode>, b: Seq<AstNode>)
    ensures
        nodes_view(a + b) == nodes_view(a) + nodes_view(b),
    decreases b.len(),
{
    if b.len() == 0 {
        assert(a + b =~= a);
        assert(nodes_view(b) =~= Seq::<SNode>::empty());
        assert(nodes_view(a) + nodes_view(b) =~= nodes_view(a));
    } else {
        lemma_nodes_view_concat(a, b.drop_last());
        assert((a + b).drop_last() =~= a + b.drop_last());
        assert((a + b).last() == b.last());
        assert(nodes_view(a + b) =~= nodes_view(a) + nodes_view(b));
    }
}

proof fn lemma_nodes_view_take_skip(v: Seq<AstNode>, i: int)
    requires
        0 <= i < v.len(),
    ensures
        nodes_view(v.take(i)) == nodes_view(v).take(i),
        nodes_view(v.skip(i + 1)) == nodes_view(v).skip(i + 1),
{
    lemma_nodes_view(v);
    lemma_nodes_view(v.take(i));
    lemma_nodes_view(v.skip(i + 1));
    assert(nodes_view(v.take(i)) =~= nodes_view(v).take(i));
    assert(nodes_view(v.skip(i + 1)) =~= nodes_view(v).skip(i + 1));
}

/// Whether a node is an `<Include>` element.
pub open spec fn is_include(n: SNode) -> bool {
    n matches SNode::Element(x) && x.tag == "Include"@
}

pub open spec fn strings_of(v: Seq<String>) -> Seq<Seq<char>> {
    v.map_values(|s: String| s@)
}

fn limit_error(e: &AstElement) -> (r: XmlError)
    ensures
        r@ == serr(XmlErrorKind::Unsupported, "too many nested <Include> files"@, Some(e.byte_offset)),
        r.rendered is None,
{
    XmlError::new(XmlErrorKind::Unsupported, to_owned("too many nested <Include> files")).at(
        e.byte_offset,
    )
}

/// No `<Include>` element anywhere under `e`.
pub open spec fn include_free(e: SElement) -> bool
    decreases esize(e), 1int,
{
    kids_include_free(e.children, e.children.len() as int)
}

/// No `<Include>` element among the first `k` of `kids` or under them.
pub open spec fn kids_include_free(kids: Seq<SNode>, k: int) -> bool
    decreases ksize(kids), k + 2,
{
    if k <= 0 || k > kids.len() {
        true
    } else {
        kids_include_free(kids, k - 1) && match kids[k - 1] {
            SNode::Element(c) => {
                proof {
                    lemma_ksize_index(kids, k - 1);
                    lemma_nsize_element(c);
                }
                c.tag != "Include"@ && include_free(c)
            },
            _ => true,
        }
    }
}

proof fn lemma_kids_free_index(kids: Seq<SNode>, n: int, j: int)
    requires
        0 <= j < n <= kids.len(),
        kids_include_free(kids, n),
    ensures
        kids[j] matches SNode::Element(c) ==> c.tag != "Include"@ && include_free(c),
    decreases n,
{
    if j < n - 1 {
        lemma_kids_free_index(kids, n - 1, j);
    }
}

proof fn lemma_nodes_view_update(v: Seq<AstNode>, i: int, x: AstNode)
    requires
        0 <= i < v.len(),
    ensures
        nodes_view(v.update(i, x)) == nodes_view(v).update(i, node_view(x)),
{
    lemma_nodes_view(v);
    lemma_nodes_view(v.update(i, x));
    assert(nodes_view(v.update(i, x)) =~= nodes_view(v).update(i, node_view(x)));
}

/// A node that is not an `<Include>` and has none under it.
pub open spec fn node_free(n: SNode) -> bool {
    match n {
        SNode::Element(c) => c.tag != "Include"@ && include_free(c),
        _ => true,
    }
}

proof fn lemma_kids_free_from_nodes(kids: Seq<SNode>, n: int)
    requires
        0 <= n <= kids.len(),
        forall|j: int| 0 <= j < n ==> node_free(#[trigger] kids[j]),
    ensures
        kids_include_free(kids, n),
    decreases n,
{
    if n > 0 {
        lemma_kids_free_from_nodes(kids, n - 1);
        assert(node_free(kids[n - 1]));
    }
}

/// The components of a path, as `std::path::Path::components` gives
/// them: a leading root (`/`), a leading `.` when the path starts with
/// `./` (or is `.`), then the names between separators, with empty
/// names and other `.` names left out. Two paths with the same
/// components are the same path.
pub open spec fn path_components(p: Seq<char>) -> Seq<Seq<char>> {
    (if p.len() > 0 && p[0] == '/' {
        seq![seq!['/']]
    } else if p == seq!['.'] || (p.len() > 1 && p[0] == '.' && p[1] == '/') {
        seq![seq!['.']]
    } else {
        seq![]
    }) + names_from(p, 0, seq![])
}

/// A name between separators, unless it is empty or `.`.
pub open spec fn emit_name(cur: Seq<char>) -> Seq<Seq<char>> {
    if cur.len() == 0 || cur == seq!['.'] {
        seq![]
    } else {
        seq![cur]
    }
}

/// The names of `p` from position `i` on, `cur` being the name read so
/// far.
pub open spec fn names_from(p: Seq<char>, i: int, cur: Seq<char>) -> Seq<Seq<char>>
    decreases p.len() - i,
{
    if i < 0 || i >= p.len() {
        emit_name(cur)
    } else if p[i] == '/' {
        emit_name(cur) + names_from(p, i + 1, seq![])
    } else {
        names_from(p, i + 1, cur.push(p[i]))
    }
}

/// Whether a file the same as `p` (same components) is being included.
pub open spec fn in_visited(visited: Seq<Seq<char>>, p: Seq<char>) -> bool {
    exists|i: int| 0 <= i < visited.len() && path_components(#[trigger] visited[i]) == path_components(p)
}

pub open spec fn limit_err(c: SElement) -> SError {
    serr(XmlErrorKind::Unsupported, "too many nested <Include> files"@, Some(c.offset))
}

pub open spec fn read_err(s: Seq<char>, p: Seq<char>, e: Seq<char>) -> SError {
    serr(XmlErrorKind::ParseError, "could not read `"@ + s + "` (resolved to `"@ + p + "`): "@ + e, None)
}

pub open spec fn included_err(p: Seq<char>) -> SError {
    serr(XmlErrorKind::ParseError, "in included file `"@ + p + "`"@, None)
}

pub open spec fn cyclic_err(p: Seq<char>) -> SError {
    serr(XmlErrorKind::Unsupported, "cyclic <Include> detected: `"@ + p + "` is already being included"@, None)
}

pub proof fn lemma_ksize_first(kids: Seq<SNode>)
    requires
        kids.len() > 0,
    ensures
        ksize(kids) == nsize(kids[0]) + ksize(kids.drop_first()),
        nsize(kids[0]) >= 1,
    decreases kids.len(),
{
    reveal(ksize);
    reveal(nsize);
    if kids.len() > 1 {
        lemma_ksize_first(kids.drop_last());
        assert(kids.drop_last().drop_first() =~= kids.drop_first().drop_last());
        assert(kids.drop_first().last() == kids.last());
        assert(kids.drop_last()[0] == kids[0]);
        assert(ksize(kids.drop_first()) == ksize(kids.drop_first().drop_last()) + nsize(kids.drop_first().last()));
        assert(ksize(kids) == ksize(kids.drop_last()) + nsize(kids.last()));
    } else {
        assert(kids.drop_first().len() == 0);
        assert(kids.drop_last().len() == 0);
        assert(ksize(kids.drop_first()) == 0);
        assert(ksize(kids.drop_last()) == 0);
        assert(ksize(kids) == ksize(kids.drop_last()) + nsize(kids.last()));
    }
    match kids[0] {
        SNode::Element(c) => assert(nsize(kids[0]) == 1 + ksize(c.children)),
        _ => assert(nsize(kids[0]) == 1),
    }
}

/// The end of an include expansion: the result, the nodes produced, the
/// files read and recorded (in order), the paths handed to `read` (in
/// order), and the budget left.
pub struct Run {
    pub r: Result<(), SError>,
    pub out: Seq<SNode>,
    pub paths: Seq<Seq<char>>,
    pub asked: Seq<Seq<char>>,
    pub b_out: usize,
}

/// `run` after nodes, recorded files and reads that came before it.
pub open spec fn after(out: Seq<SNode>, paths: Seq<Seq<char>>, asked: Seq<Seq<char>>, run: Run) -> Run {
    Run { r: run.r, out: out + run.out, paths: paths + run.paths, asked: asked + run.asked, b_out: run.b_out }
}

/// An expansion that ends with the error `x`, having asked for `asked`.
pub open spec fn failed(x: SError, asked: Seq<Seq<char>>, budget: usize) -> Run {
    Run { r: Err(x), out: seq![], paths: seq![], asked, b_out: budget }
}

/// Expanding the includes of the node list `kids`, in order and at every
/// depth, when the reads give, in turn, `reads`. An `<Include>` has its
/// `src` checked and the budget tested before anything is read; the
/// path read is its `src` resolved against `sfv`; a read error, a parse
/// error of what was read, and a file with the same path components as
/// one in `visited` end the expansion with their error; else the parsed
/// root is expanded with the file added to `visited` and one less file
/// allowed, the file is recorded before the files that expansion reads,
/// and the nodes the expanded root stands for (a `<Fragment>`'s
/// children, or the root) take the `<Include>`'s place and are expanded
/// in turn. Any other element is expanded in place.
pub open spec fn run_kids(
    kids: Seq<SNode>,
    sfv: Option<Seq<char>>,
    visited: Seq<Seq<char>>,
    budget: usize,
    reads: Seq<Result<Seq<char>, Seq<char>>>,
) -> Run
    decreases budget, ksize(kids), 2int,
{
    if kids.len() == 0 {
        Run { r: Ok(()), out: seq![], paths: seq![], asked: seq![], b_out: budget }
    } else {
        proof {
            lemma_ksize_first(kids);
        }
        match kids[0] {
            SNode::Element(c) => if c.tag == "Include"@ {
                match spec_include_src(c) {
                    Err(x) => failed(x, seq![], budget),
                    Ok(s) => {
                        let p = spec_resolve(s, sfv);
                        if budget == 0 {
                            failed(limit_err(c), seq![], budget)
                        } else {
                            let b = (budget - 1) as usize;
                            if reads.len() == 0 {
                                failed(read_err(s, p, seq![]), seq![p], b)
                            } else {
                                match reads[0] {
                                    Err(e) => failed(read_err(s, p, e), seq![p], b),
                                    Ok(contents) => match spec_parse(contents) {
                                        Err(_) => failed(included_err(p), seq![p], b),
                                        Ok(root) => if in_visited(visited, p) {
                                            failed(cyclic_err(p), seq![p], b)
                                        } else {
                                            let sub = run_elem(root, sfv, visited.push(p), b, reads.drop_first());
                                            if sub.r is Err || sub.b_out > b {
                                                Run {
                                                    r: sub.r,
                                                    out: seq![],
                                                    paths: seq![p] + sub.paths,
                                                    asked: seq![p] + sub.asked,
                                                    b_out: sub.b_out,
                                                }
                                            } else {
                                                after(
                                                    seq![],
                                                    seq![p] + sub.paths,
                                                    seq![p] + sub.asked,
                                                    run_kids(
                                                        included_nodes(SElement { children: sub.out, ..root })
                                                            + kids.drop_first(),
                                                        sfv,
                                                        visited,
                                                        sub.b_out,
                                                        reads.drop_first().skip(sub.asked.len() as int),
                                                    ),
                                                )
                                            }
                                        },
                                    },
                                }
                            }
                        }
                    },
                }
            } else {
                proof {
                    lemma_ksize_index(kids, 0);
                    lemma_nsize_element(c);
                }
                let sub = run_elem(c, sfv, visited, budget, reads);
                if sub.r is Err || sub.b_out > budget {
                    Run { r: sub.r, out: seq![], paths: sub.paths, asked: sub.asked, b_out: sub.b_out }
                } else {
                    after(
                        seq![SNode::Element(SElement { children: sub.out, ..c })],
                        sub.paths,
                        sub.asked,
                        run_kids(kids.drop_first(), sfv, visited, sub.b_out, reads.skip(sub.asked.len() as int)),
                    )
                }
            },
            _ => after(seq![kids[0]], seq![], seq![], run_kids(kids.drop_first(), sfv, visited, budget, reads)),
        }
    }
}

/// Expanding the includes under `e` (its children; see `run_kids`).
pub open spec fn run_elem(
    e: SElement,
    sfv: Option<Seq<char>>,
    visited: Seq<Seq<char>>,
    budget: usize,
    reads: Seq<Result<Seq<char>, Seq<char>>>,
) -> Run
    decreases budget, esize(e), 0int,
{
    run_kids(e.children, sfv, visited, budget, reads)
}

/// Each read of `asked` may have given the matching entry of `reads`.
pub open spec fn reads_ok<F: Fn(String) -> Result<String, String>>(
    read: F,
    asked: Seq<Seq<char>>,
    reads: Seq<Result<Seq<char>, Seq<char>>>,
) -> bool {
    &&& asked.len() == reads.len()
    &&& forall|k: int| 0 <= k < reads.len() ==> #[trigger] read_may_give(read, asked[k], reads[k])
}

/// Expanding the includes under `e` with `read` may end with `r`, the
/// element `e_out`, the files `paths` and `b_out` of the budget left:
/// for reads that `read` may give for the paths asked, `run_elem` ends
/// with `r` whatever reads would follow, and on success with `e`'s
/// children expanded into `e_out`, `paths` recorded and `b_out` left.
#[verifier::opaque]
pub open spec fn expanded_by<F: Fn(String) -> Result<String, String>>(
    e: SElement,
    sfv: Option<Seq<char>>,
    read: F,
    visited: Seq<Seq<char>>,
    budget: usize,
    r: Result<(), SError>,
    e_out: SElement,
    paths: Seq<Seq<char>>,
    b_out: usize,
) -> bool {
    exists|reads: Seq<Result<Seq<char>, Seq<char>>>|
        #[trigger] reads_ok(read, run_elem(e, sfv, visited, budget, reads).asked, reads) && (forall|x: Seq<
            Result<Seq<char>, Seq<char>>,
        >| #[trigger] run_elem(e, sfv, visited, budget, reads + x) == run_elem(e, sfv, visited, budget, reads))
            && run_elem(e, sfv, visited, budget, reads).r == r && (r is Ok ==> e_out == SElement {
            children: run_elem(e, sfv, visited, budget, reads).out,
            ..e
        } && paths == run_elem(e, sfv, visited, budget, reads).paths && b_out == run_elem(
            e,
            sfv,
            visited,
            budget,
            reads,
        ).b_out)
}

pub open spec fn str_res_view(x: Result<String, String>) -> Result<Seq<char>, Seq<char>> {
    match x {
        Ok(s) => Ok(s@),
        Err(e) => Err(e@),
    }
}

pub open spec fn unit_res_view(r: Result<(), XmlError>) -> Result<(), SError> {
    match r {
        Ok(()) => Ok(()),
        Err(x) => Err(x@),
    }
}

/// `read`, called with the path `p`, may give `res`.
pub open spec fn read_may_give<F: Fn(String) -> Result<String, String>>(
    read: F,
    p: Seq<char>,
    res: Result<Seq<char>, Seq<char>>,
) -> bool {
    exists|q: String, x: Result<String, String>|
        #![trigger q@, str_res_view(x)]
        q@ == p && call_ensures(read, (q,), x) && str_res_view(x) == res
}

proof fn lemma_prefix_keeps(ip: Seq<String>, a: Seq<String>, b: Seq<String>)
    requires
        ip.len() <= a.len() <= b.len(),
        a.subrange(0, ip.len() as int) == ip,
        b.subrange(0, a.len() as int) == a,
    ensures
        b.subrange(0, ip.len() as int) == ip,
        forall|k: int| 0 <= k < a.len() ==> #[trigger] b[k] == a[k],
{
    assert forall|k: int| 0 <= k < a.len() implies #[trigger] b[k] == a[k] by {
        assert(b.subrange(0, a.len() as int)[k] == b[k]);
    }
    assert(b.subrange(0, ip.len() as int) =~= ip) by {
        assert forall|k: int| 0 <= k < ip.len() implies b.subrange(0, ip.len() as int)[k] == ip[k] by {
            assert(a.subrange(0, ip.len() as int)[k] == a[k]);
            assert(b[k] == a[k]);
        }
    }
}

/// The names read after position `k` of `b`, `a` being `b` up to `k`
/// and `b` having `c` after `a`.
proof fn lemma_paths_after(ip: Seq<String>, a: Seq<String>, b: Seq<String>)
    requires
        ip.len() <= a.len() <= b.len(),
        b.subrange(0, a.len() as int) == a,
    ensures
        strings_of(b).skip(ip.len() as int) == strings_of(a).skip(ip.len() as int) + strings_of(b).skip(
            a.len() as int,
        ),
{
    assert(strings_of(b).skip(ip.len() as int) =~= strings_of(a).skip(ip.len() as int) + strings_of(b).skip(
        a.len() as int,
    )) by {
        assert forall|k: int| 0 <= k < a.len() implies #[trigger] b[k] == a[k] by {
            assert(b.subrange(0, a.len() as int)[k] == b[k]);
        }
    }
}

proof fn lemma_after_after(
    a1: Seq<SNode>,
    p1: Seq<Seq<char>>,
    q1: Seq<Seq<char>>,
    a2: Seq<SNode>,
    p2: Seq<Seq<char>>,
    q2: Seq<Seq<char>>,
    run: Run,
)
    ensures
        after(a1, p1, q1, after(a2, p2, q2, run)) == after(a1 + a2, p1 + p2, q1 + q2, run),
{
    assert(a1 + (a2 + run.out) =~= (a1 + a2) + run.out);
    assert(p1 + (p2 + run.paths) =~= (p1 + p2) + run.paths);
    assert(q1 + (q2 + run.asked) =~= (q1 + q2) + run.asked);
}

proof fn lemma_reads_ok_concat<F: Fn(String) -> Result<String, String>>(
    read: F,
    a1: Seq<Seq<char>>,
    r1: Seq<Result<Seq<char>, Seq<char>>>,
    a2: Seq<Seq<char>>,
    r2: Seq<Result<Seq<char>, Seq<char>>>,
)
    requires
        reads_ok(read, a1, r1),
        reads_ok(read, a2, r2),
    ensures
        reads_ok(read, a1 + a2, r1 + r2),
{
    assert forall|k: int| 0 <= k < (r1 + r2).len() implies #[trigger] read_may_give(read, (a1 + a2)[k], (r1 + r2)[k]) by {
        if k < r1.len() {
            assert(read_may_give(read, a1[k], r1[k]));
        } else {
            assert(read_may_give(read, a2[k - r1.len()], r2[k - r1.len()]));
        }
    }
}

pub open spec fn names_view(v: Seq<Vec<char>>) -> Seq<Seq<char>> {
    v.map_values(|x: Vec<char>| x@)
}

fn emit_name_exec(out: &mut Vec<Vec<char>>, cur: Vec<char>)
    ensures
        names_view(final(out)@) == names_view(old(out)@) + emit_name(cur@),
{
    if cur.len() == 0 || (cur.len() == 1 && cur[0] == '.') {
        assert(cur.len() == 1 ==> cur@ =~= seq!['.']);
        assert(names_view(out@) =~= names_view(old(out)@) + emit_name(cur@));
    } else {
        assert(cur@ != seq!['.']);
        let ghost c = cur@;
        out.push(cur);
        assert(names_view(out@) =~= names_view(old(out)@) + seq![c]);
    }
}

/// The components of a path (see `path_components`).
pub fn path_components_of(p: &str) -> (r: Vec<Vec<char>>)
    ensures
        names_view(r@) == path_components(p@),
{
    let v = chars_of(p);
    let mut out: Vec<Vec<char>> = Vec::new();
    if v.len() > 0 && v[0] == '/' {
        let mut root: Vec<char> = Vec::new();
        root.push('/');
        out.push(root);
    } else if (v.len() == 1 && v[0] == '.') || (v.len() > 1 && v[0] == '.' && v[1] == '/') {
        let mut dot: Vec<char> = Vec::new();
        dot.push('.');
        out.push(dot);
    }
    proof {
        if v.len() == 1 && v[0] == '.' {
            assert(p@ =~= seq!['.']);
        }
        if v.len() != 1 || v[0] != '.' {
            assert(p@ != seq!['.']);
        }
    }
    let ghost head = names_view(out@);
    assert(head == if p@.len() > 0 && p@[0] == '/' {
        seq![seq!['/']]
    } else if p@ == seq!['.'] || (p@.len() > 1 && p@[0] == '.' && p@[1] == '/') {
        seq![seq!['.']]
    } else {
        Seq::<Seq<char>>::empty()
    });
    let mut cur: Vec<char> = Vec::new();
    let mut i: usize = 0;
    while i < v.len()
        invariant
            i <= v@.len(),
            v@ == p@,
            names_view(out@) + names_from(p@, i as int, cur@) == path_components(p@),
        decreases v.len() - i,
    {
        let ghost before = names_view(out@);
        if v[i] == '/' {
            let ghost c = cur@;
            emit_name_exec(&mut out, cur);
            cur = Vec::new();
            assert(names_from(p@, i as int, c) == emit_name(c) + names_from(p@, i + 1, seq![]));
            assert(names_view(out@) + names_from(p@, i + 1, cur@) =~= before + names_from(p@, i as int, c));
        } else {
            let ghost c = cur@;
            cur.push(v[i]);
            assert(names_from(p@, i as int, c) == names_from(p@, i + 1, c.push(p@[i as int])));
        }
        i += 1;
    }
    let ghost c = cur@;
    let ghost before = names_view(out@);
    emit_name_exec(&mut out, cur);
    assert(names_from(p@, i as int, c) == emit_name(c));
    out
}

fn same_names(a: &Vec<Vec<char>>, b: &Vec<Vec<char>>) -> (r: bool)
    ensures
        r == (names_view(a@) == names_view(b@)),
{
    if a.len() != b.len() {
        assert(names_view(a@).len() != names_view(b@).len());
        return false;
    }
    let mut k: usize = 0;
    while k < a.len()
        invariant
            k <= a@.len(),
            a@.len() == b@.len(),
            forall|j: int| 0 <= j < k ==> #[trigger] a@[j]@ == b@[j]@,
        decreases a.len() - k,
    {
        if !crate::strings::chars_eq(a[k].as_slice(), b[k].as_slice()) {
            assert(names_view(a@)[k as int] != names_view(b@)[k as int]);
            return false;
        }
        k += 1;
    }
    assert(names_view(a@) =~= names_view(b@)) by {
        assert forall|j: int| 0 <= j < a@.len() implies names_view(a@)[j] == names_view(b@)[j] by {
            assert(a@[j]@ == b@[j]@);
        }
    }
    true
}

/// Whether a file with the same path components as `p` is in `v`.
fn in_visited_exec(v: &Vec<String>, p: &str) -> (b: bool)
    ensures
        b == in_visited(strings_of(v@), p@),
{
    let pc = path_components_of(p);
    let mut k: usize = 0;
    while k < v.len()
        invariant
            k <= v@.len(),
            names_view(pc@) == path_components(p@),
            forall|j: int| 0 <= j < k ==> path_components(#[trigger] strings_of(v@)[j]) != path_components(p@),
        decreases v.len() - k,
    {
        let vc = path_components_of(v[k].as_str());
        if same_names(&vc, &pc) {
            assert(strings_of(v@)[k as int] == v@[k as int]@);
            return true;
        }
        assert(strings_of(v@)[k as int] == v@[k as int]@);
        k += 1;
    }
    false
}


/// Reads handed back, in order: each the contents of a file or the
/// error reading it.
pub type Reads = Seq<Result<Seq<char>, Seq<char>>>;

/// The expansion of `kids0` over reads starting with `rd` is the part
/// done so far (nodes `done`, files `pdone`, reads asked `ad`) followed
/// by the expansion of `rest` with `b` files left.
#[verifier::opaque]
spec fn loop_ok(
    kids0: Seq<SNode>,
    sfv: Option<Seq<char>>,
    v0s: Seq<Seq<char>>,
    b0: usize,
    rd: Reads,
    done: Seq<SNode>,
    pdone: Seq<Seq<char>>,
    ad: Seq<Seq<char>>,
    rest: Seq<SNode>,
    b: usize,
) -> bool {
    forall|x: Reads| #[trigger]
        run_kids(kids0, sfv, v0s, b0, rd + x) == after(done, pdone, ad, run_kids(rest, sfv, v0s, b, x))
}

proof fn lemma_loop_start(kids0: Seq<SNode>, sfv: Option<Seq<char>>, v0s: Seq<Seq<char>>, b0: usize)
    ensures
        loop_ok(kids0, sfv, v0s, b0, seq![], seq![], seq![], seq![], kids0, b0),
{
    reveal(loop_ok);
    assert forall|x: Reads| #[trigger]
        run_kids(kids0, sfv, v0s, b0, Seq::<Result<Seq<char>, Seq<char>>>::empty() + x) == after(
            seq![],
            seq![],
            seq![],
            run_kids(kids0, sfv, v0s, b0, x),
        ) by {
        assert(Seq::<Result<Seq<char>, Seq<char>>>::empty() + x =~= x);
        let run = run_kids(kids0, sfv, v0s, b0, x);
        assert(Seq::<SNode>::empty() + run.out =~= run.out);
        assert(Seq::<Seq<char>>::empty() + run.paths =~= run.paths);
        assert(Seq::<Seq<char>>::empty() + run.asked =~= run.asked);
    }
}

proof fn lemma_step_other(
    kids0: Seq<SNode>,
    sfv: Option<Seq<char>>,
    v0s: Seq<Seq<char>>,
    b0: usize,
    rd: Reads,
    done: Seq<SNode>,
    pdone: Seq<Seq<char>>,
    ad: Seq<Seq<char>>,
    rest: Seq<SNode>,
    b: usize,
)
    requires
        loop_ok(kids0, sfv, v0s, b0, rd, done, pdone, ad, rest, b),
        rest.len() > 0,
        !(rest[0] is Element),
    ensures
        loop_ok(kids0, sfv, v0s, b0, rd, done.push(rest[0]), pdone, ad, rest.drop_first(), b),
{
    reveal(loop_ok);
    assert forall|x: Reads| #[trigger]
        run_kids(kids0, sfv, v0s, b0, rd + x) == after(
            done.push(rest[0]),
            pdone,
            ad,
            run_kids(rest.drop_first(), sfv, v0s, b, x),
        ) by {
        let tail = run_kids(rest.drop_first(), sfv, v0s, b, x);
        assert(run_kids(rest, sfv, v0s, b, x) == after(seq![rest[0]], seq![], seq![], tail));
        lemma_after_after(done, pdone, ad, seq![rest[0]], seq![], seq![], tail);
        assert(done + seq![rest[0]] =~= done.push(rest[0]));
        assert(pdone + Seq::<Seq<char>>::empty() =~= pdone);
        assert(ad + Seq::<Seq<char>>::empty() =~= ad);
    }
}

proof fn lemma_step_elem(
    kids0: Seq<SNode>,
    sfv: Option<Seq<char>>,
    v0s: Seq<Seq<char>>,
    b0: usize,
    rd: Reads,
    done: Seq<SNode>,
    pdone: Seq<Seq<char>>,
    ad: Seq<Seq<char>>,
    rest: Seq<SNode>,
    b: usize,
    c: SElement,
    rc: Reads,
)
    requires
        loop_ok(kids0, sfv, v0s, b0, rd, done, pdone, ad, rest, b),
        rest.len() > 0,
        rest[0] == SNode::Element(c),
        c.tag != "Include"@,
        forall|y: Reads| #[trigger] run_elem(c, sfv, v0s, b, rc + y) == run_elem(c, sfv, v0s, b, rc),
        run_elem(c, sfv, v0s, b, rc).r is Ok,
        run_elem(c, sfv, v0s, b, rc).b_out <= b,
        run_elem(c, sfv, v0s, b, rc).asked.len() == rc.len(),
    ensures
        ({
            let s = run_elem(c, sfv, v0s, b, rc);
            loop_ok(
                kids0,
                sfv,
                v0s,
                b0,
                rd + rc,
                done.push(SNode::Element(SElement { children: s.out, ..c })),
                pdone + s.paths,
                ad + s.asked,
                rest.drop_first(),
                s.b_out,
            )
        }),
{
    reveal(loop_ok);
    let s = run_elem(c, sfv, v0s, b, rc);
    let node = SNode::Element(SElement { children: s.out, ..c });
    assert forall|x: Reads| #[trigger]
        run_kids(kids0, sfv, v0s, b0, (rd + rc) + x) == after(
            done.push(node),
            pdone + s.paths,
            ad + s.asked,
            run_kids(rest.drop_first(), sfv, v0s, s.b_out, x),
        ) by {
        assert((rd + rc) + x =~= rd + (rc + x));
        assert(run_kids(kids0, sfv, v0s, b0, rd + (rc + x)) == after(done, pdone, ad, run_kids(rest, sfv, v0s, b, rc + x)));
        assert(run_elem(c, sfv, v0s, b, rc + x) == s);
        assert((rc + x).skip(rc.len() as int) =~= x);
        let tail = run_kids(rest.drop_first(), sfv, v0s, s.b_out, x);
        assert(run_kids(rest, sfv, v0s, b, rc + x) == after(seq![node], s.paths, s.asked, tail));
        lemma_after_after(done, pdone, ad, seq![node], s.paths, s.asked, tail);
        assert(done + seq![node] =~= done.push(node));
    }
}

/// A first node whose expansion ends in an error, after `step`.
proof fn lemma_step_stop(
    kids0: Seq<SNode>,
    sfv: Option<Seq<char>>,
    v0s: Seq<Seq<char>>,
    b0: usize,
    rd: Reads,
    done: Seq<SNode>,
    pdone: Seq<Seq<char>>,
    ad: Seq<Seq<char>>,
    rest: Seq<SNode>,
    b: usize,
    step: Reads,
    stop: Run,
)
    requires
        loop_ok(kids0, sfv, v0s, b0, rd, done, pdone, ad, rest, b),
        forall|y: Reads| #[trigger] run_kids(rest, sfv, v0s, b, step + y) == stop,
    ensures
        forall|y: Reads| #[trigger] run_kids(kids0, sfv, v0s, b0, (rd + step) + y) == after(done, pdone, ad, stop),
{
    reveal(loop_ok);
    assert forall|y: Reads| #[trigger] run_kids(kids0, sfv, v0s, b0, (rd + step) + y) == after(done, pdone, ad, stop) by {
        assert((rd + step) + y =~= rd + (step + y));
        assert(run_kids(kids0, sfv, v0s, b0, rd + (step + y)) == after(done, pdone, ad, run_kids(rest, sfv, v0s, b, step + y)));
        assert(run_kids(rest, sfv, v0s, b, step + y) == stop);
    }
}

proof fn lemma_stop_elem(rest: Seq<SNode>, sfv: Option<Seq<char>>, v0s: Seq<Seq<char>>, b: usize, c: SElement, rc: Reads)
    requires
        rest.len() > 0,
        rest[0] == SNode::Element(c),
        c.tag != "Include"@,
        forall|y: Reads| #[trigger] run_elem(c, sfv, v0s, b, rc + y) == run_elem(c, sfv, v0s, b, rc),
        run_elem(c, sfv, v0s, b, rc).r is Err,
    ensures
        ({
            let s = run_elem(c, sfv, v0s, b, rc);
            forall|y: Reads| #[trigger]
                run_kids(rest, sfv, v0s, b, rc + y) == Run { r: s.r, out: seq![], paths: s.paths, asked: s.asked, b_out: s.b_out }
        }),
{
    let s = run_elem(c, sfv, v0s, b, rc);
    assert forall|y: Reads| #[trigger]
        run_kids(rest, sfv, v0s, b, rc + y) == Run { r: s.r, out: seq![], paths: s.paths, asked: s.asked, b_out: s.b_out } by {
        assert(run_elem(c, sfv, v0s, b, rc + y) == s);
    }
}

/// The error of an `<Include>` that fails before anything is read.
pub open spec fn early_err(c: SElement) -> SError {
    match spec_include_src(c) {
        Err(x) => x,
        Ok(_) => limit_err(c),
    }
}

proof fn lemma_stop_early(rest: Seq<SNode>, sfv: Option<Seq<char>>, v0s: Seq<Seq<char>>, b: usize, c: SElement)
    requires
        rest.len() > 0,
        rest[0] == SNode::Element(c),
        c.tag == "Include"@,
        spec_include_src(c) is Err || b == 0,
    ensures
        forall|y: Reads| #[trigger]
            run_kids(rest, sfv, v0s, b, Seq::<Result<Seq<char>, Seq<char>>>::empty() + y) == failed(early_err(c), seq![], b),
{
    assert forall|y: Reads| #[trigger]
        run_kids(rest, sfv, v0s, b, Seq::<Result<Seq<char>, Seq<char>>>::empty() + y) == failed(early_err(c), seq![], b) by {
        assert(Seq::<Result<Seq<char>, Seq<char>>>::empty() + y =~= y);
    }
}

/// The error of an `<Include>` whose file reads as `res` and that does
/// not go on to expand what it read.
pub open spec fn read_fail_err(s: Seq<char>, p: Seq<char>, res: Result<Seq<char>, Seq<char>>) -> SError {
    match res {
        Err(e) => read_err(s, p, e),
        Ok(contents) => if spec_parse(contents) is Err {
            included_err(p)
        } else {
            cyclic_err(p)
        },
    }
}

proof fn lemma_stop_read(
    rest: Seq<SNode>,
    sfv: Option<Seq<char>>,
    v0s: Seq<Seq<char>>,
    b: usize,
    c: SElement,
    s: Seq<char>,
    res: Result<Seq<char>, Seq<char>>,
)
    requires
        rest.len() > 0,
        rest[0] == SNode::Element(c),
        c.tag == "Include"@,
        spec_include_src(c) == Ok::<Seq<char>, SError>(s),
        b > 0,
        res is Err || spec_parse(res->Ok_0) is Err || in_visited(v0s, spec_resolve(s, sfv)),
    ensures
        forall|y: Reads| #[trigger]
            run_kids(rest, sfv, v0s, b, seq![res] + y) == failed(
                read_fail_err(s, spec_resolve(s, sfv), res),
                seq![spec_resolve(s, sfv)],
                (b - 1) as usize,
            ),
{
    assert forall|y: Reads| #[trigger]
        run_kids(rest, sfv, v0s, b, seq![res] + y) == failed(
            read_fail_err(s, spec_resolve(s, sfv), res),
            seq![spec_resolve(s, sfv)],
            (b - 1) as usize,
        ) by {
        assert((seq![res] + y)[0] == res);
        assert((seq![res] + y).len() > 0);
    }
}

proof fn lemma_stop_sub(
    rest: Seq<SNode>,
    sfv: Option<Seq<char>>,
    v0s: Seq<Seq<char>>,
    b: usize,
    c: SElement,
    s: Seq<char>,
    contents: Seq<char>,
    rr: Reads,
)
    requires
        rest.len() > 0,
        rest[0] == SNode::Element(c),
        c.tag == "Include"@,
        spec_include_src(c) == Ok::<Seq<char>, SError>(s),
        b > 0,
        spec_parse(contents) is Ok,
        !in_visited(v0s, spec_resolve(s, sfv)),
        ({
            let p = spec_resolve(s, sfv);
            let root = spec_parse(contents)->Ok_0;
            &&& forall|y: Reads| #[trigger]
                run_elem(root, sfv, v0s.push(p), (b - 1) as usize, rr + y) == run_elem(
                    root,
                    sfv,
                    v0s.push(p),
                    (b - 1) as usize,
                    rr,
                )
            &&& run_elem(root, sfv, v0s.push(p), (b - 1) as usize, rr).r is Err
        }),
    ensures
        ({
            let p = spec_resolve(s, sfv);
            let sub = run_elem(spec_parse(contents)->Ok_0, sfv, v0s.push(p), (b - 1) as usize, rr);
            forall|y: Reads| #[trigger]
                run_kids(rest, sfv, v0s, b, (seq![Ok::<Seq<char>, Seq<char>>(contents)] + rr) + y) == Run {
                    r: sub.r,
                    out: seq![],
                    paths: seq![p] + sub.paths,
                    asked: seq![p] + sub.asked,
                    b_out: sub.b_out,
                }
        }),
{
    let p = spec_resolve(s, sfv);
    let root = spec_parse(contents)->Ok_0;
    let sub = run_elem(root, sfv, v0s.push(p), (b - 1) as usize, rr);
    assert forall|y: Reads| #[trigger]
        run_kids(rest, sfv, v0s, b, (seq![Ok::<Seq<char>, Seq<char>>(contents)] + rr) + y) == Run {
            r: sub.r,
            out: seq![],
            paths: seq![p] + sub.paths,
            asked: seq![p] + sub.asked,
            b_out: sub.b_out,
        } by {
        let reads = (seq![Ok::<Seq<char>, Seq<char>>(contents)] + rr) + y;
        assert(reads[0] == Ok::<Seq<char>, Seq<char>>(contents));
        assert(reads.drop_first() =~= rr + y);
        assert(run_elem(root, sfv, v0s.push(p), (b - 1) as usize, rr + y) == sub);
    }
}

proof fn lemma_step_include(
    kids0: Seq<SNode>,
    sfv: Option<Seq<char>>,
    v0s: Seq<Seq<char>>,
    b0: usize,
    rd: Reads,
    done: Seq<SNode>,
    pdone: Seq<Seq<char>>,
    ad: Seq<Seq<char>>,
    rest: Seq<SNode>,
    b: usize,
    c: SElement,
    s: Seq<char>,
    contents: Seq<char>,
    rr: Reads,
)
    requires
        loop_ok(kids0, sfv, v0s, b0, rd, done, pdone, ad, rest, b),
        rest.len() > 0,
        rest[0] == SNode::Element(c),
        c.tag == "Include"@,
        spec_include_src(c) == Ok::<Seq<char>, SError>(s),
        b > 0,
        spec_parse(contents) is Ok,
        !in_visited(v0s, spec_resolve(s, sfv)),
        ({
            let p = spec_resolve(s, sfv);
            let root = spec_parse(contents)->Ok_0;
            let sub = run_elem(root, sfv, v0s.push(p), (b - 1) as usize, rr);
            &&& forall|y: Reads| #[trigger]
                run_elem(root, sfv, v0s.push(p), (b - 1) as usize, rr + y) == sub
            &&& sub.r is Ok
            &&& sub.b_out <= b - 1
            &&& sub.asked.len() == rr.len()
        }),
    ensures
        ({
            let p = spec_resolve(s, sfv);
            let root = spec_parse(contents)->Ok_0;
            let sub = run_elem(root, sfv, v0s.push(p), (b - 1) as usize, rr);
            loop_ok(
                kids0,
                sfv,
                v0s,
                b0,
                rd + (seq![Ok::<Seq<char>, Seq<char>>(contents)] + rr),
                done,
                pdone + (seq![p] + sub.paths),
                ad + (seq![p] + sub.asked),
                included_nodes(SElement { children: sub.out, ..root }) + rest.drop_first(),
                sub.b_out,
            )
        }),
{
    reveal(loop_ok);
    let p = spec_resolve(s, sfv);
    let root = spec_parse(contents)->Ok_0;
    let sub = run_elem(root, sfv, v0s.push(p), (b - 1) as usize, rr);
    let step = seq![Ok::<Seq<char>, Seq<char>>(contents)] + rr;
    let rest2 = included_nodes(SElement { children: sub.out, ..root }) + rest.drop_first();
    assert forall|x: Reads| #[trigger]
        run_kids(kids0, sfv, v0s, b0, (rd + step) + x) == after(
            done,
            pdone + (seq![p] + sub.paths),
            ad + (seq![p] + sub.asked),
            run_kids(rest2, sfv, v0s, sub.b_out, x),
        ) by {
        assert((rd + step) + x =~= rd + (step + x));
        assert(run_kids(kids0, sfv, v0s, b0, rd + (step + x)) == after(done, pdone, ad, run_kids(rest, sfv, v0s, b, step + x)));
        assert((step + x)[0] == Ok::<Seq<char>, Seq<char>>(contents));
        assert((step + x).drop_first() =~= rr + x);
        assert(run_elem(root, sfv, v0s.push(p), (b - 1) as usize, rr + x) == sub);
        assert((rr + x).skip(sub.asked.len() as int) =~= x);
        let tail = run_kids(rest2, sfv, v0s, sub.b_out, x);
        assert(run_kids(rest, sfv, v0s, b, step + x) == after(seq![], seq![p] + sub.paths, seq![p] + sub.asked, tail));
        lemma_after_after(done, pdone, ad, seq![], seq![p] + sub.paths, seq![p] + sub.asked, tail);
        assert(done + Seq::<SNode>::empty() =~= done);
    }
}

/// The reads that witness an expansion.
proof fn lemma_witness<F: Fn(String) -> Result<String, String>>(
    e: SElement,
    sfv: Option<Seq<char>>,
    read: F,
    visited: Seq<Seq<char>>,
    budget: usize,
    r: Result<(), SError>,
    e_out: SElement,
    paths: Seq<Seq<char>>,
    b_out: usize,
) -> (reads: Reads)
    requires
        expanded_by(e, sfv, read, visited, budget, r, e_out, paths, b_out),
    ensures
        reads_ok(read, run_elem(e, sfv, visited, budget, reads).asked, reads),
        forall|y: Reads| #[trigger] run_elem(e, sfv, visited, budget, reads + y) == run_elem(e, sfv, visited, budget, reads),
        run_elem(e, sfv, visited, budget, reads).r == r,
        r is Ok ==> e_out == (SElement { children: run_elem(e, sfv, visited, budget, reads).out, ..e }),
        r is Ok ==> paths == run_elem(e, sfv, visited, budget, reads).paths,
        r is Ok ==> b_out == run_elem(e, sfv, visited, budget, reads).b_out,
{
    reveal(expanded_by);
    choose|reads: Reads|
        #[trigger] reads_ok(read, run_elem(e, sfv, visited, budget, reads).asked, reads) && (forall|x: Seq<
            Result<Seq<char>, Seq<char>>,
        >| #[trigger] run_elem(e, sfv, visited, budget, reads + x) == run_elem(e, sfv, visited, budget, reads))
            && run_elem(e, sfv, visited, budget, reads).r == r && (r is Ok ==> e_out == SElement {
            children: run_elem(e, sfv, visited, budget, reads).out,
            ..e
        } && paths == run_elem(e, sfv, visited, budget, reads).paths && b_out == run_elem(
            e,
            sfv,
            visited,
            budget,
            reads,
        ).b_out)
}

/// An expansion that ends with `fin` whatever follows the reads `rd`.
proof fn lemma_finish<F: Fn(String) -> Result<String, String>>(
    e0: SElement,
    sfv: Option<Seq<char>>,
    read: F,
    v0s: Seq<Seq<char>>,
    b0: usize,
    rd: Reads,
    fin: Run,
)
    requires
        forall|y: Reads| #[trigger] run_kids(e0.children, sfv, v0s, b0, rd + y) == fin,
        reads_ok(read, fin.asked, rd),
    ensures
        fin.r is Err ==> forall|e_out: SElement, paths: Seq<Seq<char>>, b_out: usize| #[trigger]
            expanded_by(e0, sfv, read, v0s, b0, fin.r, e_out, paths, b_out),
        fin.r is Ok ==> expanded_by(e0, sfv, read, v0s, b0, fin.r, (SElement { children: fin.out, ..e0 }), fin.paths, fin.b_out),
{
    reveal(expanded_by);
    assert(rd + Seq::<Result<Seq<char>, Seq<char>>>::empty() =~= rd);
    assert(run_kids(e0.children, sfv, v0s, b0, rd + Seq::<Result<Seq<char>, Seq<char>>>::empty()) == fin);
    assert(run_elem(e0, sfv, v0s, b0, rd) == fin);
    assert forall|y: Reads| #[trigger] run_elem(e0, sfv, v0s, b0, rd + y) == run_elem(e0, sfv, v0s, b0, rd) by {
        assert(run_kids(e0.children, sfv, v0s, b0, rd + y) == fin);
    }
    assert(reads_ok(read, run_elem(e0, sfv, v0s, b0, rd).asked, rd));
}

/// Expand every `<Include src="…">` under `element`, at any depth and in
/// order, as `run_elem` states over the reads `read` gives
/// (`expanded_by`): each file (its `src` resolved against
/// `source_file`) is read with `read`, parsed, its own includes
/// expanded, and its root spliced in place of the `<Include>` (a
/// `<Fragment>` root by its children). A file with the same path
/// components as one already being included is an include cycle. Each
/// file read is recorded in `included_paths`, after those already
/// there; at most `budget` files are read.
#[verifier::rlimit(100)]
pub fn expand_includes<F: Fn(String) -> Result<String, String>>(
    element: &mut AstElement,
    source_file: Option<&str>,
    read: &F,
    visited: &mut Vec<String>,
    included_paths: &mut Vec<String>,
    budget: &mut usize,
) -> (r: Result<(), XmlError>)
    requires
        forall|p: String| call_requires(*read, (p,)),
    ensures
        *final(budget) <= *old(budget),
        *final(budget) == *old(budget) ==> final(element)@ == old(element)@,
        final(element)@.tag == old(element)@.tag,
        final(element)@.attrs == old(element)@.attrs,
        final(element)@.offset == old(element)@.offset,
        r is Ok ==> forall|j: int|
            0 <= j < final(element)@.children.len() ==> !is_include(#[trigger] final(element)@.children[j]),
        r is Ok ==> final(visited)@ == old(visited)@,
        include_free(old(element)@) ==> r is Ok && *final(budget) == *old(budget),
        *final(budget) == *old(budget) ==> final(included_paths)@ == old(included_paths)@,
        r is Ok ==> include_free(final(element)@),
        old(included_paths)@.len() <= final(included_paths)@.len(),
        final(included_paths)@.subrange(0, old(included_paths)@.len() as int) == old(included_paths)@,
        expanded_by(
            old(element)@,
            crate::compile::opt_str_view(source_file),
            *read,
            strings_of(old(visited)@),
            *old(budget),
            unit_res_view(r),
            final(element)@,
            strings_of(final(included_paths)@).skip(old(included_paths)@.len() as int),
            *final(budget),
        ),
    decreases *old(budget), esize(old(element)@),
{
    let ghost b0 = *budget;
    let ghost e0 = element@;
    let ghost v0 = visited@;
    let ghost v0s = strings_of(visited@);
    let ghost ip0 = included_paths@;
    let ghost sfv = crate::compile::opt_str_view(source_file);
    let ghost mut rd: Reads = seq![];
    let ghost mut ad: Seq<Seq<char>> = seq![];
    let mut i: usize = 0;
    proof {
        lemma_nodes_view(element.children@);
        lemma_loop_start(e0.children, sfv, v0s, b0);
        assert(strings_of(included_paths@).skip(ip0.len() as int) =~= Seq::<Seq<char>>::empty());
        assert(element@.children.skip(0) =~= e0.children);
        assert(element@.children.take(0) =~= Seq::<SNode>::empty());
    }
    while i < element.children.len()
        invariant
            forall|p: String| call_requires(*read, (p,)),
            i <= element.children@.len(),
            *budget <= b0,
            b0 == *old(budget),
            e0 == old(element)@,
            *budget == b0 ==> element@ == e0,
            element@.tag == e0.tag,
            element@.attrs == e0.attrs,
            element@.offset == e0.offset,
            visited@ == v0,
            v0 == old(visited)@,
            v0s == strings_of(v0),
            nodes_view(element.children@).len() == element.children@.len(),
            forall|j: int| 0 <= j < element.children@.len() ==> #[trigger] nodes_view(element.children@)[j] == node_view(element.children@[j]),
            forall|j: int| 0 <= j < i ==> !is_include(#[trigger] element@.children[j]),
            forall|j: int| 0 <= j < i ==> node_free(#[trigger] element@.children[j]),
            include_free(e0) ==> *budget == b0,
            ip0 == old(included_paths)@,
            *budget == b0 ==> included_paths@ == ip0,
            sfv == crate::compile::opt_str_view(source_file),
            ip0.len() <= included_paths@.len(),
            included_paths@.subrange(0, ip0.len() as int) == ip0,
            reads_ok(*read, ad, rd),
            loop_ok(e0.children, sfv, v0s, b0, rd, element@.children.take(i as int),
                strings_of(included_paths@).skip(ip0.len() as int), ad, element@.children.skip(i as int), *budget),
        decreases *budget, element.children.len() - i,
    {
        let ghost ch0 = element.children@;
        let ghost el0 = element@;
        let ghost bi = *budget;
        let ghost pi = included_paths@;
        let ghost k0 = el0.children.skip(i as int);
        let ghost done = el0.children.take(i as int);
        let ghost pdone = strings_of(pi).skip(ip0.len() as int);
        proof {
            if *budget == b0 {
                lemma_ksize_index(e0.children, i as int);
            }
            if include_free(e0) {
                lemma_kids_free_index(e0.children, e0.children.len() as int, i as int);
            }
            assert(k0.len() > 0);
            assert(k0[0] == el0.children[i as int]);
            assert(k0.drop_first() =~= el0.children.skip(i + 1));
        }
        let node = element.children.remove(i);
        assert(node == ch0[i as int]);
        assert(node_view(node) == el0.children[i as int]) by {
            assert(el0.children[i as int] == nodes_view(ch0)[i as int]);
        }
        let is_inc = match &node {
            AstNode::Element(c) => str_eq(c.tag.as_str(), "Include"),
            _ => false,
        };
        if is_inc {
            let c = match node {
                AstNode::Element(c) => c,
                AstNode::Text { text, byte_offset } => {
                    element.children.insert(i, AstNode::Text { text, byte_offset });
                    assert(false);
                    return Err(XmlError::new(XmlErrorKind::Unsupported, String::new()));
                },
                AstNode::Expr { expr, byte_offset } => {
                    element.children.insert(i, AstNode::Expr { expr, byte_offset });
                    assert(false);
                    return Err(XmlError::new(XmlErrorKind::Unsupported, String::new()));
                },
            };
            assert(k0[0] == SNode::Element(c@));
            let src = match include_src(&c) {
                Ok(s) => s,
                Err(x) => {
                    element.children.insert(i, AstNode::Element(c));
                    assert(element.children@ =~= ch0);
                    proof {
                        lemma_stop_early(k0, sfv, v0s, bi, c@);
                        lemma_step_stop(e0.children, sfv, v0s, b0, rd, done, pdone, ad, k0, bi, seq![],
                            failed(early_err(c@), seq![], bi));
                        assert(ad + Seq::<Seq<char>>::empty() =~= ad);
                        lemma_finish(e0, sfv, *read, v0s, b0, rd + seq![], after(done, pdone, ad, failed(early_err(c@), seq![], bi)));
                        assert(rd + Seq::<Result<Seq<char>, Seq<char>>>::empty() =~= rd);
                    }
                    return Err(x);
                },
            };
            let resolved = resolve_include_path(src.as_str(), source_file);
            let ghost p = resolved@;
            assert(p == spec_resolve(src@, sfv));
            if *budget == 0 {
                let x = limit_error(&c);
                element.children.insert(i, AstNode::Element(c));
                assert(element.children@ =~= ch0);
                proof {
                    lemma_stop_early(k0, sfv, v0s, bi, c@);
                    lemma_step_stop(e0.children, sfv, v0s, b0, rd, done, pdone, ad, k0, bi, seq![],
                        failed(early_err(c@), seq![], bi));
                    assert(ad + Seq::<Seq<char>>::empty() =~= ad);
                    lemma_finish(e0, sfv, *read, v0s, b0, rd + seq![], after(done, pdone, ad, failed(early_err(c@), seq![], bi)));
                }
                return Err(x);
            }
            *budget = *budget - 1;
            let q = resolved.clone();
            let ghost gq = q;
            let read_result = read(q);
            let ghost res = str_res_view(read_result);
            proof {
                assert(gq@ == resolved@);
                assert(read_may_give(*read, p, res));
                assert(reads_ok(*read, seq![p], seq![res]));
                lemma_reads_ok_concat(*read, ad, rd, seq![p], seq![res]);
            }
            let contents = match read_result {
                Ok(s) => s,
                Err(e) => {
                    element.children.insert(i, AstNode::Element(c));
                    let x = read_error(src.as_str(), resolved.as_str(), e.as_str());
                    proof {
                        lemma_stop_read(k0, sfv, v0s, bi, c@, src@, res);
                        let stop = failed(read_fail_err(src@, p, res), seq![p], (bi - 1) as usize);
                        lemma_step_stop(e0.children, sfv, v0s, b0, rd, done, pdone, ad, k0, bi, seq![res], stop);
                        lemma_finish(e0, sfv, *read, v0s, b0, rd + seq![res], after(done, pdone, ad, stop));
                    }
                    return Err(x);
                },
            };
            let mut root = match parse_included(contents.as_str(), resolved.as_str()) {
                Ok(r) => r,
                Err(x) => {
                    element.children.insert(i, AstNode::Element(c));
                    proof {
                        lemma_stop_read(k0, sfv, v0s, bi, c@, src@, res);
                        let stop = failed(read_fail_err(src@, p, res), seq![p], (bi - 1) as usize);
                        lemma_step_stop(e0.children, sfv, v0s, b0, rd, done, pdone, ad, k0, bi, seq![res], stop);
                        lemma_finish(e0, sfv, *read, v0s, b0, rd + seq![res], after(done, pdone, ad, stop));
                    }
                    return Err(x);
                },
            };
            let ghost root0 = root@;
            if in_visited_exec(visited, resolved.as_str()) {
                element.children.insert(i, AstNode::Element(c));
                let x = cyclic_error(resolved.as_str());
                proof {
                    lemma_stop_read(k0, sfv, v0s, bi, c@, src@, res);
                    let stop = failed(read_fail_err(src@, p, res), seq![p], (bi - 1) as usize);
                    lemma_step_stop(e0.children, sfv, v0s, b0, rd, done, pdone, ad, k0, bi, seq![res], stop);
                    lemma_finish(e0, sfv, *read, v0s, b0, rd + seq![res], after(done, pdone, ad, stop));
                }
                return Err(x);
            }
            let ghost paths_before = included_paths@;
            visited.push(resolved.clone());
            included_paths.push(resolved.clone());
            proof {
                assert(included_paths@.subrange(0, paths_before.len() as int) =~= paths_before);
                lemma_prefix_keeps(ip0, paths_before, included_paths@);
                assert(strings_of(visited@) =~= v0s.push(p));
            }
            let ghost paths_mid = included_paths@;
            let ghost bm = *budget;
            match expand_includes(&mut root, source_file, read, visited, included_paths, budget) {
                Ok(()) => {},
                Err(x) => {
                    element.children.insert(i, AstNode::Element(c));
                    proof {
                        lemma_prefix_keeps(ip0, paths_mid, included_paths@);
                        let rr = lemma_witness(root0, sfv, *read, v0s.push(p), bm, Err(x@), root@,
                            strings_of(included_paths@).skip(paths_mid.len() as int), *budget);
                        let sub = run_elem(root0, sfv, v0s.push(p), bm, rr);
                        lemma_stop_sub(k0, sfv, v0s, bi, c@, src@, contents@, rr);
                        let stop = Run { r: sub.r, out: seq![], paths: seq![p] + sub.paths, asked: seq![p] + sub.asked, b_out: sub.b_out };
                        let step = seq![res] + rr;
                        lemma_step_stop(e0.children, sfv, v0s, b0, rd, done, pdone, ad, k0, bi, step, stop);
                        lemma_reads_ok_concat(*read, seq![p], seq![res], sub.asked, rr);
                        lemma_reads_ok_concat(*read, ad, rd, seq![p] + sub.asked, step);
                        lemma_finish(e0, sfv, *read, v0s, b0, rd + step, after(done, pdone, ad, stop));
                    }
                    return Err(x);
                },
            }
            let ghost root_out = root@;
            let ghost b1 = *budget;
            let ghost rr = lemma_witness(root0, sfv, *read, v0s.push(p), bm, Ok(()), root@,
                strings_of(included_paths@).skip(paths_mid.len() as int), *budget);
            let ghost sub = run_elem(root0, sfv, v0s.push(p), bm, rr);
            proof {
                lemma_prefix_keeps(ip0, paths_mid, included_paths@);
                lemma_step_include(e0.children, sfv, v0s, b0, rd, done, pdone, ad, k0, bi, c@, src@, contents@, rr);
                lemma_reads_ok_concat(*read, seq![p], seq![res], sub.asked, rr);
                lemma_reads_ok_concat(*read, ad, rd, seq![p] + sub.asked, seq![res] + rr);
                rd = rd + (seq![res] + rr);
                ad = ad + (seq![p] + sub.asked);
            }
            let _ = visited.pop();
            assert(visited@ =~= v0);
            let nodes = included_nodes_of(root);
            element.children.insert(i, AstNode::Element(c));
            assert(element.children@ =~= ch0);
            splice_at(&mut element.children, i, nodes);
            proof {
                lemma_nodes_view(element.children@);
                lemma_nodes_view(ch0);
                assert(element@.children =~= el0.children.take(i as int) + included_nodes(root_out) + el0.children.skip(i + 1));
                assert(element@.children.skip(i as int) =~= included_nodes(root_out) + k0.drop_first());
                assert(element@.children.take(i as int) =~= el0.children.take(i as int));
                assert(pi == paths_before);
                assert forall|k: int| 0 <= k < pi.len() implies included_paths@[k] == pi[k] by {
                    assert(paths_mid.subrange(0, pi.len() as int)[k] == paths_mid[k]);
                }
                assert(included_paths@.subrange(0, pi.len() as int) =~= pi);
                lemma_paths_after(ip0, pi, included_paths@);
                lemma_paths_after(pi, paths_mid, included_paths@);
                assert(strings_of(included_paths@).skip(pi.len() as int) =~= seq![p] + sub.paths) by {
                    assert(strings_of(paths_mid).skip(pi.len() as int) =~= seq![p]);
                }
                assert(strings_of(included_paths@).skip(ip0.len() as int) =~= pdone + (seq![p] + sub.paths));
                assert forall|j: int| 0 <= j < i implies !is_include(#[trigger] element@.children[j]) by {
                    assert(element@.children[j] == el0.children[j]);
                }
                assert forall|j: int| 0 <= j < i implies node_free(#[trigger] element@.children[j]) by {
                    assert(element@.children[j] == el0.children[j]);
                }
            }
        } else {
            let ghost pm = included_paths@;
            let node2 = match node {
                AstNode::Element(child) => {
                    let mut child = child;
                    proof {
                        if *budget == b0 {
                            lemma_nsize_element(child@);
                        }
                    }
                    let ghost child0 = child@;
                    assert(k0[0] == SNode::Element(child0));
                    match expand_includes(&mut child, source_file, read, visited, included_paths, budget) {
                        Ok(()) => {},
                        Err(x) => {
                            element.children.insert(i, AstNode::Element(child));
                            proof {
                                lemma_prefix_keeps(ip0, pm, included_paths@);
                                if *budget == b0 {
                                    assert(element.children@ =~= ch0.update(i as int, AstNode::Element(child)));
                                    lemma_nodes_view_update(ch0, i as int, AstNode::Element(child));
                                    assert(element@.children =~= el0.children);
                                }
                                let rc = lemma_witness(child0, sfv, *read, v0s, bi, Err(x@), child@,
                                    strings_of(included_paths@).skip(pm.len() as int), *budget);
                                let sub = run_elem(child0, sfv, v0s, bi, rc);
                                lemma_stop_elem(k0, sfv, v0s, bi, child0, rc);
                                let stop = Run { r: sub.r, out: seq![], paths: sub.paths, asked: sub.asked, b_out: sub.b_out };
                                lemma_step_stop(e0.children, sfv, v0s, b0, rd, done, pdone, ad, k0, bi, rc, stop);
                                lemma_reads_ok_concat(*read, ad, rd, sub.asked, rc);
                                lemma_finish(e0, sfv, *read, v0s, b0, rd + rc, after(done, pdone, ad, stop));
                            }
                            return Err(x);
                        },
                    }
                    proof {
                        lemma_prefix_keeps(ip0, pm, included_paths@);
                        let rc = lemma_witness(child0, sfv, *read, v0s, bi, Ok(()), child@,
                            strings_of(included_paths@).skip(pm.len() as int), *budget);
                        let sub = run_elem(child0, sfv, v0s, bi, rc);
                        lemma_step_elem(e0.children, sfv, v0s, b0, rd, done, pdone, ad, k0, bi, child0, rc);
                        lemma_reads_ok_concat(*read, ad, rd, sub.asked, rc);
                        lemma_paths_after(ip0, pm, included_paths@);
                        assert(strings_of(included_paths@).skip(ip0.len() as int) =~= pdone + sub.paths);
                        assert(SElement { children: sub.out, ..child0 } == child@);
                        rd = rd + rc;
                        ad = ad + sub.asked;
                    }
                    AstNode::Element(child)
                },
                other => {
                    proof {
                        lemma_step_other(e0.children, sfv, v0s, b0, rd, done, pdone, ad, k0, bi);
                    }
                    other
                },
            };
            assert(!is_include(node_view(node2)));
            element.children.insert(i, node2);
            assert(element.children@ =~= ch0.update(i as int, node2));
            proof {
                lemma_nodes_view_update(ch0, i as int, node2);
                lemma_nodes_view(element.children@);
                lemma_nodes_view(ch0);
                if *budget == b0 {
                    assert(element@.children =~= el0.children);
                }
                assert forall|j: int| 0 <= j < i + 1 implies !is_include(#[trigger] element@.children[j]) by {
                    if j < i {
                        assert(element@.children[j] == el0.children[j]);
                    }
                }
                assert forall|j: int| 0 <= j < i + 1 implies node_free(#[trigger] element@.children[j]) by {
                    if j < i {
                        assert(element@.children[j] == el0.children[j]);
                    }
                }
                assert(element@.children.skip(i + 1) =~= k0.drop_first());
                assert(element@.children.take(i + 1) =~= done.push(node_view(node2)));
                if !(node2 is Element) {
                    assert(pm == included_paths@);
                    assert(node_view(node2) == k0[0]);
                }
            }
            i += 1;
        }
    }
    proof {
        lemma_kids_free_from_nodes(element@.children, element@.children.len() as int);
        assert(element@.children.skip(i as int) =~= Seq::<SNode>::empty());
        assert(element@.children.take(i as int) =~= element@.children);
        let fin = after(element@.children, strings_of(included_paths@).skip(ip0.len() as int), ad,
            run_kids(Seq::<SNode>::empty(), sfv, v0s, *budget, seq![]));
        assert forall|y: Reads| #[trigger] run_kids(e0.children, sfv, v0s, b0, rd + y) == fin by {
            reveal(loop_ok);
            assert(run_kids(element@.children.skip(i as int), sfv, v0s, *budget, y) == run_kids(Seq::<SNode>::empty(), sfv, v0s, *budget, seq![]));
        }
        assert(element@.children + Seq::<SNode>::empty() =~= element@.children);
        assert(strings_of(included_paths@).skip(ip0.len() as int) + Seq::<Seq<char>>::empty() =~= strings_of(included_paths@).skip(ip0.len() as int));
        assert(ad + Seq::<Seq<char>>::empty() =~= ad);
        lemma_finish(e0, sfv, *read, v0s, b0, rd, fin);
        assert(element@ == SElement { children: element@.children, ..e0 });
    }
    Ok(())
}

} // verus!
