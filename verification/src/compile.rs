//! The `xml!` pipeline: XML text to AST, templates expanded, then the
//! Rust block expression that builds the element tree.
use vstd::prelude::*;

use crate::ast::{AstElement, SElement};
use crate::emit::res_view;
use crate::error::{SError, XmlError};
use crate::gen::codegen_element;
use crate::gen_spec::{gen_element, wrap, Gen};
use crate::includes::{expanded_by, strings_of};
use crate::schema::{builtin_overrides, builtins, ComponentDef};
use crate::strings::to_owned;
use crate::templates::{collect_templates, expand, expand_element, walk_templates};
use crate::xmldoc::{parse, spec_parse};

verus! {

/// The app-context expression the generated code uses: the given one
/// in parentheses, or `cx`.
pub open spec fn cx_code(cx_expr: Option<Seq<char>>) -> Seq<char> {
    match cx_expr {
        Some(e) => "("@ + e + ")"@,
        None => "cx"@,
    }
}

/// The block a parsed tree compiles to: its templates collected and
/// expanded, then the root element's code in braces.
pub open spec fn spec_compile_tree(g: Gen, root: SElement) -> Result<Seq<char>, SError> {
    match walk_templates(root, seq![]) {
        Err(x) => Err(x),
        Ok(t) => match expand(root, t) {
            Err(x) => Err(x),
            Ok(r) => wrap("{ "@, gen_element(g, r), " }"@),
        },
    }
}

/// The block an `xml!` text compiles to.
pub open spec fn spec_compile(g: Gen, xml: Seq<char>) -> Result<Seq<char>, SError> {
    match spec_parse(xml) {
        Err(x) => Err(x),
        Ok(root) => spec_compile_tree(g, root),
    }
}

pub open spec fn opt_str_view(o: Option<&str>) -> Option<Seq<char>> {
    match o {
        Some(e) => Some(e@),
        None => None,
    }
}

/// What the hand-written schema table's lookups rely on.
pub open spec fn builtin_table_ok(b: Seq<ComponentDef>) -> bool {
    &&& b.len() == crate::schema::builtin_tag_list().len()
    &&& forall|i: int| 0 <= i < b.len() ==> #[trigger] b[i].tag@ == crate::schema::builtin_tag_list()[i]
    &&& forall|i: int|
        0 <= i < b.len() ==> crate::schema::class_of(#[trigger] b[i].kind)
            == crate::schema::builtin_class_list()[i]
    &&& crate::schema::defs_view(b) == crate::schema::builtin_defs()
}

/// What the XML-only table's lookups rely on.
pub open spec fn override_table_ok(o: Seq<ComponentDef>) -> bool {
    &&& o.len() == crate::schema::override_tag_list().len()
    &&& forall|i: int| 0 <= i < o.len() ==> #[trigger] o[i].tag@ == crate::schema::override_tag_list()[i]
    &&& crate::schema::defs_view(o) == crate::schema::override_defs()
}

/// Compile a parsed tree: collect its templates, expand the
/// invocations, and wrap the root element's code in a block.
pub fn compile_tree(root: &AstElement, g: &Gen) -> (r: Result<String, XmlError>)
    ensures
        res_view(r) == spec_compile_tree(*g, root@),
{
    let t = match collect_templates(root) {
        Ok(t) => t,
        Err(x) => {
            return Err(x);
        },
    };
    let expanded = match expand_element(root, &t) {
        Ok(e) => e,
        Err(x) => {
            return Err(x);
        },
    };
    match codegen_element(g, &expanded) {
        Ok(body) => {
            let mut out = to_owned("{ ");
            out.append(body.as_str());
            out.append(" }");
            Ok(out)
        },
        Err(x) => Err(x),
    }
}

/// Compile an `xml!` text against the given schema tables.
pub fn compile_with(xml: &str, g: &Gen) -> (r: Result<String, XmlError>)
    ensures
        res_view(r) == spec_compile(*g, xml@),
{
    match parse(xml) {
        Ok(root) => compile_tree(&root, g),
        Err(x) => Err(x),
    }
}

pub open spec fn first_view(r: Result<(String, Vec<String>), XmlError>) -> Result<Seq<char>, SError> {
    match r {
        Ok((s, _)) => Ok(s@),
        Err(x) => Err(x@),
    }
}

pub open spec fn outcome_view(r: Result<(String, Vec<String>), XmlError>) -> Result<(), SError> {
    match r {
        Ok(_) => Ok(()),
        Err(x) => Err(x@),
    }
}

pub open spec fn unit_view(r: Result<String, XmlError>) -> Result<(), SError> {
    match r {
        Ok(_) => Ok(()),
        Err(x) => Err(x@),
    }
}

pub open spec fn schema_for<'a>(g: Gen<'a>, user_schema: &'a [ComponentDef], cx_expr: Option<&str>) -> bool {
    builtin_table_ok(g.builtins@) && override_table_ok(g.overrides@) && g.user == user_schema
        && g.cx@ == cx_code(opt_str_view(cx_expr))
}

/// Compile an `xml!` invocation and list the XML files it read:
/// `xml_text` is the XML written between the braces, `cx_expr` the
/// `cx = <expr>` of the optional preamble (`None` for the bare
/// identifier `cx`), `source_file` the file that invoked the macro
/// (relative `<Include src>` paths resolve against its directory, or
/// the current one), `user_schema` the component definitions that
/// extend the built-in schema, and `read` what reads an included file.
/// Includes are expanded first, then templates, then the code is
/// generated. A text that does not parse gives its parse error; one
/// without `<Include>` compiles as `compile_with` states and reads
/// nothing; any code returned is that of a tree with the same root and
/// no `<Include>` left anywhere in it. The includes are expanded as
/// `expanded_by` states, from no file being included and `usize::MAX`
/// files allowed: an error of the expansion is the result, else the code
/// is that of the expanded tree and the files listed are those read, in
/// order.
pub fn codegen_with_includes<'a, F: Fn(String) -> Result<String, String>>(
    xml_text: &str,
    cx_expr: Option<&str>,
    source_file: Option<&str>,
    user_schema: &'a [ComponentDef],
    read: &F,
) -> (r: Result<(String, Vec<String>), XmlError>)
    requires
        forall|p: String| call_requires(*read, (p,)),
    ensures
        spec_parse(xml_text@) matches Err(x) ==> first_view(r) == Err::<Seq<char>, SError>(x),
        spec_parse(xml_text@) is Ok && crate::includes::include_free(spec_parse(xml_text@)->Ok_0) ==> exists|g: Gen<'a>|
            schema_for(g, user_schema, cx_expr) && first_view(r) == spec_compile_tree(g, spec_parse(xml_text@)->Ok_0)
                && (r matches Ok((_, paths)) ==> paths@.len() == 0),
        r is Ok ==> spec_parse(xml_text@) is Ok && exists|g: Gen<'a>, t: SElement|
            schema_for(g, user_schema, cx_expr) && t.tag == spec_parse(xml_text@)->Ok_0.tag
                && crate::includes::include_free(t) && first_view(r) == spec_compile_tree(g, t),
        spec_parse(xml_text@) is Ok ==> exists|x_exp: Result<(), SError>, t: SElement, paths: Seq<Seq<char>>, b: usize, g: Gen<'a>|
            #![trigger expanded_by(spec_parse(xml_text@)->Ok_0, opt_str_view(source_file), *read, seq![], usize::MAX, x_exp, t, paths, b), schema_for(g, user_schema, cx_expr)]
            expanded_by(spec_parse(xml_text@)->Ok_0, opt_str_view(source_file), *read, seq![], usize::MAX, x_exp, t, paths, b)
                && schema_for(g, user_schema, cx_expr) && match x_exp {
                Err(x) => first_view(r) == Err::<Seq<char>, SError>(x),
                Ok(_) => first_view(r) == spec_compile_tree(g, t) && (r matches Ok((_, ps)) ==> strings_of(ps@) == paths),
            },
{
    let mut element = match parse(xml_text) {
        Ok(e) => e,
        Err(x) => {
            return Err(x);
        },
    };
    let ghost root = element@;
    let mut visited: Vec<String> = Vec::new();
    let mut included: Vec<String> = Vec::new();
    let mut budget: usize = usize::MAX;
    assert(crate::includes::strings_of(visited@) =~= seq![]);
    let b = builtins();
    let o = builtin_overrides();
    let cx = match cx_expr {
        Some(e) => {
            let mut s = to_owned("(");
            s.append(e);
            s.append(")");
            s
        },
        None => to_owned("cx"),
    };
    let g = Gen { builtins: b.as_slice(), overrides: o.as_slice(), user: user_schema, cx: cx.as_str() };
    assert(schema_for(g, user_schema, cx_expr));

    match crate::includes::expand_includes(&mut element, source_file, read, &mut visited, &mut included, &mut budget) {
        Ok(()) => {},
        Err(x) => {
            proof {
                assert(root == spec_parse(xml_text@)->Ok_0);
                assert(expanded_by(spec_parse(xml_text@)->Ok_0, opt_str_view(source_file), *read, seq![], usize::MAX, Err(x@), element@,
                    strings_of(included@).skip(0), budget));
                assert(schema_for(g, user_schema, cx_expr));
                assert(first_view(Err::<(String, Vec<String>), XmlError>(x)) == Err::<Seq<char>, SError>(x@));
            }
            return Err(x);
        },
    }
    let r = match compile_tree(&element, &g) {
        Ok(s) => Ok((s, included)),
        Err(x) => Err(x),
    };
    proof {
        if crate::includes::include_free(root) {
            assert(element@ == root);
            assert(included@.len() == 0);
            assert(first_view(r) == spec_compile_tree(g, root));
        }
        assert(first_view(r) == spec_compile_tree(g, element@));
        assert(strings_of(included@).skip(0) =~= strings_of(included@));
        assert(root == spec_parse(xml_text@)->Ok_0);
        assert(expanded_by(spec_parse(xml_text@)->Ok_0, opt_str_view(source_file), *read, seq![], usize::MAX, Ok(()), element@, strings_of(included@), budget));
        assert(schema_for(g, user_schema, cx_expr));
    }
    r
}

/// Compile an `xml!` invocation; as `codegen_with_includes`, without
/// the list of files read.
pub fn codegen<'a, F: Fn(String) -> Result<String, String>>(
    xml_text: &str,
    cx_expr: Option<&str>,
    source_file: Option<&str>,
    user_schema: &'a [ComponentDef],
    read: &F,
) -> (r: Result<String, XmlError>)
    requires
        forall|p: String| call_requires(*read, (p,)),
    ensures
        spec_parse(xml_text@) matches Err(x) ==> res_view(r) == Err::<Seq<char>, SError>(x),
        spec_parse(xml_text@) is Ok && crate::includes::include_free(spec_parse(xml_text@)->Ok_0) ==> exists|g: Gen<'a>|
            schema_for(g, user_schema, cx_expr) && res_view(r) == spec_compile_tree(g, spec_parse(xml_text@)->Ok_0),
        r is Ok ==> spec_parse(xml_text@) is Ok && exists|g: Gen<'a>, t: SElement|
            schema_for(g, user_schema, cx_expr) && t.tag == spec_parse(xml_text@)->Ok_0.tag
                && crate::includes::include_free(t) && res_view(r) == spec_compile_tree(g, t),
        spec_parse(xml_text@) is Ok ==> exists|x_exp: Result<(), SError>, t: SElement, paths: Seq<Seq<char>>, b: usize, g: Gen<'a>|
            #![trigger expanded_by(spec_parse(xml_text@)->Ok_0, opt_str_view(source_file), *read, seq![], usize::MAX, x_exp, t, paths, b), schema_for(g, user_schema, cx_expr)]
            expanded_by(spec_parse(xml_text@)->Ok_0, opt_str_view(source_file), *read, seq![], usize::MAX, x_exp, t, paths, b)
                && schema_for(g, user_schema, cx_expr) && match x_exp {
                Err(x) => res_view(r) == Err::<Seq<char>, SError>(x),
                Ok(_) => res_view(r) == spec_compile_tree(g, t),
            },
{
    match codegen_with_includes(xml_text, cx_expr, source_file, user_schema, read) {
        Ok((s, _)) => Ok(s),
        Err(x) => Err(x),
    }
}

} // verus!
