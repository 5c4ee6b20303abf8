//! Behaviour that the doc comments promise: the edit distance behind
//! "did you mean", fractional spacing shorthands, a leaf's inner text,
//! parse-error positions, the built-in table and included-file errors.
use yororen_ui_xml::compile::codegen;
use yororen_ui_xml::diagnostics::{did_you_mean, edit_distance};
use yororen_ui_xml::error::XmlErrorKind;
use yororen_ui_xml::includes::parse_included;
use yororen_ui_xml::handlers::wrap_event_body_with_modifiers;
use yororen_ui_xml::normalise::normalise_bool_attrs;
use yororen_ui_xml::templates::collect_templates;
use yororen_ui_xml::text::{parse_string_interpolation, InterpPart};
use yororen_ui_xml::xmldoc::parse;
use yororen_ui_xml::schema::{builtins, is_spacing_shorthand, ComponentDef, ComponentKind};
use yororen_ui_xml::xmldoc::parse_roxmltree_offset;

fn no_files(p: String) -> Result<String, String> {
    Err(format!("no file `{p}` is readable here"))
}

#[test]
fn edit_distance_counts_a_transposition_as_one_edit() {
    assert_eq!(edit_distance("ab", "ba"), 1);
    assert_eq!(edit_distance("flxe", "flex"), 1);
    assert_eq!(edit_distance("on_clik", "on_click"), 1);
}

#[test]
fn edit_distance_classic_values() {
    assert_eq!(edit_distance("kitten", "sitting"), 3);
    assert_eq!(edit_distance("cc", "ccc"), 1);
    assert_eq!(edit_distance("", "abc"), 3);
    assert_eq!(edit_distance("abc", ""), 3);
    assert_eq!(edit_distance("abc", "abc"), 0);
    assert_eq!(edit_distance("abc", "abd"), edit_distance("abd", "abc"));
}

#[test]
fn did_you_mean_finds_a_transposed_name() {
    let candidates = ["flex", "gap_3", "items_center"];
    assert_eq!(did_you_mean("flxe", &candidates), Some("flex"));
}

#[test]
fn fractional_spacing_suffixes_are_shorthands() {
    assert!(is_spacing_shorthand("w_1_2"));
    assert!(is_spacing_shorthand("max_w_1_3"));
    assert!(is_spacing_shorthand("h_5_6"));
    assert!(is_spacing_shorthand("w_1_12"));
    assert!(is_spacing_shorthand("w_full"));
    assert!(is_spacing_shorthand("gap_3"));
    assert!(!is_spacing_shorthand("colour_1_2"));
    assert!(!is_spacing_shorthand("w_7_8"));
}

#[test]
fn label_text_falls_back_to_inner_text() {
    let code = codegen(r#"<Label id="t">Hello</Label>"#, None, None, &[], &no_files)
        .expect("a label with inner text compiles");
    assert!(code.contains("::yororen_ui::headless::label::label"));
    assert_eq!(code.matches("\"Hello\"").count(), 1);
    assert!(code.contains("(\"Hello\").to_string()"));
}

#[test]
fn label_text_attribute_is_used_as_is() {
    let code = codegen(r#"<Label id="t" text="Hi" />"#, None, None, &[], &no_files)
        .expect("a label with a text attribute compiles");
    assert!(code.contains("\"Hi\""));
}

#[test]
fn error_position_becomes_a_byte_offset() {
    assert_eq!(parse_roxmltree_offset("unexpected token at line 2, column 3", "ab\ncd"), Some(5));
    assert_eq!(parse_roxmltree_offset("unexpected token at line 1, column 2 here", "ab\ncd"), Some(1));
    assert_eq!(parse_roxmltree_offset("something went wrong", "ab\ncd"), None);
}

#[test]
fn builtin_table_is_sorted_by_tag() {
    let table = builtins();
    for w in table.windows(2) {
        assert!(w[0].tag < w[1].tag, "{} before {}", w[0].tag, w[1].tag);
    }
}

#[test]
fn lookup_gives_the_table_entry() {
    match ComponentDef::lookup("Column") {
        Some(d) => match d.kind {
            ComponentKind::Container(c) => assert_eq!(c.fixed_methods, vec![("col", "flex_col")]),
            _ => panic!("Column is a container"),
        },
        None => panic!("Column is built in"),
    }
    match ComponentDef::lookup("Button") {
        Some(d) => match d.kind {
            ComponentKind::Leaf(l) => {
                assert_eq!(l.factory, "::yororen_ui::headless::button::button");
                assert_eq!(l.events, vec![("on_click", "on_click")]);
                assert_eq!(l.props[0].name, "caption");
            },
            _ => panic!("Button is a leaf"),
        },
        None => panic!("Button is built in"),
    }
    assert!(ComponentDef::lookup("button").is_none());
}

#[test]
fn included_file_errors_name_the_file() {
    let err = parse_included("<a>", "inc.xml").unwrap_err();
    assert!(matches!(err.kind, XmlErrorKind::ParseError));
    assert_eq!(err.message, "in included file `inc.xml`");
    let rendered = err.rendered.expect("the diagnostic is pre-rendered");
    assert!(rendered.ends_with("\n  = note: in included file `inc.xml`"));
    assert!(parse_included("<Fragment />", "inc.xml").is_ok());
}

fn never_read(p: String) -> Result<String, String> {
    panic!("nothing should be read, yet `{p}` was")
}

#[test]
fn include_src_errors_come_before_any_read() {
    let err = codegen(r#"<Column><Include /></Column>"#, None, None, &[], &never_read).unwrap_err();
    assert!(matches!(err.kind, XmlErrorKind::UnknownAttribute));
    assert_eq!(err.message, "<Include> requires a `src=\"...\"` attribute");
    let err = codegen(r#"<Column><Include src={path} /></Column>"#, None, None, &[], &never_read).unwrap_err();
    assert!(matches!(err.kind, XmlErrorKind::Unsupported));
    assert_eq!(err.message, "<Include src> requires a string literal, not a brace expression");
}

#[test]
fn include_read_errors_name_the_resolved_path() {
    let read = |p: String| -> Result<String, String> { Err(format!("no such file {p}")) };
    let err = codegen(r#"<Column><Include src="bar.xml" /></Column>"#, None, Some("/proj/src/view.rs"), &[], &read)
        .unwrap_err();
    assert!(matches!(err.kind, XmlErrorKind::ParseError));
    assert_eq!(
        err.message,
        "could not read `bar.xml` (resolved to `/proj/src/bar.xml`): no such file /proj/src/bar.xml"
    );
}

#[test]
fn include_parse_errors_name_the_included_file() {
    let read = |_p: String| -> Result<String, String> { Ok("<Column>".to_string()) };
    let err = codegen(r#"<Column><Include src="bad.xml" /></Column>"#, None, Some("/proj/view.rs"), &[], &read)
        .unwrap_err();
    assert!(matches!(err.kind, XmlErrorKind::ParseError));
    assert_eq!(err.message, "in included file `/proj/bad.xml`");
}

#[test]
fn include_fragment_root_splices_its_children() {
    let read = |p: String| -> Result<String, String> {
        assert_eq!(p, "/proj/parts.xml");
        Ok(r#"<Fragment><Label id="a" text="first" /><Label id="b" text="second" /></Fragment>"#.to_string())
    };
    let (code, paths) = yororen_ui_xml::compile::codegen_with_includes(
        r#"<Column><Include src="parts.xml" /></Column>"#,
        None,
        Some("/proj/view.rs"),
        &[],
        &read,
    )
    .expect("the included fragment compiles");
    assert_eq!(paths, vec!["/proj/parts.xml".to_string()]);
    let first = code.find("first").expect("first label present");
    let second = code.find("second").expect("second label present");
    assert!(first < second);
}

#[test]
fn boolean_props_take_true_or_false_only() {
    assert!(codegen(r#"<Button id="b" disabled="true" />"#, None, None, &[], &no_files).is_ok());
    assert!(codegen(r#"<Button id="b" disabled="false" />"#, None, None, &[], &no_files).is_ok());
    let err = codegen(r#"<Button id="b" disabled="maybe" />"#, None, None, &[], &no_files).unwrap_err();
    assert!(matches!(err.kind, XmlErrorKind::InvalidExpression));
    assert!(err.message.contains("`true`"));
    assert!(err.message.contains("`false`"));
    assert!(err.message.contains("`maybe`"));
}

#[test]
fn rewriting_twice_is_rewriting_once() {
    let inputs = [
        r#"<Column flex gap_3><Button id="b" disabled on_click={move |_, _, _| { if a < b { x() } }} /></Column>"#,
        r#"<Label id='l' text="a \" quoted" muted />"#,
        r#"<!-- a <comment> --><Div p={ {nested} } w=full><?pi ok?></Div>"#,
        r#"<Row on_click={a\}"#,
        "<Div x={unterminated",
    ];
    for input in inputs {
        let once = normalise_bool_attrs(input);
        assert_eq!(normalise_bool_attrs(&once), once, "input: {input}");
    }
}

#[test]
fn rewriting_keeps_every_line() {
    let input = "<Column\n  flex\n  gap={ if a {\n 1 } else { 2 } }>\n<Label id=\"x\" text=\"Type here…\" />\n</Column>\n";
    let out = normalise_bool_attrs(input);
    assert_eq!(out.matches('\n').count(), input.matches('\n').count());
    let plain = r#"<Label id="x" text="Type here…" />"#;
    assert_eq!(normalise_bool_attrs(plain), plain);
}

#[test]
fn interpolation_literals_are_never_empty_or_adjacent() {
    assert!(parse_string_interpolation("no braces").is_none());
    let parts = parse_string_interpolation("a{x}{y}b{unterminated").expect("has a brace");
    for p in &parts {
        if let InterpPart::Literal(t) = p {
            assert!(!t.is_empty());
        }
    }
    for w in parts.windows(2) {
        assert!(!(matches!(w[0], InterpPart::Literal(_)) && matches!(w[1], InterpPart::Literal(_))));
    }
    assert_eq!(parts.len(), 4);
}

#[test]
fn modifiers_gate_or_fail() {
    let body = "f()".to_string();
    assert_eq!(wrap_event_body_with_modifiers(&vec![], body.clone()).unwrap(), "f()");
    assert_eq!(
        wrap_event_body_with_modifiers(&vec!["shift".to_string()], body.clone()).unwrap(),
        "if __ev.modifiers().shift { f() }"
    );
    let err = wrap_event_body_with_modifiers(&vec!["stop".to_string(), "stpo".to_string()], body).unwrap_err();
    assert!(matches!(err.kind, XmlErrorKind::InvalidExpression));
    assert!(err.message.contains("stpo"));
    assert!(err.message.contains("`stop`"));
}

#[test]
fn match_needs_cases() {
    let err = codegen(r#"<Match on={x} />"#, None, None, &[], &no_files).unwrap_err();
    assert!(matches!(err.kind, XmlErrorKind::Unsupported));
    assert!(err.message.contains("at least one"));
    let err = codegen(r#"<Match on={x}><Label id="l" text="a" /></Match>"#, None, None, &[], &no_files).unwrap_err();
    assert!(matches!(err.kind, XmlErrorKind::Unsupported));
    let code = codegen(
        r#"<Match on={x}><Case pattern={1}><Label id="a" text="one" /></Case><Case pattern="_"><Label id="b" text="other" /></Case></Match>"#,
        None,
        None,
        &[],
        &no_files,
    )
    .expect("a match with cases compiles");
    assert!(code.contains("match ("), "{code}");
    assert!(code.contains("_ =>"), "{code}");
}

#[test]
fn templates_are_collected_under_their_names() {
    let root = parse(r#"<Column><Template name="card"><Label id="a" text="x" /></Template><Row><Template name="row"><Div /></Template></Row></Column>"#)
        .expect("parses");
    let t = collect_templates(&root).expect("distinct names");
    assert_eq!(t.len(), 2);
    assert_eq!(t[0].0, "card");
    assert_eq!(t[1].0, "row");
    assert_eq!(t[0].1.tag, "Template");
    let root = parse(r#"<Column><Template name="card"><Div /></Template><Template name="card"><Div /></Template></Column>"#)
        .expect("parses");
    let err = collect_templates(&root).unwrap_err();
    assert!(matches!(err.kind, XmlErrorKind::Unsupported));
    assert!(err.message.contains("duplicate"));
    let root = parse(r#"<Column><Template><Div /></Template></Column>"#).expect("parses");
    let err = collect_templates(&root).unwrap_err();
    assert!(matches!(err.kind, XmlErrorKind::UnknownAttribute));
    assert!(err.message.contains("name"));
}
