use yororen_ui_xml::normalise::normalise_bool_attrs;
use yororen_ui_xml::parser::{line_starts, strip_brace_expression};
use yororen_ui_xml::xmldoc::parse_roxmltree_offset;

#[test]
fn normalise_bare_attrs() {
    let s = normalise_bool_attrs(r#"<Column flex col gap="3" />"#);
    assert_eq!(s, r#"<Column flex="true" col="true" gap="3" />"#);
}

#[test]
fn leaves_quoted_attrs_untouched() {
    let s = normalise_bool_attrs(r#"<Label text="hello" />"#);
    assert_eq!(s, r#"<Label text="hello" />"#);
}

#[test]
fn wraps_brace_expressions() {
    let s = normalise_bool_attrs(r#"<Label text={value} />"#);
    assert_eq!(s, r#"<Label text="{value}" />"#);
}

#[test]
fn escapes_inner_quotes_in_brace_expressions() {
    let s = normalise_bool_attrs(r#"<Label text={format!("hi {}", name)} />"#);
    assert_eq!(s, r#"<Label text="{format!(&quot;hi {}&quot;, name)}" />"#);
}

#[test]
fn escapes_xml_specials_in_brace_expressions() {
    let s = normalise_bool_attrs(r#"<Label text={if a < b { c } else { d }} />"#);
    assert_eq!(s, r#"<Label text="{if a &lt; b { c } else { d }}" />"#);

    let s2 = normalise_bool_attrs(r#"<Label text={x & 0xFF} />"#);
    assert_eq!(s2, r#"<Label text="{x &amp; 0xFF}" />"#);
}

#[test]
fn leaves_text_content_alone() {
    let s = normalise_bool_attrs(r#"<Button>Click me</Button>"#);
    assert_eq!(s, r#"<Button>Click me</Button>"#);
}

#[test]
fn handles_brace_with_closure() {
    let s = normalise_bool_attrs(
        r#"<Button on_click={move |_, _, cx| { x.update(cx, |v, _| *v += 1); }} />"#,
    );
    let expected = r#"<Button on_click="{move |_, _, cx| { x.update(cx, |v, _| *v += 1); }}" />"#;
    assert_eq!(s, expected);
}

#[test]
fn strips_brace_expression_with_quotes() {
    let (expr, raw) = strip_brace_expression(r#""{count.to_string()}""#);
    assert_eq!(expr.as_deref(), Some("count.to_string()"));
    assert_eq!(raw, r#""{count.to_string()}""#);
}

#[test]
fn strips_brace_expression_decodes_xml_entities() {
    let (expr, _raw) = strip_brace_expression(r#""{format!(&quot;hi {name}&quot;)}""#);
    assert_eq!(expr.as_deref(), Some(r#"format!("hi {name}")"#));

    let (expr, _raw) = strip_brace_expression(r#""{x &amp; 0xFF}""#);
    assert_eq!(expr.as_deref(), Some("x & 0xFF"));
    let (expr, _raw) = strip_brace_expression(r#""{if a &lt; b { 1 } else { 0 }}""#);
    assert_eq!(expr.as_deref(), Some("if a < b { 1 } else { 0 }"));
}

#[test]
fn line_starts_table_works() {
    let starts = line_starts("a\nb\nc");
    assert_eq!(starts, vec![0, 2, 4]);
    assert_eq!(line_starts("hello"), vec![0]);
    assert_eq!(line_starts(""), vec![0]);
}

#[test]
fn location_tracker_snippet() {
    let xml = "<Column>\n    <BadTag />\n</Column>";
    let starts = line_starts(xml);
    let loc = yororen_ui_xml::location::LocationTracker { line_starts: &starts, xml };
    let (line, _col) = loc.line_col(20);
    assert_eq!(line, 2);
    let snippet = loc.snippet(20);
    assert!(snippet.contains("<BadTag"), "{snippet}");
    assert!(snippet.contains('^'), "{snippet}");
}

#[test]
fn snippet_points_a_caret_at_the_column() {
    let xml = "<A>\n  <B />  \n</A>";
    let starts = line_starts(xml);
    let loc = yororen_ui_xml::location::LocationTracker { line_starts: &starts, xml };
    assert_eq!(loc.line_col(6), (2, 3));
    assert_eq!(loc.snippet(6), "  <B />\n  ^");
}

#[test]
fn parse_builds_the_tree_with_offsets() {
    let root = yororen_ui_xml::xmldoc::parse("<Column gap=\"3\">\n  <Label text={x} />\n  hi\n</Column>")
        .expect("parses");
    assert_eq!(root.tag, "Column");
    assert_eq!(root.byte_offset, 0);
    assert_eq!(root.attributes.len(), 1);
    assert_eq!(root.attributes[0].name, "gap");
    assert_eq!(root.attributes[0].raw, "3");
    assert!(root.attributes[0].expr.is_none());
    assert_eq!(root.children.len(), 2);
    match &root.children[0] {
        yororen_ui_xml::ast::AstNode::Element(l) => {
            assert_eq!(l.tag, "Label");
            assert_eq!(l.attributes[0].expr.as_deref(), Some("x"));
        }
        _ => panic!("expected an element"),
    }
    match &root.children[1] {
        yororen_ui_xml::ast::AstNode::Text { text, .. } => assert_eq!(text, "hi"),
        _ => panic!("expected text"),
    }
}

#[test]
fn parse_reports_malformed_xml() {
    let err = yororen_ui_xml::xmldoc::parse("<Column><Label></Column>").unwrap_err();
    assert!(matches!(err.kind, yororen_ui_xml::error::XmlErrorKind::ParseError));
    assert_eq!(err.offset, Some(0));
}

#[test]
fn roxmltree_offset_reads_line_and_column_hints() {
    assert_eq!(parse_roxmltree_offset("bad thing at line 2, column 3.", "ab\ncdef\n"), Some(5));
    assert_eq!(parse_roxmltree_offset("bad thing at 2:3", "ab\ncdef\n"), None);
    assert_eq!(parse_roxmltree_offset("x at line 9, column 1;", "ab\ncd"), Some(3));
}
