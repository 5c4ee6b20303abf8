use yororen_ui_xml::compile::codegen;
use yororen_ui_xml::events::split_event_modifiers;
use yororen_ui_xml::overrides::schema_entries;
use yororen_ui_xml::emit::ts;
use yororen_ui_xml::handlers::auto_wrap_closure_expr;
use yororen_ui_xml::schemagen::{Extracted, RenderKind};
use yororen_ui_xml::templates::collect_templates;
use yororen_ui_xml::text::{parse_string_interpolation, InterpPart};
use yororen_ui_xml::xmldoc::parse;
use yororen_ui_xml::diagnostics::edit_distance;
use yororen_ui_xml::diagnostics::did_you_mean;
use yororen_ui_xml::schemagen::{pascal_case, snake_case};
use yororen_ui_xml::overrides::parse_prop_value;
use yororen_ui_xml::schema::PropValue;
use yororen_ui_xml::normalise::normalise_bool_attrs;
use yororen_ui_xml::parser::strip_brace_expression;

fn never_read(p: String) -> Result<String, String> {
    panic!("no include was expected, yet `{p}` was read")
}

fn entry(tag: &str, factory: &str) -> Extracted {
    Extracted {
        tag: tag.to_string(),
        factory: factory.to_string(),
        extra_args: vec![],
        needs_app: true,
        needs_window: false,
        render: RenderKind::Default,
        props: vec![],
        events: vec![],
        supports_text_child: false,
        children_before_render: false,
        unwrap_children: false,
        slots: vec![],
        notes: vec![],
    }
}

#[test]
fn interpolation_parts_reassemble_the_text() {
    let text = "Count: {count} of {total}!";
    let parts = parse_string_interpolation(text).expect("has interpolation");
    let mut back = String::new();
    for p in &parts {
        match p {
            InterpPart::Literal(l) => back.push_str(l),
            InterpPart::Expr(e) => {
                back.push('{');
                back.push_str(e);
                back.push('}');
            }
        }
    }
    assert_eq!(back, text);
    assert_eq!(parts.len(), 5);
}

#[test]
fn event_modifiers_split_and_rejoin() {
    let (base, mods) = split_event_modifiers("on_click.stop.prevent").expect("has modifiers");
    assert_eq!(base, "on_click");
    assert_eq!(mods, vec!["stop".to_string(), "prevent".to_string()]);
    assert_eq!(format!("{base}.{}", mods.join(".")), "on_click.stop.prevent");
    assert!(split_event_modifiers("on_click").is_none());
}

#[test]
fn collected_template_names_are_distinct() {
    let root = parse(
        r#"<Column><Template name="A"><Div/></Template><Row><Template name="B"><Div/></Template></Row></Column>"#,
    )
    .expect("parses");
    let table = collect_templates(&root).expect("templates collected");
    let names: Vec<&str> = table.iter().map(|(n, _)| n.as_str()).collect();
    assert_eq!(names, vec!["A", "B"]);
    let dup = parse(r#"<Column><Template name="A"><Div/></Template><Template name="A"><Row/></Template></Column>"#)
        .expect("parses");
    assert!(collect_templates(&dup).is_err());
}

#[test]
fn include_free_xml_reads_no_file() {
    let s = codegen(r#"<Column col><Label id="l" text="x" /></Column>"#, None, None, &[], &never_read)
        .expect("codegen succeeds");
    assert!(s.contains("flex_col"), "{s}");
}

#[test]
fn includes_splice_the_included_file() {
    let read = |p: String| -> Result<String, String> {
        if p == "/proj/src/ui/header.xml" {
            Ok(r#"<Label id="h" text="From the header" />"#.to_string())
        } else {
            Err(format!("missing {p}"))
        }
    };
    let s = codegen(
        r#"<Column><Include src="ui/header.xml" /></Column>"#,
        None,
        Some("/proj/src/view.rs"),
        &[],
        &read,
    )
    .expect("codegen succeeds");
    assert!(s.contains("From the header"), "{s}");
    let err = codegen(r#"<Column><Include src="ui/none.xml" /></Column>"#, None, Some("/proj/src/view.rs"), &[], &read)
        .unwrap_err();
    assert!(err.message.contains("ui/none.xml"), "{err:?}");
}

#[test]
fn cyclic_include_is_an_error() {
    let read = |p: String| -> Result<String, String> {
        if p == "/proj/a.xml" {
            Ok(r#"<Column><Include src="a.xml" /></Column>"#.to_string())
        } else {
            Err(format!("missing {p}"))
        }
    };
    let err = codegen(r#"<Column><Include src="a.xml" /></Column>"#, None, Some("/proj/view.rs"), &[], &read)
        .unwrap_err();
    assert!(err.message.contains("cyclic <Include> detected"), "{err:?}");
    assert!(err.message.contains("/proj/a.xml"), "{err:?}");
}

#[test]
fn lexer_accepts_tokens_and_reports_errors() {
    assert_eq!(ts("a + b * (c - 1)", 0, "expression").expect("lexes"), "a + b * (c - 1)\n");
    let err = ts("(a", 7, "expression").unwrap_err();
    assert!(err.message.starts_with("could not parse expression `(a`: "), "{err:?}");
    assert!(err.message.len() > "could not parse expression `(a`: ".len(), "{err:?}");
    assert_eq!(err.offset, Some(7));
}

#[test]
fn expression_shapes_decide_the_closure_wrapping() {
    let raw = |s: &str| Some(s.to_string());
    // A bare path is wrapped into a closure that forwards the arguments.
    let w = auto_wrap_closure_expr(&raw("controller.increment"), "controller.increment".to_string(), "__a", "__a");
    assert_ne!(w, "controller.increment");
    assert!(w.contains("__a"), "{w}");
    // A closure is passed through unchanged.
    let c = auto_wrap_closure_expr(&raw("|x| x + 1"), "|x| x + 1".to_string(), "__a", "__a");
    assert_eq!(c, "|x| x + 1");
    // A call expression is passed through too.
    let k = auto_wrap_closure_expr(&raw("make_handler(1)"), "make_handler(1)".to_string(), "__a", "__a");
    assert_eq!(k, "make_handler(1)");
}

#[test]
fn generated_table_does_not_depend_on_reading_order() {
    let a = schema_entries(vec![entry("Label", "::l"), entry("Button", "::b"), entry("Tag", "::t")], &[]);
    let b = schema_entries(vec![entry("Tag", "::t"), entry("Label", "::l"), entry("Button", "::b")], &[]);
    let ta: Vec<(&str, &str)> = a.iter().map(|e| (e.tag.as_str(), e.factory.as_str())).collect();
    let tb: Vec<(&str, &str)> = b.iter().map(|e| (e.tag.as_str(), e.factory.as_str())).collect();
    assert_eq!(ta, tb);
    assert_eq!(ta, vec![("Button", "::b"), ("Label", "::l"), ("Tag", "::t")]);
}

#[test]
fn nested_includes_are_all_expanded() {
    let read = |p: String| -> Result<String, String> {
        match p.as_str() {
            "/proj/outer.xml" => Ok(r#"<Fragment><Row><Include src="inner.xml" /></Row><Label id="o" text="Outer" /></Fragment>"#.to_string()),
            "/proj/inner.xml" => Ok(r#"<Label id="i" text="Inner" />"#.to_string()),
            _ => Err(format!("missing {p}")),
        }
    };
    let (code, paths) = yororen_ui_xml::compile::codegen_with_includes(
        r#"<Column><Include src="outer.xml" /></Column>"#,
        None,
        Some("/proj/view.rs"),
        &[],
        &read,
    )
    .expect("codegen succeeds");
    assert!(code.contains("Outer") && code.contains("Inner"), "{code}");
    assert!(!code.contains("Include"), "{code}");
    assert_eq!(paths, vec!["/proj/outer.xml".to_string(), "/proj/inner.xml".to_string()]);
}

#[test]
fn every_include_reads_its_resolved_path_in_order() {
    let read = |p: String| -> Result<String, String> {
        match p.as_str() {
            "/proj/a.xml" => Ok(r#"<Label id="a" text="First" />"#.to_string()),
            "/proj/sub/b.xml" => Ok(r#"<Fragment><Label id="b" text="Second" /></Fragment>"#.to_string()),
            _ => Err(format!("missing {p}")),
        }
    };
    let (code, paths) = yororen_ui_xml::compile::codegen_with_includes(
        r#"<Column><Include src="a.xml" /><Row><Include src="sub/b.xml" /></Row></Column>"#,
        None,
        Some("/proj/view.rs"),
        &[],
        &read,
    )
    .expect("codegen succeeds");
    assert!(code.contains("First") && code.contains("Second"), "{code}");
    assert_eq!(paths, vec!["/proj/a.xml".to_string(), "/proj/sub/b.xml".to_string()]);
    let err = codegen(
        r#"<Column><Include src="a.xml" /><Include src="gone.xml" /></Column>"#,
        None,
        Some("/proj/view.rs"),
        &[],
        &read,
    )
    .unwrap_err();
    assert_eq!(err.message, "could not read `gone.xml` (resolved to `/proj/gone.xml`): missing /proj/gone.xml");
}

#[test]
fn include_cycle_is_found_by_path_components() {
    let read = |p: String| -> Result<String, String> {
        match p.as_str() {
            "/proj/a.xml" | "/proj/./a.xml" => Ok(r#"<Column><Include src="b.xml" /></Column>"#.to_string()),
            "/proj/b.xml" => Ok(r#"<Row><Include src="./a.xml" /></Row>"#.to_string()),
            _ => Err(format!("missing {p}")),
        }
    };
    let err = codegen(r#"<Column><Include src="a.xml" /></Column>"#, None, Some("/proj/view.rs"), &[], &read)
        .unwrap_err();
    assert_eq!(err.message, "cyclic <Include> detected: `/proj/./a.xml` is already being included");
}

#[test]
fn edit_distance_is_symmetric_and_bounded() {
    assert_eq!(edit_distance("kitten", "sitting"), 3);
    assert_eq!(edit_distance("sitting", "kitten"), 3);
    assert_eq!(edit_distance("on_clik", "on_click"), 1);
    assert_eq!(edit_distance("abc", ""), 3);
    assert_eq!(edit_distance("", "abcd"), 4);
    let d = edit_distance("flex", "gap_x");
    assert!(1 <= d && d <= 5, "{d}");
}

#[test]
fn did_you_mean_takes_the_first_closest_candidate() {
    assert_eq!(did_you_mean("flx", &["id", "flex", "col"]), Some("flex"));
    // Two candidates at the same distance: the first one listed wins.
    assert_eq!(did_you_mean("colr", &["color", "cols"]), Some("color"));
    assert_eq!(did_you_mean("zzzzzz", &["id", "flex"]), None);
}

#[test]
fn snake_case_undoes_pascal_case() {
    for name in ["button", "text_input", "icon_button2", "a_b_c"] {
        assert_eq!(snake_case(&pascal_case(name)), name);
    }
    assert_eq!(pascal_case("text_input"), "TextInput");
}

#[test]
fn prop_value_names_read_back() {
    assert!(matches!(parse_prop_value("Float64"), Some(PropValue::Float64)));
    assert!(matches!(parse_prop_value("Float32"), Some(PropValue::Float32)));
    assert!(matches!(parse_prop_value("Color"), Some(PropValue::Color)));
    assert!(matches!(parse_prop_value("KeybindingInputMode"), Some(PropValue::KeybindingInputMode)));
    assert!(parse_prop_value("PropValue::Color").is_none());
}

#[test]
fn stripping_undoes_the_brace_wrapping() {
    let out = normalise_bool_attrs(r#"<T a={if x < 1 && y > "q" { 'c' } else { 'd' }} />"#);
    let start = out.find("a=").expect("attribute kept") + 2;
    let end = out.rfind(" />").expect("tag end kept");
    let value = &out[start..end];
    assert!(value.starts_with("\"{") && value.ends_with("}\""), "{value}");
    let (expr, original) = strip_brace_expression(value);
    assert_eq!(original, value);
    assert_eq!(expr.as_deref(), Some(r#"if x < 1 && y > "q" { 'c' } else { 'd' }"#));
}

#[test]
fn text_outside_tags_is_copied_verbatim() {
    let plain = "no tags here — just text & more\nsecond line";
    assert_eq!(normalise_bool_attrs(plain), plain);
    assert_eq!(normalise_bool_attrs("before <A b /> after"), "before <A b=\"true\" /> after");
}

#[test]
fn templates_are_collected_at_any_depth() {
    let nested = parse(r#"<Column><Row><Template name="A"><Div/></Template></Row><Template name="B"><Div/></Template></Column>"#)
        .expect("parses");
    let t = collect_templates(&nested).expect("collects");
    let names: Vec<&str> = t.iter().map(|(n, _)| n.as_str()).collect();
    assert_eq!(names, vec!["A", "B"]);
    let dup_deep = parse(r#"<Column><Row><Template name="A"><Div/></Template></Row><Template name="A"><Row/></Template></Column>"#)
        .expect("parses");
    let err = collect_templates(&dup_deep).unwrap_err();
    assert!(err.message.contains("duplicate"), "{err:?}");
    let nameless = parse(r#"<Column><Row><Template><Div/></Template></Row></Column>"#).expect("parses");
    let err = collect_templates(&nameless).unwrap_err();
    assert!(err.message.contains("name"), "{err:?}");
}
