use proc_macro2::TokenStream;
use yororen_ui_xml::compile::codegen;
use yororen_ui_xml::error::{XmlError, XmlErrorKind};
use yororen_ui_xml::schema::{ComponentDef, ComponentKind, LeafDef, PropDef, PropValue, RenderMode};

fn no_files(p: String) -> Result<String, String> {
    Err(format!("no file `{p}` is readable here"))
}

fn leaf(
    tag: &'static str,
    factory: &'static str,
    props: Vec<PropDef>,
    events: Vec<(&'static str, &'static str)>,
) -> ComponentDef {
    ComponentDef {
        tag,
        kind: ComponentKind::Leaf(LeafDef {
            factory,
            extra_args: vec![],
            render: RenderMode::Default,
            needs_app: true,
            needs_window: false,
            props,
            events,
            supports_text_child: false,
            children_before_render: false,
            unwrap_children: false,
            slots: vec![],
        }),
        doc: "a component of the application",
    }
}

fn app_schema() -> Vec<ComponentDef> {
    vec![
        leaf(
            "Swatch",
            "::app::swatch::swatch",
            vec![PropDef { name: "tone", setter: "tone", value: PropValue::Color }],
            vec![],
        ),
        leaf(
            "Toggle",
            "::app::toggle::toggle",
            vec![PropDef { name: "checked", setter: "checked", value: PropValue::Bool }],
            vec![("on_toggle", "on_toggle")],
        ),
        leaf(
            "Field",
            "::app::field::field",
            vec![PropDef { name: "value", setter: "value", value: PropValue::String }],
            vec![("on_change", "on_change")],
        ),
    ]
}

fn gen(xml: &str) -> Result<String, XmlError> {
    codegen(xml, None, None, &app_schema(), &no_files)
        .map(|s| s.parse::<TokenStream>().expect("generated code lexes").to_string())
}

fn compact(s: &str) -> String {
    s.chars().filter(|c| !c.is_whitespace()).collect()
}

#[test]
fn user_leaf_is_built_by_its_factory() {
    let s = gen(r#"<Swatch id="s" />"#).expect("codegen succeeds");
    assert!(s.contains("app :: swatch :: swatch"), "{s}");
    assert!(s.contains("render"), "{s}");
}

#[test]
fn hex_colour_becomes_rgb() {
    let s = gen(r##"<Swatch id="s" tone="#ff00ff" />"##).expect("codegen succeeds");
    assert!(s.contains("gpui :: rgb (16711935u32)"), "{s}");
}

#[test]
fn hex_colour_with_alpha_becomes_rgba() {
    let s = gen(r##"<Swatch id="s" tone="#ff00ff80" />"##).expect("codegen succeeds");
    assert!(s.contains("gpui :: rgba (4278255488u32)"), "{s}");
}

#[test]
fn colour_brace_expression_passes_through() {
    let s = gen(r#"<Swatch id="s" tone={gpui::hsla(0.5, 1.0, 0.5, 1.0)} />"#).expect("codegen succeeds");
    assert!(s.contains("hsla (0.5 , 1.0 , 0.5 , 1.0)"), "{s}");
}

#[test]
fn bad_hex_colour_is_rejected() {
    let err = gen(r##"<Swatch id="s" tone="#ff00f" />"##).unwrap_err();
    assert!(matches!(err.kind, XmlErrorKind::InvalidExpression), "{err:?}");
}

#[test]
fn bind_reads_the_checked_setter_and_writes_on_toggle() {
    let s = compact(&gen(r#"<Toggle id="x" @bind={self.flag} />"#).expect("codegen succeeds"));
    assert!(s.contains(".checked("), "{s}");
    assert!(s.contains("xml_read"), "{s}");
    assert!(s.contains("on_toggle"), "{s}");
    assert!(s.contains("XmlBinding::<bool>::xml_write"), "{s}");
}

#[test]
fn bind_reads_the_value_setter_and_writes_on_change() {
    let s = compact(&gen(r#"<Field id="x" @bind={self.name} />"#).expect("codegen succeeds"));
    assert!(s.contains(".value("), "{s}");
    assert!(s.contains("xml_read"), "{s}");
    assert!(s.contains("on_change"), "{s}");
    assert!(s.contains("xml_write"), "{s}");
}

#[test]
fn bind_without_braces_is_an_error() {
    let err = gen(r#"<Field id="x" @bind="not_an_expr" />"#).unwrap_err();
    assert!(err.message.contains("@bind"), "{err:?}");
}

#[test]
fn modifier_on_an_unknown_event_is_an_unknown_attribute() {
    let err = gen(r#"<Field id="x" on_key_down.enter={move |_, _, _| {}} />"#).unwrap_err();
    assert!(matches!(err.kind, XmlErrorKind::UnknownAttribute), "{err:?}");
    assert!(err.message.contains("on_key_down.enter"), "{err:?}");
}

#[test]
fn built_in_tags_win_over_the_user_schema() {
    let mut schema = app_schema();
    schema.push(leaf("Label", "::app::label::label", vec![], vec![]));
    let s = codegen(r#"<Label id="l" text="hi" />"#, None, None, &schema, &no_files).expect("codegen succeeds");
    assert!(!s.contains("app::label::label"), "{s}");
}
