//! Code generation for leaves whose entries the schema generator writes
//! from the headless component modules; the entries these tests need
//! are given here as a user schema.
use proc_macro2::{Span, TokenStream};
use yororen_ui_xml::error::{XmlError, XmlErrorKind};
use yororen_ui_xml::schema::{
    ComponentDef, ComponentKind, ExtraArg, ExtraArgKind, LeafDef, PropDef, PropValue, RenderMode,
};

fn no_files(p: String) -> Result<String, String> {
    Err(format!("no file `{p}` is readable here"))
}

fn leaf(
    tag: &'static str,
    factory: &'static str,
    extra_args: Vec<ExtraArg>,
    needs_app: bool,
    props: Vec<PropDef>,
    events: Vec<(&'static str, &'static str)>,
) -> ComponentDef {
    ComponentDef {
        tag,
        kind: ComponentKind::Leaf(LeafDef {
            factory,
            extra_args,
            render: RenderMode::Default,
            needs_app,
            needs_window: false,
            props,
            events,
            supports_text_child: false,
            children_before_render: false,
            unwrap_children: false,
            slots: vec![],
        }),
        doc: "a headless component",
    }
}

fn prop(name: &'static str, value: PropValue) -> PropDef {
    PropDef { name, setter: name, value }
}

fn headless_schema() -> Vec<ComponentDef> {
    vec![
        leaf(
            "TextInput",
            "::yororen_ui::headless::text_input::text_input",
            vec![],
            false,
            vec![prop("placeholder", PropValue::String), prop("value", PropValue::String)],
            vec![("on_change", "on_change")],
        ),
        leaf(
            "Checkbox",
            "::yororen_ui::headless::checkbox::checkbox",
            vec![],
            true,
            vec![prop("checked", PropValue::Bool)],
            vec![("on_toggle", "on_toggle")],
        ),
        leaf(
            "Switch",
            "::yororen_ui::headless::switch::switch",
            vec![],
            true,
            vec![prop("checked", PropValue::Bool), prop("custom_tone", PropValue::Color)],
            vec![("on_toggle", "on_toggle")],
        ),
        leaf(
            "TreeItem",
            "::yororen_ui::headless::tree_item::tree_item",
            vec![
                ExtraArg { kind: ExtraArgKind::Custom, attr: "node_id" },
                ExtraArg { kind: ExtraArgKind::Text, attr: "label" },
            ],
            true,
            vec![],
            vec![("on_toggle", "on_toggle")],
        ),
    ]
}

fn codegen(
    xml: &str,
    _span: Span,
    cx: Option<TokenStream>,
    source_file: Option<&str>,
    user: &[ComponentDef],
) -> Result<TokenStream, XmlError> {
    let mut schema = headless_schema();
    schema.extend(user.iter().cloned());
    let cx = cx.map(|t| t.to_string());
    yororen_ui_xml::compile::codegen(xml, cx.as_deref(), source_file, &schema, &no_files)
        .map(|s| s.parse::<TokenStream>().expect("generated code lexes"))
}

fn render(xml: &str) -> String {
    let ts = codegen(xml, Span::call_site(), None, None, &[]).expect("codegen succeeds");
    ts.to_string()
}

#[test]
fn codegen_event_modifier_unknown_base_event_is_an_error() {
    let xml = r#"<TextInput id="x" on_key_down.enter={move |_, _, _| {}} />"#;
    let err = codegen(xml, Span::call_site(), None, None, &[]).unwrap_err();
    assert!(matches!(err.kind, XmlErrorKind::UnknownAttribute));
    assert!(err.message.contains("on_key_down.enter"));
}

#[test]
fn tests_event_modifier_unknown_base_event_is_an_error() {
    let xml = r#"<TextInput id="x" on_key_down.enter={move |_, _, _| {}} />"#;
    let err = codegen(xml, Span::call_site(), None, None, &[]).unwrap_err();
    assert!(matches!(err.kind, XmlErrorKind::UnknownAttribute));
    assert!(err.message.contains("on_key_down.enter"));
}

#[test]
fn tree_item_on_toggle_uses_click_event_signature() {
    let xml = r#"<TreeItem id="x" node_id="x" label="x" on_toggle={controller.handle_toggle} />"#;
    let ts = codegen(xml, Span::call_site(), None, None, &[]).expect("codegen ok");
    let s = ts.to_string();
    assert!(s.contains("on_toggle"), "{s}");
    assert!(s.contains("__ev : & gpui :: ClickEvent"), "{s}");
    assert!(!s.contains("__arg0 : bool"), "{s}");
}

#[test]
fn codegen_checkbox_codegen_routes_to_generated_schema() {
    let s = render(r#"<Checkbox id="agree" checked="true" on_toggle={move |v, _, _, _| { let _ = v; }} />"#);
    assert!(s.contains("headless :: checkbox :: checkbox"), "{s}");
    assert!(s.contains("checked (true)"), "{s}");
    assert!(s.contains("on_toggle"), "{s}");
}

#[test]
fn tests_checkbox_codegen_routes_to_generated_schema() {
    let s = render(r#"<Checkbox id="agree" checked="true" on_toggle={move |v, _, _, _| { let _ = v; }} />"#);
    assert!(s.contains("headless :: checkbox :: checkbox"), "{s}");
    assert!(s.contains("checked (true)"), "{s}");
    assert!(s.contains("on_toggle"), "{s}");
}

#[test]
fn codegen_text_input_codegen_uses_generated_schema() {
    let s = render(r#"<TextInput id="name" placeholder="Your name" on_change={move |v, _, _| { let _ = v; }} />"#);
    assert!(s.contains("headless :: text_input :: text_input"), "{s}");
    assert!(!s.contains("text_input ((\"name\") . to_string () , cx)"), "{s}");
    assert!(s.contains("text_input ((\"name\") . to_string ())"), "{s}");
    assert!(s.contains("on_change"), "{s}");
}

#[test]
fn tests_text_input_codegen_uses_generated_schema() {
    let s = render(r#"<TextInput id="name" placeholder="Your name" on_change={move |v, _, _| { let _ = v; }} />"#);
    assert!(s.contains("headless :: text_input :: text_input"), "{s}");
    assert!(!s.contains("text_input ((\"name\") . to_string () , cx)"), "{s}");
    assert!(s.contains("text_input ((\"name\") . to_string ())"), "{s}");
    assert!(s.contains("on_change"), "{s}");
}

#[test]
fn codegen_bind_attribute_on_text_input() {
    let s = render(r#"<TextInput id="x" @bind={self.name} placeholder="Name" />"#);
    let compact: String = s.chars().filter(|c| !c.is_whitespace()).collect();
    assert!(compact.contains("placeholder"), "{s}");
    assert!(compact.contains("xml_read"), "{s}");
    assert!(compact.contains("xml_write"), "{s}");
    assert!(compact.contains("on_change"), "{s}");
}

#[test]
fn tests_bind_attribute_on_text_input() {
    let s = render(r#"<TextInput id="x" @bind={self.name} placeholder="Name" />"#);
    let compact: String = s.chars().filter(|c| !c.is_whitespace()).collect();
    assert!(compact.contains("placeholder"), "{s}");
    assert!(compact.contains("xml_read"), "{s}");
    assert!(compact.contains("xml_write"), "{s}");
    assert!(compact.contains("on_change"), "{s}");
}

#[test]
fn codegen_bind_attribute_emits_value_read_for_components_with_value_setter() {
    let s = render(r#"<Checkbox id="x" @bind={self.flag} />"#);
    let compact: String = s.chars().filter(|c| !c.is_whitespace()).collect();
    assert!(compact.contains("xml_read"), "{s}");
    assert!(compact.contains("xml_write"), "{s}");
    assert!(compact.contains("on_toggle"), "{s}");
}

#[test]
fn tests_bind_attribute_emits_value_read_for_components_with_value_setter() {
    let s = render(r#"<Checkbox id="x" @bind={self.flag} />"#);
    let compact: String = s.chars().filter(|c| !c.is_whitespace()).collect();
    assert!(compact.contains("xml_read"), "{s}");
    assert!(compact.contains("xml_write"), "{s}");
    assert!(compact.contains("on_toggle"), "{s}");
}

#[test]
fn codegen_bind_on_text_input_emits_value_setter() {
    let s = render(r#"<TextInput id="x" @bind={self.name} />"#);
    let compact: String = s.chars().filter(|c| !c.is_whitespace()).collect();
    assert!(compact.contains("xml_read"), "{s}");
    assert!(compact.contains(".value("), "{s}");
    assert!(compact.contains("xml_write"), "{s}");
}

#[test]
fn codegen_bind_attribute_without_braces_errors() {
    let err = codegen(r#"<TextInput id="x" @bind="not_an_expr" placeholder="…" />"#, Span::call_site(), None, None, &[])
        .unwrap_err();
    assert!(err.message.contains("@bind"), "{err:?}");
}

#[test]
fn tests_bind_attribute_without_braces_errors() {
    let err = codegen(r#"<TextInput id="x" @bind="not_an_expr" placeholder="…" />"#, Span::call_site(), None, None, &[])
        .unwrap_err();
    assert!(err.message.contains("@bind"), "{err:?}");
}

#[test]
fn codegen_color_prop_hex_rgb() {
    let s = render(r##"<Switch id="s" custom_tone="#ff00ff" />"##);
    assert!(s.contains("gpui :: rgb (16711935u32)"), "hex #ff00ff should become gpui::rgb(0xff00ff); got {s}");
}

#[test]
fn tests_color_prop_hex_rgb() {
    let s = render(r##"<Switch id="s" custom_tone="#ff00ff" />"##);
    assert!(s.contains("gpui :: rgb (16711935u32)"), "hex #ff00ff should become gpui::rgb(0xff00ff); got {s}");
}

#[test]
fn codegen_color_prop_hex_rgba() {
    let s = render(r##"<Switch id="s" custom_tone="#ff00ff80" />"##);
    assert!(s.contains("gpui :: rgba (4278255488u32)"), "hex #ff00ff80 should become gpui::rgba; got {s}");
}

#[test]
fn tests_color_prop_hex_rgba() {
    let s = render(r##"<Switch id="s" custom_tone="#ff00ff80" />"##);
    assert!(s.contains("gpui :: rgba (4278255488u32)"), "hex #ff00ff80 should become gpui::rgba; got {s}");
}

#[test]
fn codegen_color_prop_brace_expression_passes_through() {
    let s = render(r#"<Switch id="s" custom_tone={gpui::hsla(0.5, 1.0, 0.5, 1.0)} />"#);
    assert!(s.contains("hsla (0.5 , 1.0 , 0.5 , 1.0)"), "brace colour expression should pass through; got {s}");
}

#[test]
fn tests_color_prop_brace_expression_passes_through() {
    let s = render(r#"<Switch id="s" custom_tone={gpui::hsla(0.5, 1.0, 0.5, 1.0)} />"#);
    assert!(s.contains("hsla (0.5 , 1.0 , 0.5 , 1.0)"), "brace colour expression should pass through; got {s}");
}
