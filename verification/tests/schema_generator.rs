use yororen_ui_xml::outline::{extract_source, outline};
use yororen_ui_xml::overrides::{
    apply_overrides, override_to_extracted, parse_prop_value, schema_entries, str_less,
    ContainerOverride, OverrideEntry,
};
use yororen_ui_xml::pipeline::{module_name_of, review_needed, schema_drifted, sort_by_key};
use yororen_ui_xml::render::{
    debug_opt, render_entry, render_extra_args, render_module, render_override, render_pairs,
};
use yororen_ui_xml::schema::{ExtraArgKind, PropValue};
use yororen_ui_xml::schemagen::{
    analyse_factory, classify_arg, extract, pascal_case, snake_case, ArgInfo, ExtraArgInfo,
    Extracted, FnInfo, ItemInfo, PropInfo, RenderKind, SlotInfo, TypeInfo,
};

const BUTTON_SRC: &str = r#"
use gpui::*;

pub struct ButtonProps {
    id: ElementId,
}

pub fn button(id: impl Into<ElementId>, cx: &mut App) -> ButtonProps {
    ButtonProps { id: id.into() }
}

impl ButtonProps {
    pub fn caption(mut self, caption: impl Into<SharedString>) -> Self { self }
    pub fn disabled(mut self, disabled: bool) -> Self { self }
    pub fn clickable(mut self) -> Self { self }
    pub fn on_click(mut self, f: impl Fn(&ClickEvent, &mut Window, &mut App) + 'static) -> Self { self }
    pub fn child(mut self, child: AnyElement) -> Self { self }
    pub fn weird(mut self, w: Foo) -> Self { self }
    pub fn render(self, cx: &mut App, window: &mut Window) -> impl IntoElement { div() }
    fn hidden(mut self, v: bool) -> Self { self }
    pub fn is_disabled(&self) -> bool { true }
    pub fn focus_handle(mut self, h: bool) -> Self { self }
}
"#;

const LABEL_SRC: &str = r#"
pub struct LabelProps;
pub fn label(id: impl Into<ElementId>, text: impl Into<SharedString>, cx: &mut App) -> LabelProps {
    LabelProps
}
impl LabelProps {
    pub fn strong(mut self, strong: bool) -> Self { self }
    pub fn apply(self, el: Div) -> Div { el }
}
"#;

fn path_type(rendered: &str, last: &str) -> TypeInfo {
    TypeInfo {
        rendered: rendered.to_string(),
        path_last: Some(last.to_string()),
        is_reference: false,
        mut_ref_path_last: None,
    }
}

fn other_type(rendered: &str) -> TypeInfo {
    TypeInfo { rendered: rendered.to_string(), path_last: None, is_reference: false, mut_ref_path_last: None }
}

fn typed(ty: TypeInfo, name: &str) -> ArgInfo {
    ArgInfo::Typed { ty, name: Some(name.to_string()) }
}

fn entry(tag: &str, factory: &str) -> Extracted {
    Extracted {
        tag: tag.to_string(),
        factory: factory.to_string(),
        extra_args: vec![],
        needs_app: false,
        needs_window: false,
        render: RenderKind::Default,
        props: vec![],
        events: vec![],
        supports_text_child: false,
        children_before_render: false,
        unwrap_children: false,
        slots: vec![],
        notes: vec![],
    }
}

fn override_for(tag: &str, kind: &str) -> OverrideEntry {
    OverrideEntry {
        tag: tag.to_string(),
        kind: kind.to_string(),
        factory: None,
        container: None,
        control_flow: None,
        supports_text_child: None,
        needs_window: None,
        children_before_render: None,
        unwrap_children: None,
        slots: None,
        props: None,
        events: None,
    }
}

#[test]
fn case_conversions() {
    assert_eq!(pascal_case("text_input"), "TextInput");
    assert_eq!(pascal_case("button"), "Button");
    assert_eq!(pascal_case("a__b_"), "AB");
    assert_eq!(snake_case("TextInput"), "text_input");
    assert_eq!(snake_case("Button"), "button");
}

#[test]
fn classify_arg_by_path_then_by_text() {
    assert_eq!(classify_arg(&path_type("bool", "bool")), PropValue::Bool);
    assert_eq!(classify_arg(&path_type("f32", "f32")), PropValue::Float32);
    assert_eq!(classify_arg(&path_type("usize", "usize")), PropValue::UInt);
    assert_eq!(classify_arg(&path_type("TagKind", "TagKind")), PropValue::Variant);
    assert_eq!(classify_arg(&other_type("impl Into < gpui :: Pixels >")), PropValue::Float32);
    assert_eq!(classify_arg(&other_type("impl Into < Hsla >")), PropValue::Color);
    assert_eq!(classify_arg(&other_type("impl Into < TreeNodeId >")), PropValue::Custom);
    assert_eq!(classify_arg(&other_type("Vec < String >")), PropValue::Custom);
    assert_eq!(classify_arg(&other_type("impl Into < SharedString >")), PropValue::String);
    assert_eq!(classify_arg(&other_type("& str")), PropValue::String);
    assert_eq!(
        classify_arg(&other_type("impl IntoIterator < Item = impl Into < String > >")),
        PropValue::Unknown
    );
    assert_eq!(classify_arg(&path_type("Foo", "Foo")), PropValue::Unknown);
}

#[test]
fn factory_arguments_between_id_and_context() {
    let inputs = vec![
        typed(other_type("impl Into < ElementId >"), "id"),
        typed(other_type("impl Into < SharedString >"), "text"),
        typed(path_type("usize", "usize"), "count"),
        ArgInfo::Typed { ty: other_type("impl Fn (usize) -> AnyElement"), name: None },
        ArgInfo::Typed {
            ty: TypeInfo {
                rendered: "& mut App".to_string(),
                path_last: None,
                is_reference: true,
                mut_ref_path_last: Some("App".to_string()),
            },
            name: Some("cx".to_string()),
        },
    ];
    let (extra, needs_app) = analyse_factory(&inputs);
    assert!(needs_app);
    let got: Vec<(ExtraArgKind, String)> = extra.iter().map(|e| (e.kind, e.attr.clone())).collect();
    assert_eq!(
        got,
        vec![
            (ExtraArgKind::Text, "text".to_string()),
            (ExtraArgKind::UInt, "count".to_string()),
            (ExtraArgKind::Callback, "value".to_string()),
        ]
    );
    let (none, no_app) = analyse_factory(&vec![typed(other_type("& str"), "id")]);
    assert!(none.is_empty());
    assert!(!no_app);
}

#[test]
fn extract_from_an_outline() {
    let items = vec![
        ItemInfo::Fn(FnInfo {
            name: "spacer".to_string(),
            public: true,
            inputs: vec![typed(other_type("impl Into < ElementId >"), "id")],
        }),
        ItemInfo::Struct { name: "SpacerProps".to_string(), public: true },
        ItemInfo::Impl {
            self_name: Some("SpacerProps".to_string()),
            has_trait: false,
            fns: vec![FnInfo {
                name: "grow".to_string(),
                public: true,
                inputs: vec![ArgInfo::Receiver { by_ref: false, mutable: true }],
            }],
        },
    ];
    let e = extract(&items, "spacer", "layout::spacer").expect("an entry");
    assert_eq!(e.tag, "Spacer");
    assert_eq!(e.factory, "::yororen_ui::headless::layout::spacer::spacer");
    assert_eq!(e.render, RenderKind::Compose);
    assert_eq!(e.props.len(), 1);
    assert_eq!(e.props[0].name, "grow");
    assert_eq!(e.props[0].value, PropValue::Flag);
    assert!(e.notes.is_empty());
    // No factory named after the module: no entry.
    assert!(extract(&items, "other", "other").is_none());
    // No `…Props` struct: no entry.
    assert!(extract(&items[..1], "spacer", "spacer").is_none());
}

#[test]
fn extract_source_reads_a_headless_module() {
    let e = extract_source(BUTTON_SRC, "button", "button").expect("an entry");
    assert_eq!(e.tag, "Button");
    assert_eq!(e.factory, "::yororen_ui::headless::button::button");
    assert!(e.extra_args.is_empty());
    assert!(e.needs_app);
    assert!(e.needs_window);
    assert_eq!(e.render, RenderKind::Default);
    let props: Vec<(String, PropValue)> = e.props.iter().map(|p| (p.name.clone(), p.value)).collect();
    assert_eq!(
        props,
        vec![
            ("caption".to_string(), PropValue::String),
            ("disabled".to_string(), PropValue::Bool),
            ("clickable".to_string(), PropValue::Flag),
            ("weird".to_string(), PropValue::Unknown),
        ]
    );
    assert_eq!(e.events, vec![("on_click".to_string(), "on_click".to_string())]);
    assert!(e.supports_text_child);
    assert_eq!(e.notes, vec!["review needed: prop `weird` has unclassified type `Foo`".to_string()]);
}

#[test]
fn extract_source_counts_extra_args() {
    let e = extract_source(LABEL_SRC, "label", "label").expect("an entry");
    assert_eq!(e.render, RenderKind::Apply);
    assert!(!e.needs_window);
    assert_eq!(e.extra_args.len(), 1);
    assert_eq!(e.extra_args[0].kind, ExtraArgKind::Text);
    assert_eq!(e.extra_args[0].attr, "text");
    assert_eq!(e.notes, vec!["extra_args = 1 entries".to_string()]);
}

#[test]
fn extract_source_reports_why_it_skips() {
    let err = extract_source("pub fn broken(", "broken", "broken").unwrap_err();
    assert!(err.starts_with("parse error: "), "{err}");
    assert!(err.len() > "parse error: ".len());
    let err = extract_source("pub fn helper() {}", "helper", "helper").unwrap_err();
    assert_eq!(err, "no factory found");
    assert!(outline("pub fn broken(").is_err());
    assert_eq!(outline(LABEL_SRC).expect("parses").len(), 3);
}

#[test]
fn prop_value_names() {
    assert_eq!(parse_prop_value("Bool"), Some(PropValue::Bool));
    assert_eq!(parse_prop_value("KeybindingInputMode"), Some(PropValue::KeybindingInputMode));
    assert_eq!(parse_prop_value("Custom"), Some(PropValue::Custom));
    assert_eq!(parse_prop_value("bool"), None);
    assert_eq!(parse_prop_value(""), None);
}

#[test]
fn tag_order_is_by_code_point() {
    assert!(str_less("Button", "Label"));
    assert!(!str_less("Label", "Button"));
    assert!(str_less("Tab", "Table"));
    assert!(!str_less("Tab", "Tab"));
    assert!(str_less("Z", "a"));
    assert!(str_less("", "a"));
}

#[test]
fn overrides_keep_the_last_entry_per_tag_in_tag_order() {
    let mut first = entry("Label", "::first");
    first.needs_app = true;
    let entries = vec![entry("Select", "::select"), first, entry("Button", "::button"), entry("Label", "::second")];
    let out = apply_overrides(entries, &[]);
    let tags: Vec<&str> = out.iter().map(|e| e.tag.as_str()).collect();
    assert_eq!(tags, vec!["Button", "Label", "Select"]);
    assert_eq!(out[1].factory, "::second");
    assert!(!out[1].needs_app);
}

#[test]
fn control_flow_overrides_drop_the_extracted_entry() {
    let entries = vec![entry("VirtualList", "::vl"), entry("Button", "::button")];
    let mut cf = override_for("VirtualList", "ControlFlow");
    cf.control_flow = Some("VirtualList".to_string());
    let out = apply_overrides(entries, &[cf]);
    assert_eq!(out.len(), 1);
    assert_eq!(out[0].tag, "Button");
}

#[test]
fn overrides_merge_their_fields() {
    let mut e = entry("ButtonGroup", "::bg");
    e.props = vec![
        PropInfo { name: "child".to_string(), setter: "child".to_string(), value: PropValue::Unknown },
        PropInfo { name: "size".to_string(), setter: "size".to_string(), value: PropValue::Unknown },
        PropInfo { name: "trigger".to_string(), setter: "trigger".to_string(), value: PropValue::Unknown },
    ];
    e.notes = vec![
        "review needed: prop `size` has unclassified type `Size`".to_string(),
        "review needed: prop `other` has unclassified type `X`".to_string(),
        "extra_args = 1 entries".to_string(),
    ];
    e.events = vec![("on_x".to_string(), "on_x".to_string())];
    let mut o = override_for("ButtonGroup", "Leaf");
    o.factory = Some("::custom::group".to_string());
    o.needs_window = Some(true);
    o.supports_text_child = Some(true);
    o.children_before_render = Some(true);
    o.unwrap_children = Some(true);
    o.slots = Some(vec![("trigger".to_string(), "trigger".to_string())]);
    o.props = Some(vec![
        ("size".to_string(), "with_size".to_string(), "Variant".to_string()),
        ("gap".to_string(), "gap".to_string(), "Spacing".to_string()),
        ("bad".to_string(), "bad".to_string(), "NotAKind".to_string()),
    ]);
    o.events = Some(vec![("on_change".to_string(), "on_change".to_string())]);
    let out = apply_overrides(vec![e], &[o]);
    assert_eq!(out.len(), 1);
    let m = &out[0];
    assert_eq!(m.factory, "::custom::group");
    assert!(m.needs_window && m.supports_text_child && m.children_before_render && m.unwrap_children);
    let props: Vec<(&str, &str, PropValue)> =
        m.props.iter().map(|p| (p.name.as_str(), p.setter.as_str(), p.value)).collect();
    assert_eq!(props, vec![("size", "with_size", PropValue::Variant), ("gap", "gap", PropValue::Spacing)]);
    assert_eq!(m.slots.len(), 1);
    assert_eq!((m.slots[0].name.as_str(), m.slots[0].setter.as_str()), ("trigger", "trigger"));
    assert_eq!(m.events, vec![("on_change".to_string(), "on_change".to_string())]);
    assert_eq!(
        m.notes,
        vec!["review needed: prop `other` has unclassified type `X`".to_string(), "extra_args = 1 entries".to_string()]
    );
}

#[test]
fn control_flow_override_becomes_a_marker_entry() {
    let mut cf = override_for("If", "ControlFlow");
    cf.control_flow = Some("If".to_string());
    let marker = override_to_extracted(&cf).expect("a marker");
    assert_eq!(marker.tag, "If");
    assert_eq!(marker.factory, "");
    assert_eq!(marker.notes, vec!["control flow: Some(\"If\")".to_string()]);
    assert!(override_to_extracted(&override_for("Column", "Container")).is_none());
    let bare = override_for("Else", "ControlFlow");
    assert_eq!(override_to_extracted(&bare).expect("a marker").notes, vec!["control flow: None".to_string()]);
}

#[test]
fn schema_entries_add_control_flow_markers_in_order() {
    let mut a = override_for("If", "ControlFlow");
    a.control_flow = Some("If".to_string());
    let mut b = override_for("Fragment", "ControlFlow");
    b.control_flow = Some("Fragment".to_string());
    let mut dup = override_for("If", "ControlFlow");
    dup.control_flow = Some("Else".to_string());
    let out = schema_entries(vec![entry("Label", "::label"), entry("Button", "::button")], &[a, b, dup]);
    let tags: Vec<&str> = out.iter().map(|e| e.tag.as_str()).collect();
    assert_eq!(tags, vec!["Button", "Fragment", "If", "Label"]);
    assert_eq!(out[2].notes, vec!["control flow: Some(\"If\")".to_string()]);
}

#[test]
fn debug_quotes_and_escapes() {
    assert_eq!(
        render_pairs(&[("plain".to_string(), "a\"b".to_string()), ("line\n".to_string(), "x".to_string())]),
        "(\"plain\", \"a\\\"b\"), (\"line\\n\", \"x\"), "
    );
    assert_eq!(debug_opt(&Some("x".to_string())), "Some(\"x\")");
    assert_eq!(debug_opt(&None), "None");
}

#[test]
fn render_entry_writes_a_leaf_def() {
    let mut e = entry("Label", "::yororen_ui::headless::label::label");
    e.extra_args = vec![ExtraArgInfo { kind: ExtraArgKind::Text, attr: "text".to_string() }];
    e.needs_app = true;
    e.props = vec![PropInfo { name: "strong".to_string(), setter: "strong".to_string(), value: PropValue::Bool }];
    e.events = vec![("on_click".to_string(), "on_click".to_string())];
    e.slots = vec![
        SlotInfo { name: "a".to_string(), setter: "set_a".to_string() },
        SlotInfo { name: "b".to_string(), setter: "set_b".to_string() },
    ];
    e.notes = vec!["extra_args = 1 entries".to_string()];
    let expected = [
        "    ComponentDef {\n",
        "        tag: \"Label\",\n",
        "        kind: ComponentKind::Leaf(LeafDef {\n",
        "            factory: \"::yororen_ui::headless::label::label\",\n",
        "            extra_args: &[ExtraArg { kind: ExtraArgKind::Text, attr: \"text\" }, ],\n",
        "            render: RenderMode::Default,\n",
        "            needs_app: true,\n",
        "            needs_window: false,\n",
        "            props: &[PropDef { name: \"strong\", setter: \"strong\", value: PropValue::Bool },\n            ],\n",
        "            events: &[(\"on_click\", \"on_click\"), ],\n",
        "            supports_text_child: false,\n",
        "            children_before_render: false,\n",
        "            unwrap_children: false,\n",
        "            slots: &[SlotDef { name: \"a\", setter: \"set_a\" }, SlotDef { name: \"b\", setter: \"set_b\" }],\n",
        "        }),\n",
        "        doc: \"auto-generated from `headless::label`\",\n",
        "    },\n",
        "    // NOTE: extra_args = 1 entries\n",
    ]
    .concat();
    assert_eq!(render_entry(&e), expected);
    assert_eq!(
        render_extra_args(&[ExtraArgInfo { kind: ExtraArgKind::Borrow, attr: "handle".to_string() }]),
        "ExtraArg { kind: ExtraArgKind::Borrow, attr: \"handle\" }, "
    );
}

#[test]
fn render_override_writes_containers_and_control_flow() {
    let mut c = override_for("Stack", "Container");
    c.container = Some(ContainerOverride { fixed_methods: vec![("col".to_string(), "flex_col".to_string())] });
    let text = render_override(&c).expect("a container");
    assert!(text.starts_with("    ComponentDef {\n            tag: \"Stack\",\n"));
    assert!(text.contains("fixed_methods: &[(\"col\", \"flex_col\"), ],\n"));
    assert!(text.ends_with("            doc: \"from `overrides.toml`\",\n        },\n"));
    let mut cf = override_for("If", "ControlFlow");
    cf.control_flow = Some("If".to_string());
    assert_eq!(
        render_override(&cf).expect("a control flow"),
        "    ComponentDef {\n            tag: \"If\",\n            kind: ComponentKind::ControlFlow(ControlFlowDef::If),\n            doc: \"from `overrides.toml`\",\n        },\n"
    );
    let mut unknown = override_for("Weird", "ControlFlow");
    unknown.control_flow = Some("Loop".to_string());
    assert!(render_override(&unknown).is_none());
    assert!(render_override(&override_for("Button", "Leaf")).is_none());
    assert!(render_override(&override_for("Stack", "Container")).is_none());
}

#[test]
fn render_module_lists_counts_skips_and_entries() {
    let mut cf = override_for("If", "ControlFlow");
    cf.control_flow = Some("If".to_string());
    let entries = vec![entry("Button", "::yororen_ui::headless::button::button"), entry("If", "")];
    let skipped = vec![("modal".to_string(), "no factory found".to_string())];
    let text = render_module(&entries, &skipped, &[cf]);
    assert!(text.contains("//! Last regenerated with: 2 entries (1 from overrides), 1 skipped.\n"));
    assert!(text.contains("//! - `modal`: no factory found\n"));
    assert!(text.contains("tag: \"Button\""));
    assert_eq!(text.matches("ComponentDef {\n").count(), 2);
    assert!(text.ends_with("kind: ComponentKind::ControlFlow(ControlFlowDef::If),\n            doc: \"from `overrides.toml`\",\n        },\n];\n"));
}

#[test]
fn review_notes_block_the_table() {
    let mut e = entry("Button", "::b");
    e.notes = vec!["extra_args = 1 entries".to_string(), "review needed: prop `x` has unclassified type `Y`".to_string()];
    let mut f = entry("Label", "::l");
    f.notes = vec!["review needed: prop `z` has unclassified type `W`".to_string()];
    let r = review_needed(&[e, f, entry("Tag", "::t")]);
    assert_eq!(
        r,
        vec![
            ("Button".to_string(), "review needed: prop `x` has unclassified type `Y`".to_string()),
            ("Label".to_string(), "review needed: prop `z` has unclassified type `W`".to_string()),
        ]
    );
}

#[test]
fn drift_ignores_surrounding_whitespace() {
    assert!(!schema_drifted("  table\n", "table"));
    assert!(schema_drifted("table a", "table b"));
    assert!(!schema_drifted("", "\n"));
}

#[test]
fn modules_are_read_in_path_order() {
    let sorted = sort_by_key(vec![
        ("layout::spacer".to_string(), 1),
        ("button".to_string(), 2),
        ("layout::column".to_string(), 3),
        ("button".to_string(), 4),
    ]);
    let keys: Vec<(&str, i32)> = sorted.iter().map(|(k, v)| (k.as_str(), *v)).collect();
    assert_eq!(keys, vec![("button", 2), ("button", 4), ("layout::column", 3), ("layout::spacer", 1)]);
    assert_eq!(module_name_of("layout::column"), "column");
    assert_eq!(module_name_of("button"), "button");
}

#[test]
fn outline_reads_items_fully() {
    let src = r#"
pub struct FooProps { a: u8 }
struct Hidden;
pub fn foo(id: impl Into<ElementId>, cx: &mut App) -> FooProps { todo() }
impl FooProps {
    pub fn tone(mut self, x: &mut Theme, _: u8) -> Self { self }
    fn private(&self) {}
    const LIMIT: u8 = 3;
}
impl Default for FooProps { fn default() -> Self { todo() } }
impl <Vec<u8> as IntoIterator>::Item { fn odd() {} }
"#;
    let items = outline(src).expect("parses");
    assert_eq!(items.len(), 6);
    match &items[0] {
        ItemInfo::Struct { name, public } => {
            assert_eq!(name, "FooProps");
            assert!(*public);
        },
        other => panic!("a struct, got {other:?}"),
    }
    match &items[1] {
        ItemInfo::Struct { name, public } => {
            assert_eq!(name, "Hidden");
            assert!(!*public);
        },
        other => panic!("a struct, got {other:?}"),
    }
    match &items[2] {
        ItemInfo::Fn(f) => {
            assert_eq!(f.name, "foo");
            assert!(f.public);
            assert_eq!(f.inputs.len(), 2);
            match &f.inputs[1] {
                ArgInfo::Typed { ty, name } => {
                    assert_eq!(name.as_deref(), Some("cx"));
                    assert!(ty.is_reference);
                    assert_eq!(ty.mut_ref_path_last.as_deref(), Some("App"));
                    assert_eq!(ty.rendered, "& mut App");
                },
                other => panic!("a typed input, got {other:?}"),
            }
        },
        other => panic!("a function, got {other:?}"),
    }
    match &items[3] {
        ItemInfo::Impl { self_name, has_trait, fns } => {
            assert_eq!(self_name.as_deref(), Some("FooProps"));
            assert!(!*has_trait);
            assert_eq!(fns.len(), 2);
            assert_eq!(fns[0].name, "tone");
            assert!(fns[0].public);
            assert!(matches!(fns[0].inputs[0], ArgInfo::Receiver { by_ref: false, mutable: true }));
            match &fns[0].inputs[2] {
                ArgInfo::Typed { ty, name } => {
                    assert_eq!(*name, None);
                    assert_eq!(ty.path_last.as_deref(), Some("u8"));
                    assert!(!ty.is_reference);
                },
                other => panic!("a typed input, got {other:?}"),
            }
            assert!(!fns[1].public);
            assert!(matches!(fns[1].inputs[0], ArgInfo::Receiver { by_ref: true, mutable: false }));
        },
        other => panic!("an impl block, got {other:?}"),
    }
    match &items[4] {
        ItemInfo::Impl { self_name, has_trait, .. } => {
            assert_eq!(self_name.as_deref(), Some("FooProps"));
            assert!(*has_trait);
        },
        other => panic!("an impl block, got {other:?}"),
    }
    match &items[5] {
        ItemInfo::Impl { self_name, .. } => assert_eq!(*self_name, None),
        other => panic!("an impl block, got {other:?}"),
    }
}
