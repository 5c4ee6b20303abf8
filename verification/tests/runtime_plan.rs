use yororen_ui_xml::ast::AstElement;
use yororen_ui_xml::runtime::{
    attr_bool, attr_heading_level, attr_opt_bool, attr_present, attr_str, attr_variant,
    container_steps, plan_leaf, runtime_target, ActionVariant, LayoutStep, RuntimeLeaf,
    RuntimeTarget,
};
use yororen_ui_xml::xmldoc::parse;

fn element(xml: &str) -> AstElement {
    parse(xml).expect("parses")
}

#[test]
fn literal_attribute_readers() {
    let e = element(r#"<Button caption="Save" disabled="false" clickable variant="danger" level="H3" odd="yes" />"#);
    assert!(attr_present(&e, "caption"));
    assert!(!attr_present(&e, "missing"));
    assert_eq!(attr_str(&e, "caption").as_deref(), Some("Save"));
    assert_eq!(attr_str(&e, "missing"), None);
    assert_eq!(attr_opt_bool(&e, "disabled"), Some(false));
    assert_eq!(attr_opt_bool(&e, "clickable"), Some(true));
    assert_eq!(attr_opt_bool(&e, "odd"), None);
    assert!(attr_bool(&e, "clickable"));
    assert!(!attr_bool(&e, "disabled"));
    assert!(!attr_bool(&e, "missing"));
    assert_eq!(attr_variant(&e, "variant"), Some(ActionVariant::Danger));
    assert_eq!(attr_variant(&e, "odd"), None);
    assert_eq!(attr_heading_level(&e, "level"), Some(3));
    assert_eq!(attr_heading_level(&e, "odd"), None);
}

#[test]
fn label_plan_takes_text_and_flags() {
    let e = element(r#"<Label id="greeting" text="Hello" strong mono="false" wrap />"#);
    match plan_leaf(&e, &[]).expect("a label") {
        RuntimeLeaf::Label { id, text, strong, muted, mono, inherit_color, ellipsis, wrap } => {
            assert_eq!(id, "greeting");
            assert_eq!(text, "Hello");
            assert!(strong && wrap);
            assert!(!muted && !mono && !inherit_color && !ellipsis);
        }
        other => panic!("unexpected plan {other:?}"),
    }
}

#[test]
fn button_plan_collects_ignored_events() {
    let e = element(r#"<Button caption="Go" variant="primary" disabled="true" on_click={go} />"#);
    match plan_leaf(&e, &["on_click", "on_hover"]).expect("a button") {
        RuntimeLeaf::Button { id, caption, variant, disabled, clickable, ignored_events } => {
            assert_eq!(id, "Button-runtime");
            assert_eq!(caption.as_deref(), Some("Go"));
            assert_eq!(variant, Some(ActionVariant::Primary));
            assert_eq!(disabled, Some(true));
            assert!(!clickable);
            assert_eq!(ignored_events, vec!["on_click".to_string()]);
        }
        other => panic!("unexpected plan {other:?}"),
    }
}

#[test]
fn heading_and_list_item_plans() {
    let h = element(r#"<Heading text="Title" />"#);
    match plan_leaf(&h, &[]).expect("a heading") {
        RuntimeLeaf::Heading { id, level, text } => {
            assert_eq!(id, "Heading-runtime");
            assert_eq!(level, 1);
            assert_eq!(text, "Title");
        }
        other => panic!("unexpected plan {other:?}"),
    }
    let li = element(r#"<ListItem id="row" title="First" selected="true" />"#);
    match plan_leaf(&li, &[]).expect("a list item") {
        RuntimeLeaf::ListItem { id, title, selected, disabled, ignored_events } => {
            assert_eq!(id, "row");
            assert_eq!(title, "First");
            assert_eq!(selected, Some(true));
            assert_eq!(disabled, None);
            assert!(ignored_events.is_empty());
        }
        other => panic!("unexpected plan {other:?}"),
    }
}

#[test]
fn other_leaves_are_refused_at_runtime() {
    let e = element(r#"<Checkbox />"#);
    assert_eq!(
        plan_leaf(&e, &[]).unwrap_err(),
        "runtime rendering for built-in leaf <Checkbox> is not yet implemented"
    );
}

#[test]
fn container_shorthands_in_attribute_order() {
    let e = element(r#"<Column items_center gap="3" col w_full="false" hidden overflow_hidden={x} />"#);
    assert_eq!(container_steps(&e), vec![LayoutStep::ItemsCenter, LayoutStep::Col, LayoutStep::Hidden]);
}

#[test]
fn runtime_targets() {
    assert!(matches!(runtime_target(&element("<Stack />")), RuntimeTarget::Container));
    assert!(matches!(runtime_target(&element("<Label />")), RuntimeTarget::Leaf { .. }));
    match runtime_target(&element(r#"<Chart id="c1" />"#)) {
        RuntimeTarget::Custom { id } => assert_eq!(id, "c1"),
        other => panic!("unexpected target {other:?}"),
    }
    match runtime_target(&element("<Chart />")) {
        RuntimeTarget::Custom { id } => assert_eq!(id, ""),
        other => panic!("unexpected target {other:?}"),
    }
}
