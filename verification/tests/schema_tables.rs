use yororen_ui_xml::schema::{builtin_overrides, builtins, lookup_component, ComponentDef, ComponentKind};

#[test]
fn schema_lookup_exposes_leaf_defs_to_runtime() {
    let label = lookup_component("Label", &[]).expect("Label in schema");
    assert!(matches!(label.kind, ComponentKind::Leaf(_)));
    let button = lookup_component("Button", &[]).expect("Button in schema");
    assert!(matches!(button.kind, ComponentKind::Leaf(_)));
}

#[test]
fn hand_written_lookup_is_case_sensitive() {
    assert!(ComponentDef::lookup("Button").is_some());
    assert!(ComponentDef::lookup("button").is_none());
    assert!(lookup_component("VirtualList", &[]).is_some());
    assert!(lookup_component("Nope", &[]).is_none());
}

#[test]
fn tables_hold_the_documented_tags() {
    let b = builtins();
    assert_eq!(b.len(), 17);
    assert_eq!(b[0].tag, "Button");
    let o = builtin_overrides();
    assert_eq!(o.len(), 11);
    assert_eq!(o[10].tag, "UniformVirtualList");
}
