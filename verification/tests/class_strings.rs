use yororen_ui_xml::class::{
    layout_class_to_tokens, parse_class_string, parse_length, Inset, LayoutClass, Length, Spacing,
};

#[test]
fn parses_fixed_classes() {
    let r = parse_class_string("flex flex-col items-center w-full").unwrap();
    assert_eq!(
        r,
        vec![LayoutClass::Flex, LayoutClass::FlexCol, LayoutClass::ItemsCenter, LayoutClass::WFull]
    );
}

#[test]
fn parses_value_classes() {
    let r = parse_class_string("gap-md p-sm px-3 m-lg").unwrap();
    assert_eq!(r.len(), 4);
    assert_eq!(r[0], LayoutClass::Gap(Spacing::Md));
    assert_eq!(r[1], LayoutClass::P(Inset::Sm));
    match &r[2] {
        LayoutClass::Px(Spacing::Px(n)) => assert_eq!(n.parse::<f32>().unwrap(), 3.0),
        other => panic!("unexpected {other:?}"),
    }
    assert_eq!(r[3], LayoutClass::M(Inset::Lg));
}

#[test]
fn unknown_token_is_error() {
    let err = parse_class_string("flex totally-made-up").unwrap_err();
    assert_eq!(err.render().contains("totally-made-up"), true);
    assert_eq!(err.token, "totally-made-up");
}

#[test]
fn mixed_whitespace() {
    let r = parse_class_string("  flex   gap-md  ").unwrap();
    assert_eq!(r, vec![LayoutClass::Flex, LayoutClass::Gap(Spacing::Md)]);
}

#[test]
fn spacing_with_px_suffix_and_bad_values() {
    let r = parse_class_string("gap-3px py-xxl").unwrap();
    assert_eq!(r[0], LayoutClass::Gap(Spacing::Px("3".to_string())));
    assert_eq!(r[1], LayoutClass::Py(Spacing::Xxl));
    let err = parse_class_string("gap-abcpx").unwrap_err();
    assert_eq!(err.token, "abcpxpx");
    assert!(err.message.contains("before `px`"));
    let err = parse_class_string("p-huge").unwrap_err();
    assert_eq!(err.token, "huge");
    let err = parse_class_string("mx-xxl").unwrap_err();
    assert_eq!(err.token, "xxl");
}

#[test]
fn class_error_renders_token_and_message() {
    let err = parse_class_string("zzz").unwrap_err();
    assert_eq!(
        err.render(),
        "unknown class `zzz`: no matching class. Use `flex`, `gap-md`, `p-4`, etc. (see `layout-system-plan.md` §4.1)"
    );
}

#[test]
fn class_tokens_are_fully_qualified() {
    let p = "::yororen_ui::headless::layout::LayoutClass";
    assert_eq!(
        layout_class_to_tokens(&LayoutClass::Flex, p),
        "::yororen_ui::headless::layout::LayoutClass::Flex"
    );
    assert_eq!(
        layout_class_to_tokens(&LayoutClass::Gap(Spacing::Md), p),
        "::yororen_ui::headless::layout::LayoutClass::Gap(::yororen_ui::headless::layout::Spacing::Md)"
    );
    assert_eq!(
        layout_class_to_tokens(&LayoutClass::M(Inset::Px("4".to_string())), p),
        "::yororen_ui::headless::layout::LayoutClass::M(::yororen_ui::headless::layout::Inset::Px(4.0f32))"
    );
}

#[test]
fn length_keywords() {
    assert_eq!(parse_length("full").unwrap(), Length::Full);
    assert_eq!(parse_length("fit").unwrap(), Length::Fit);
    assert_eq!(parse_length("auto").unwrap(), Length::Auto);
    assert_eq!(parse_length("wide").unwrap_err().token, "wide");
}
