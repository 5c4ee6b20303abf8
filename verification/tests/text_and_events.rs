use yororen_ui_xml::text::{parse_string_interpolation, InterpPart};

#[test]
fn interpolation_preserves_multibyte_utf8_literals() {
    let parts = parse_string_interpolation("Café {count}").expect("has {");
    match &parts[..] {
        [InterpPart::Literal(prefix), InterpPart::Expr(expr)] => {
            assert_eq!(prefix, "Café ");
            assert_eq!(expr, "count");
        }
        other => panic!("unexpected parts: {other:?}"),
    }
}

#[test]
fn interpolation_preserves_cjk_literals() {
    let parts = parse_string_interpolation("你好,{name}!").expect("has {");
    assert!(matches!(&parts[0], InterpPart::Literal(s) if s == "你好,"));
    assert!(matches!(&parts[1], InterpPart::Expr(s) if s == "name"));
    assert!(matches!(&parts[2], InterpPart::Literal(s) if s == "!"));
}

#[test]
fn interpolation_preserves_emoji_literals() {
    let parts = parse_string_interpolation("🦀 {v} 🦀").expect("has {");
    assert!(matches!(&parts[0], InterpPart::Literal(s) if s == "🦀 "));
    assert!(matches!(&parts[1], InterpPart::Expr(s) if s == "v"));
    assert!(matches!(&parts[2], InterpPart::Literal(s) if s == " 🦀"));
}

#[test]
fn interpolation_no_braces_returns_none() {
    assert!(parse_string_interpolation("plain ascii").is_none());
    assert!(parse_string_interpolation("纯中文也没有花括号").is_none());
}

