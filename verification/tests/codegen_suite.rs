use proc_macro2::{Span, TokenStream};
use std::path::PathBuf;
use yororen_ui_xml::error::XmlError;
use yororen_ui_xml::events::{is_known_key_filter, split_event_modifiers};
use yororen_ui_xml::location::LocationTracker;
use yororen_ui_xml::schema::ComponentDef;

fn no_files(p: String) -> Result<String, String> {
    Err(format!("no file `{p}` is readable in this test"))
}

fn codegen(
    xml: &str,
    _span: Span,
    cx: Option<TokenStream>,
    source_file: Option<&str>,
    user: &[ComponentDef],
) -> Result<TokenStream, XmlError> {
    let cx = cx.map(|t| t.to_string());
    yororen_ui_xml::compile::codegen(xml, cx.as_deref(), source_file, user, &no_files)
        .map(|s| s.parse::<TokenStream>().expect("generated code lexes"))
}

fn render(xml: &str) -> String {
    let ts = codegen(xml, Span::call_site(), None, None, &[]).expect("codegen succeeds");
    ts.to_string()
}

fn resolve_include_path(path: &str, source_file: Option<&str>) -> Result<PathBuf, XmlError> {
    Ok(PathBuf::from(yororen_ui_xml::includes::resolve_include_path(path, source_file)))
}

fn wrap_event_body_with_modifiers(
    mods: &[&str],
    inner: TokenStream,
    _span: Span,
) -> Result<TokenStream, XmlError> {
    let mods: Vec<String> = mods.iter().map(|m| m.to_string()).collect();
    yororen_ui_xml::handlers::wrap_event_body_with_modifiers(&mods, inner.to_string())
        .map(|s| s.parse::<TokenStream>().expect("wrapped body lexes"))
}

#[test]
fn tests_empty_column() {
    let s = render(r#"<Column col />"#);
    // Must start with `gpui::div()` and contain `flex_col`.
    assert!(s.contains("gpui :: div ()"), "{s}");
    assert!(s.contains("flex_col"), "{s}");
}

#[test]
fn tests_column_with_gap_and_padding() {
    let s = render(r#"<Column flex col gap="3" p="4" />"#);
    assert!(s.contains("flex"), "{s}");
    assert!(s.contains("flex_col"), "{s}");
    assert!(s.contains("gap_3"), "{s}");
    assert!(s.contains("p_4"), "{s}");
}

#[test]
fn tests_label_with_text_attribute() {
    let s = render(r#"<Label id="title" text="Hello" strong="true" />"#);
    assert!(s.contains("headless :: label :: label"), "{s}");
    assert!(s.contains("\"title\""), "{s}");
    assert!(s.contains("\"Hello\""), "{s}");
    assert!(s.contains("strong (true)"), "{s}");
}

#[test]
fn tests_label_with_brace_expression() {
    let s = render(r#"<Label id="title" text={value} />"#);
    assert!(s.contains("value"), "{s}");
}

#[test]
fn tests_button_with_on_click_closure() {
    let s = render(r#"<Button id="inc" caption="+" on_click={move |_, _, cx| { x += 1; }} />"#);
    assert!(s.contains("headless :: button :: button"), "{s}");
    assert!(s.contains("caption ((\"+\") . to_string ())"), "{s}");
    assert!(s.contains("on_click"), "{s}");
    assert!(s.contains("x += 1"), "{s}");
}

#[test]
fn tests_button_with_variant() {
    let s = render(r#"<Button id="save" variant="primary" />"#);
    assert!(s.contains("ActionVariantKind :: Primary"), "{s}");
}

#[test]
fn tests_nested_row_inside_column() {
    let s = render(
        r#"<Column flex col>
    <Label id="a" text="A" />
    <Row flex row>
        <Button id="b" caption="B" />
        <Button id="c" caption="C" />
    </Row>
</Column>"#,
    );
    // Child wiring now uses fully-qualified
    // `::gpui::ParentElement::child(__el, ...)`, so we
    // look for the method name rather than the dotted
    // syntax.
    let normalised: String = s.chars().filter(|c| !c.is_whitespace()).collect();
    assert!(normalised.contains("child"), "{normalised}");
    // Two `child` calls inside the column for label/row,
    // then two more inside the row.
    assert_eq!(normalised.matches("child").count(), 4, "{normalised}");
}

#[test]
fn tests_if_without_else() {
    let s = render(r#"<Column><If condition={show}><Label id="x" text="hi" /></If></Column>"#);
    assert!(s.contains("if"), "{s}");
    assert!(s.contains("show"), "{s}");
}

#[test]
fn tests_if_else_chain() {
    // If/ElseIf/Else are siblings — each is a separate
    // block. The codegen stitches them into a Rust
    // `if/else if/else` chain.
    let s = render(
        r#"<Column>
    <If condition={a}>
        <Label id="x" text="A" />
    </If>
    <ElseIf condition={b}>
        <Label id="y" text="B" />
    </ElseIf>
    <Else>
        <Label id="z" text="C" />
    </Else>
</Column>"#,
    );
    assert!(s.contains("if"), "{s}");
    assert!(s.contains("else if"), "{s}");
    assert!(s.contains("else"), "{s}");
}

#[test]
fn tests_for_loop_with_item() {
    let s = render(
        r#"<Column>
    <For each={items} let:item>
        <Label id="i" text={item.name} />
    </For>
</Column>"#,
    );
    assert!(s.contains("iter ()"), "{s}");
    assert!(s.contains("items"), "{s}");
    // The loop variable is the `let:item` name.
    let normalised: String = s.chars().filter(|c| !c.is_whitespace()).collect();
    assert!(normalised.contains("foritem"), "{normalised}");
}

#[test]
fn for_loop_with_custom_item_name() {
    // `let:item={name}` must read the identifier from the
    // de-braced expression, not from the quoted raw value.
    let s = render(
        r#"<Column>
    <For each={items} let:item={name}>
        <Label id="i" text={name.clone()} />
    </For>
</Column>"#,
    );
    let normalised: String = s.chars().filter(|c| !c.is_whitespace()).collect();
    assert!(
        normalised.contains("forname"),
        "loop variable should be `name`; got {normalised}"
    );
    assert!(
        normalised.contains("name.clone"),
        "body should reference `name`; got {normalised}"
    );
}

#[test]
fn for_loop_with_custom_index_name() {
    // `let:index={idx}` must bind the user's chosen name,
    // not silently fall back to `i`.
    let s = render(
        r#"<Column>
    <For each={items} let:item={name} let:index={idx}>
        <Label id="i" text={format!("{}-{}", name, idx)} />
    </For>
</Column>"#,
    );
    let normalised: String = s.chars().filter(|c| !c.is_whitespace()).collect();
    assert!(
        normalised.contains("letidx=__i"),
        "index binding should use `idx`; got {normalised}"
    );
}

#[test]
fn tests_for_loop_with_key_wraps_rows_in_keyed_div() {
    // When `<For key={item.id}>` is supplied, each row
    // gets a fresh wrapper `<Div id=format!("for_row_{key}")>`
    // so the row has a stable `ElementId` across reorders.
    // Without this, gpui's per-row `TextInputState` (keyed
    // by ElementId) would be lost when the user mutates
    // the underlying list (e.g. reorders or inserts).
    let s = render(
        r#"<Column>
    <For each={todos} let:item key={item.id}>
        <Checkbox id="cb" @bind={item.done} />
    </For>
</Column>"#,
    );
    // The wrapper div is present and uses the key
    // expression in its id.
    let normalised: String = s.chars().filter(|c| !c.is_whitespace()).collect();
    assert!(
        normalised.contains("for_row_"),
        "row wrapper should use `for_row_{{}}` id format; got {normalised}"
    );
    // The key expression itself must be in the output
    // (we splice `item.id` into the format! call).
    assert!(
        normalised.contains("item.id"),
        "key expression must be spliced into the wrapper id; got {normalised}"
    );
}

#[test]
fn tests_for_loop_without_key_does_not_emit_keyed_wrapper() {
    // The legacy `<For each={xs} let:item>` (no key)
    // path doesn't pay the per-row `format!` cost — the
    // row wrapper is a plain `gpui::div()`. This keeps
    // existing showcase XMLs compiling unchanged.
    let s = render(
        r#"<Column>
    <For each={items} let:item>
        <Label id="l" text={item.name} />
    </For>
</Column>"#,
    );
    let normalised: String = s.chars().filter(|c| !c.is_whitespace()).collect();
    assert!(
        !normalised.contains("for_row_"),
        "unkeyed <For> must not emit a keyed wrapper; got {normalised}"
    );
}

#[test]
fn tests_for_loop_key_must_be_brace_expression() {
    // A bare `key="…"` is an error — keys must be
    // expressions so they're per-iteration, not static.
    let err = codegen(
        r#"<Column>
    <For each={items} let:item key="static">
        <Label id="l" text="x" />
    </For>
</Column>"#,
        Span::call_site(),
        None,
        None,
        &[],
    )
    .unwrap_err();
    assert!(err.message.contains("key"), "{}", err.message);
}

#[test]
fn for_loop_each_must_be_brace_expression() {
    // `<For each="literal">` is rejected — `each` is the
    // loop source and has to be a runtime expression so
    // the iterator is re-evaluated each frame.
    let err = codegen(
        r#"<Column>
    <For each="vec![1, 2, 3]" let:item>
        <Label id="l" text={item} />
    </For>
</Column>"#,
        Span::call_site(),
        None,
        None,
        &[],
    )
    .unwrap_err();
    assert!(err.message.contains("brace expression"), "{}", err.message);
}

#[test]
fn container_flag_with_non_true_literal_is_an_error() {
    // `<Div flex_grow="false">` previously compiled to
    // `__el.flex_grow(__el, "false")` — a confusing
    // "too many arguments" rustc error. Now it's a
    // clear XML-layer diagnostic.
    let err = codegen(
        r#"<Column flex_grow="false" />"#,
        Span::call_site(),
        None,
        None,
        &[],
    )
    .unwrap_err();
    assert!(err.message.contains("flag"), "{}", err.message);
    assert!(err.message.contains("flex_grow"), "{}", err.message);
    assert!(
        err.offset.is_some(),
        "flag error should carry byte_offset; got {:?}",
        err.offset
    );
}

#[test]
fn container_spacing_with_bad_suffix_carries_offset() {
    // `<Div gap="999">` (invalid suffix) must surface a
    // diagnostic with `at line N, column M:` rather than
    // the single-line fallback.
    let err = codegen(
        r#"<Column gap="999" />"#,
        Span::call_site(),
        None,
        None,
        &[],
    )
    .unwrap_err();
    assert!(err.message.contains("invalid spacing suffix"), "{}", err.message);
    assert!(
        err.offset.is_some(),
        "spacing suffix error should carry byte_offset; got {:?}",
        err.offset
    );
}

#[test]
fn tests_unknown_tag_falls_through_to_runtime_registry() {
    // Unknown tags used to be a hard error; with the
    // runtime registry (`register_xml_component!`)
    // they now compile and resolve at runtime via
    // `runtime::render_or_empty`. The codegen must
    // emit a call into the runtime module rather
    // than erroring.
    let ts =
        codegen(r#"<MyWidget id="x" />"#, Span::call_site(), None, None, &[]).expect("codegen ok");
    let s = ts.to_string();
    assert!(s.contains("render_or_empty"), "{s}");
    assert!(s.contains("\"MyWidget\""), "{s}");
}

#[test]
fn tests_unknown_tag_without_id_is_still_an_error() {
    // The runtime registry needs an `id` to call
    // the factory — the codegen still validates
    // this even on the runtime path.
    let err = codegen("<MyWidget />", Span::call_site(), None, None, &[]).unwrap_err();
    assert!(
        matches!(err.kind, yororen_ui_xml::error::XmlErrorKind::UnknownAttribute),
        "{err:?}"
    );
    assert!(err.message.contains("runtime-registered"));
}

#[test]
fn tests_unknown_attribute_on_leaf_is_an_error() {
    let err = codegen(
        r#"<Label id="x" text="hi" href="bad" />"#,
        Span::call_site(),
        None,
        None,
        &[],
    )
    .unwrap_err();
    assert!(
        matches!(err.kind, yororen_ui_xml::error::XmlErrorKind::UnknownAttribute),
        "{err:?}"
    );
}

#[test]
fn tests_unknown_attribute_on_container_is_an_error() {
    let err = codegen(
        r#"<Column flex hover="red" />"#,
        Span::call_site(),
        None,
        None,
        &[],
    )
    .unwrap_err();
    assert!(
        matches!(err.kind, yororen_ui_xml::error::XmlErrorKind::UnknownAttribute),
        "{err:?}"
    );
}

#[test]
fn tests_missing_id_on_leaf_is_an_error() {
    let err = codegen(r#"<Label text="hi" />"#, Span::call_site(), None, None, &[]).unwrap_err();
    assert!(
        matches!(err.kind, yororen_ui_xml::error::XmlErrorKind::UnknownAttribute),
        "{err:?}"
    );
    assert!(err.message.contains("id"));
}

#[test]
fn tests_missing_id_is_a_helpful_message() {
    let err = codegen(
        r#"<Button caption="Save" />"#,
        Span::call_site(),
        None,
        None,
        &[],
    )
    .unwrap_err();
    assert!(err.message.contains("Button"), "{err:?}");
}

#[test]
fn tests_bad_bool_value_errors() {
    let err = codegen(
        r#"<Label id="x" text="hi" strong="maybe" />"#,
        Span::call_site(),
        None,
        None,
        &[],
    )
    .unwrap_err();
    assert!(
        err.message.contains("true") || err.message.contains("false"),
        "{err:?}"
    );
}

#[test]
fn tests_bad_variant_value_errors() {
    let err = codegen(
        r#"<Button id="x" variant="catastrophic" />"#,
        Span::call_site(),
        None,
        None,
        &[],
    )
    .unwrap_err();
    assert!(
        err.message.contains("primary")
            || err.message.contains("neutral")
            || err.message.contains("danger"),
        "{err:?}"
    );
}

#[test]
fn tests_xml_parse_error_propagates() {
    let err = codegen("<Column>", Span::call_site(), None, None, &[]).unwrap_err();
    assert!(
        matches!(err.kind, yororen_ui_xml::error::XmlErrorKind::ParseError),
        "{err:?}"
    );
}

#[test]
fn tests_diagnostic_carries_byte_offset_and_snippet() {
    // The `<UnknownTag>` on line 3 used to error,
    // but now it falls through to the runtime
    // registry. To still exercise the diagnostic
    // machinery we use a bad attribute value
    // (`variant="catastrophic"`) on a known tag —
    // that produces an `InvalidExpression` error
    // pointing at the offending attribute.
    let xml = "<Column>\n  <Label id=\"a\" text=\"hi\" />\n  <Button id=\"x\" variant=\"catastrophic\" />\n</Column>";
    let err = codegen(xml, Span::call_site(), None, None, &[]).unwrap_err();
    assert!(
        matches!(err.kind, yororen_ui_xml::error::XmlErrorKind::InvalidExpression),
        "{err:?}"
    );
    assert!(err.offset.is_some(), "error should carry a byte offset");

    // Render the error with a location tracker and
    // assert the multi-line format.
    let line_starts = yororen_ui_xml::parser::line_starts(xml);
    let loc = LocationTracker {
        line_starts: &line_starts,
        xml,
    };
    let rendered = err.render_with(Some(&loc));
    assert!(rendered.contains("line 3"), "{rendered}");
    assert!(rendered.contains("variant"), "{rendered}");
    assert!(rendered.contains('^'), "{rendered}");
}

#[test]
fn tests_diagnostic_render_without_location_falls_back() {
    // When no LocationTracker is provided the
    // diagnostic must still be useful.
    let err = codegen(
        r#"<Label id="x" text="hi" href="bad" />"#,
        Span::call_site(),
        None,
        None,
        &[],
    )
    .unwrap_err();
    let rendered = err.render_with(None);
    assert!(rendered.contains("href"), "{rendered}");
}

#[test]
fn tests_bad_bool_value_is_a_useful_diagnostic() {
    // Booleans must be `true` / `false`; anything else
    // is a hard error pointing at the offending attr.
    let err = codegen(
        r#"<Label id="x" text="hi" strong="maybe" />"#,
        Span::call_site(),
        None,
        None,
        &[],
    )
    .unwrap_err();
    assert!(err.offset.is_some(), "bad-bool error should carry offset");
    let line_starts = yororen_ui_xml::parser::line_starts(r#"<Label id="x" text="hi" strong="maybe" />"#);
    let loc = LocationTracker {
        line_starts: &line_starts,
        xml: r#"<Label id="x" text="hi" strong="maybe" />"#,
    };
    let rendered = err.render_with(Some(&loc));
    assert!(
        rendered.contains("true") && rendered.contains("false"),
        "{rendered}"
    );
}

#[test]
fn tests_split_event_modifiers_recognises_dot_suffixes() {
    // Single modifier.
    let (base, mods) = split_event_modifiers("on_key_down.enter").unwrap();
    assert_eq!(base, "on_key_down");
    assert_eq!(mods, vec!["enter"]);
    // Multiple chained modifiers.
    let (base, mods) = split_event_modifiers("on_key_down.ctrl.enter").unwrap();
    assert_eq!(base, "on_key_down");
    assert_eq!(mods, vec!["ctrl", "enter"]);
    // No modifier.
    assert!(split_event_modifiers("on_click").is_none());
    // Malformed names are rejected (no spurious `.`).
    assert!(split_event_modifiers("on_click.").is_none());
    assert!(split_event_modifiers("on_click..enter").is_none());
}

#[test]
fn tests_event_modifier_emits_keystroke_filter_for_known_keys() {
    // Test the helper directly — the schema doesn't
    // currently register `on_key_down` as a built-in
    // event, but the body generator should still
    // produce the right shape around an inner call.
    let inner_call: TokenStream =
        syn::parse_str("__inner(__ev, __window, cx)").expect("parse inner call");
    let body = wrap_event_body_with_modifiers(&["enter"], inner_call, Span::call_site())
        .expect("wrap with .enter");
    let s = body.to_string();
    assert!(s.contains("keystroke"), "{s}");
    assert!(s.contains("enter"), "{s}");
}

#[test]
fn tests_event_modifier_chains_multiple_filters() {
    // Two modifiers wrap the inner call — the call is
    // reached only when both gates pass. `ctrl` uses
    // `__ev.modifiers().control` and `enter` uses
    // `__ev.keystroke().key`; the body contains both
    // accessors.
    let inner_call: TokenStream =
        syn::parse_str("__inner(__ev, __window, cx)").expect("parse inner call");
    let body = wrap_event_body_with_modifiers(&["ctrl", "enter"], inner_call, Span::call_site())
        .expect("wrap with .ctrl.enter");
    let s = body.to_string();
    // The outer modifier check is `modifiers().control`.
    assert!(s.contains("modifiers"), "{s}");
    assert!(s.contains("control"), "{s}");
    // The inner key check is `keystroke().key == "enter"`.
    assert!(s.contains("keystroke"), "{s}");
    assert!(s.contains("enter"), "{s}");
}

#[test]
fn tests_event_modifier_stop_emits_stop_propagation() {
    // `.stop` must call `cx.stop_propagation()` so the
    // gpui dispatcher skips ancestor handlers for the
    // same event. Verify the body contains the exact
    // API call.
    let inner_call: TokenStream =
        syn::parse_str("__inner(__ev, __window, cx)").expect("parse inner call");
    let body = wrap_event_body_with_modifiers(&["stop"], inner_call, Span::call_site())
        .expect("wrap .stop");
    let s = body.to_string();
    assert!(s.contains("stop_propagation"), "{s}");
}

#[test]
fn tests_event_modifier_prevent_emits_window_prevent_default() {
    // `.prevent` must call `window.prevent_default()`
    // (a `Window` method) — the closure receives the
    // window as its 2nd arg, so we splice that.
    let inner_call: TokenStream =
        syn::parse_str("__inner(__ev, __window, cx)").expect("parse inner call");
    let body = wrap_event_body_with_modifiers(&["prevent"], inner_call, Span::call_site())
        .expect("wrap .prevent");
    let s = body.to_string();
    assert!(s.contains("prevent_default"), "{s}");
    assert!(s.contains("__window"), "{s}");
}

#[test]
fn tests_event_modifier_shift_uses_modifiers_accessor() {
    // `.shift` should gate on `Modifiers::shift`, not on
    // a (non-existent) keystroke key called "shift".
    // This is the bug the audit fixed: previously
    // `.shift` was treated as a keyboard filter and
    // checked `keystroke().key == "shift"` which never
    // fires.
    let inner_call: TokenStream =
        syn::parse_str("__inner(__ev, __window, cx)").expect("parse inner call");
    let body = wrap_event_body_with_modifiers(&["shift"], inner_call, Span::call_site())
        .expect("wrap .shift");
    let s = body.to_string();
    // The wrapper reads `modifiers().shift`, not a
    // keystroke comparison.
    assert!(s.contains("modifiers"), "{s}");
    assert!(s.contains("shift"), "{s}");
    assert!(
        !s.contains("\"shift\""),
        ".shift must not compile to a key-string compare; got {s}"
    );
}

#[test]
fn tests_event_modifier_alt_and_meta_alias_platform() {
    // `.alt` reads `modifiers().alt`. `.meta` is
    // accepted as a Windows/Linux-friendly alias for
    // `.platform` (the macOS Command key) — both
    // splice to the same `Modifiers::platform` field.
    let inner_call: TokenStream =
        syn::parse_str("__inner(__ev, __window, cx)").expect("parse inner call");
    for mod_name in ["alt", "meta", "platform", "cmd"] {
        let body =
            wrap_event_body_with_modifiers(&[mod_name], inner_call.clone(), Span::call_site())
                .unwrap_or_else(|e| panic!("wrap .{mod_name}: {e:?}"));
        let s = body.to_string();
        assert!(
            s.contains("modifiers"),
            ".{mod_name} should splice modifiers() access; got {s}"
        );
    }
}

#[test]
fn tests_event_modifier_known_keys_list_includes_arrows_and_fkeys() {
    // Spot-check the well-known key set: arrow keys,
    // F-keys, and navigation keys.
    for k in [
        "enter", "escape", "tab", "up", "down", "f12", "home", "end", "pageup",
    ] {
        assert!(is_known_key_filter(k), "{k} should be a known key");
    }
    // Garbage keys are rejected.
    assert!(!is_known_key_filter("garbage"));
    assert!(!is_known_key_filter("return"));
}

#[test]
fn tests_event_modifier_unknown_modifier_is_an_error() {
    // A typo'd modifier (`.stpo` instead of `.stop`)
    // must surface a clear compile error rather than
    // silently never firing.
    let inner_call: TokenStream =
        syn::parse_str("__inner(__ev, __window, cx)").expect("parse inner call");
    let err = wrap_event_body_with_modifiers(&["stpo"], inner_call, Span::call_site())
        .expect_err("unknown modifier should error");
    assert!(err.message.contains("stpo"), "{}", err.message);
    assert!(err.message.contains("`stop`"), "{}", err.message);
}


#[test]
fn tests_event_bare_path_is_auto_wrapped_into_closure() {
    // `<Button on_click={controller.increment}>` is
    // a bare path expression — the codegen auto-wraps
    // it into a closure that adapts the standard
    // 3-arg event signature to the user's method.
    let xml = r#"<Button id="x" caption="+" on_click={controller.increment} />"#;
    let ts = codegen(xml, Span::call_site(), None, None, &[]).expect("codegen ok");
    let s = ts.to_string();
    // The pre-cloned receiver is captured by the
    // closure; the method call uses it (not the
    // original `controller`).
    assert!(s.contains("move"), "{s}");
    assert!(s.contains("__auto_clone"), "{s}");
    assert!(s.contains(". increment"), "{s}");
    assert!(s.contains("__arg0"), "{s}");
    assert!(s.contains("__w"), "{s}");
    assert!(s.contains("__cx"), "{s}");
}

#[test]
fn tests_event_auto_wrap_pre_clones_receiver() {
    // For `controller.method`, the codegen emits
    // `let __auto_clone_N = (controller).clone();`
    // BEFORE the closure, so each handler captures
    // its own clone and the original `controller`
    // can be used by the next handler.
    let xml = r#"<Button id="x" caption="x" on_click={controller.handle} />"#;
    let ts = codegen(xml, Span::call_site(), None, None, &[]).expect("codegen ok");
    let s = ts.to_string();
    assert!(s.contains("(controller) . clone"), "{s}");
    // Two separate clone idents would mean two
    // closures sharing the controller — but for a
    // single button we just need one.
    assert!(s.contains("__auto_clone"), "{s}");
}

#[test]
fn tests_event_multiple_auto_wraps_have_distinct_clone_idents() {
    // Two buttons, each referencing `controller.x`
    // and `controller.y`, must each get their own
    // pre-cloned receiver (otherwise the second
    // closure sees a moved `controller`).
    let xml = r#"
            <Column>
                <Button id="a" caption="a" on_click={controller.handle_a} />
                <Button id="b" caption="b" on_click={controller.handle_b} />
            </Column>
        "#;
    let ts = codegen(xml, Span::call_site(), None, None, &[]).expect("codegen ok");
    let s = ts.to_string();
    // Two distinct `__auto_clone` bindings (proc-macro
    // hygiene via Span::mixed_site).
    assert!(s.matches("__auto_clone").count() >= 2, "{s}");
    assert!(s.contains("handle_a"), "{s}");
    assert!(s.contains("handle_b"), "{s}");
}

#[test]
fn tests_event_closure_passes_through_unwrapped() {
    // When the user writes a closure, the codegen
    // must NOT auto-wrap (otherwise the args would
    // be doubled).
    let xml =
        r#"<Button id="x" caption="x" on_click={move |ev, w, cx| controller.handle(ev, w, cx)} />"#;
    let ts = codegen(xml, Span::call_site(), None, None, &[]).expect("codegen ok");
    let s = ts.to_string();
    // The user's `__arg0` / `__w` / `__cx` placeholder
    // names must NOT appear (they're only used by the
    // auto-wrap path).
    assert!(!s.contains("__arg0"), "{s}");
    assert!(!s.contains("__w"), "{s}");
    assert!(!s.contains("__cx"), "{s}");
    // The user's closure body should pass through.
    assert!(s.contains("controller . handle"), "{s}");
}

#[test]
fn tests_event_call_expression_is_not_wrapped() {
    // `<Button on_click={some_fn()}>` is a call
    // expression (parens present) — it must pass
    // through verbatim, NOT be wrapped.
    let xml = r#"<Button id="x" caption="x" on_click={build_handler()} />"#;
    let ts = codegen(xml, Span::call_site(), None, None, &[]).expect("codegen ok");
    let s = ts.to_string();
    assert!(!s.contains("__arg0"), "{s}");
    assert!(s.contains("build_handler ()"), "{s}");
}

#[test]
fn event_method_call_factory_is_pre_cloned() {
    // `<Button on_click={controller.goto(Section::Actions)}>` is a
    // method-call factory: it returns the closure that should be
    // wired up. The receiver must be pre-cloned so the original
    // `controller` remains available for other handlers.
    let xml = r#"<Button id="x" caption="x" on_click={controller.goto(Section::Actions)} />"#;
    let ts = codegen(xml, Span::call_site(), None, None, &[]).expect("codegen ok");
    let s = ts.to_string();
    assert!(s.contains("__auto_clone"), "{s}");
    assert!(s.contains("(controller) . clone"), "{s}");
    assert!(s.contains(". goto (Section :: Actions)"), "{s}");
    // The factory result is passed through, not wrapped again.
    assert!(!s.contains("move | __arg0"), "{s}");
}

#[test]
fn event_modifier_method_call_factory_pre_clones() {
    // `on_click.stop={controller.goto(Section::Actions)}` clones
    // the receiver and invokes the returned closure with the
    // standard event args.
    let xml = r#"<Button id="x" caption="x" on_click.stop={controller.goto(Section::Actions)} />"#;
    let ts = codegen(xml, Span::call_site(), None, None, &[]).expect("codegen ok");
    let s = ts.to_string();
    assert!(s.contains("__auto_clone"), "{s}");
    assert!(s.contains("(controller) . clone"), "{s}");
    assert!(
        s.contains(". goto (Section :: Actions) (__ev , __window , cx)"),
        "{s}"
    );
}

#[test]
fn event_modifier_call_chain_passes_through() {
    // `on_click.stop={controller.method(args)(extra)}` is an
    // already-invoked call chain. The codegen must NOT append
    // `(__ev, __window, cx)` to it.
    let xml = r#"<Button id="x" caption="x" on_click.stop={controller.method(args)(extra)} />"#;
    let ts = codegen(xml, Span::call_site(), None, None, &[]).expect("codegen ok");
    let s = ts.to_string();
    // The chain call itself must appear verbatim.
    assert!(s.contains(". method (args) (extra)"), "{s}");
    // No duplicated event args after the chain.
    assert!(!s.contains("(extra) (__ev , __window , cx)"), "{s}");
    // The modifier wrapper still runs.
    assert!(s.contains("stop_propagation"), "{s}");
}

#[test]
fn event_macro_call_passes_through() {
    // Macro invocations like `handler!()` are parsed and passed
    // through verbatim; the old string heuristic is no longer used.
    let xml = r#"<Button id="x" caption="x" on_click={handler!()} />"#;
    let ts = codegen(xml, Span::call_site(), None, None, &[]).expect("codegen ok");
    let s = ts.to_string();
    assert!(s.contains("handler ! ()"), "{s}");
    // Not auto-wrapped into a fresh closure.
    assert!(!s.contains("__arg0"), "{s}");
}

#[test]
fn event_reference_passes_through() {
    // `&controller.handle` is not a bare path; it should be parsed
    // and passed through without being auto-wrapped.
    let xml = r#"<Button id="x" caption="x" on_click={&controller.handle} />"#;
    let ts = codegen(xml, Span::call_site(), None, None, &[]).expect("codegen ok");
    let s = ts.to_string();
    assert!(s.contains("& controller . handle"), "{s}");
    assert!(!s.contains("__auto_clone"), "{s}");
}


#[test]
fn tests_match_emits_rust_match_with_cases() {
    // `<Match on={status}>` with two `<Case>` arms
    // becomes `match status { A => { … }, B => { … } }`.
    let xml = r#"
            <Match on={status}>
                <Case pattern={Status::Loading}>
                    <Label id="l" text="Loading..." />
                </Case>
                <Case pattern={Status::Ready}>
                    <Label id="r" text="Ready" />
                </Case>
            </Match>
        "#;
    let ts = codegen(xml, Span::call_site(), None, None, &[]).expect("codegen ok");
    let s = ts.to_string();
    assert!(s.contains("match"), "{s}");
    assert!(s.contains("Status :: Loading"), "{s}");
    assert!(s.contains("Status :: Ready"), "{s}");
}

#[test]
fn tests_match_supports_wildcard_via_underscore_literal() {
    // `pattern="_"` is the conventional wildcard;
    // the macro turns it into a Rust `_` pattern.
    // For literal patterns like `pattern={0}` the
    // user uses a brace expression so the integer
    // literal isn't mistaken for a string.
    let xml = r#"
            <Match on={n}>
                <Case pattern={0}>
                    <Label id="z" text="zero" />
                </Case>
                <Case pattern="_">
                    <Label id="o" text="other" />
                </Case>
            </Match>
        "#;
    let ts = codegen(xml, Span::call_site(), None, None, &[]).expect("codegen ok");
    let s = ts.to_string();
    assert!(s.contains("0 =>"), "{s}");
    assert!(s.contains("_ =>"), "{s}");
}

#[test]
fn tests_match_without_cases_is_an_error() {
    let xml = r#"<Match on={x} />"#;
    let err = codegen(xml, Span::call_site(), None, None, &[]).unwrap_err();
    assert!(
        matches!(err.kind, yororen_ui_xml::error::XmlErrorKind::Unsupported),
        "{err:?}"
    );
    assert!(err.message.contains("at least one"));
}

#[test]
fn tests_case_outside_match_is_an_error() {
    let xml = r#"<Column><Case pattern={A}><Label id="x" text="hi" /></Case></Column>"#;
    let err = codegen(xml, Span::call_site(), None, None, &[]).unwrap_err();
    assert!(
        matches!(err.kind, yororen_ui_xml::error::XmlErrorKind::Unsupported),
        "{err:?}"
    );
}

#[test]
fn tests_state_emits_cx_new_with_default() {
    // `<State name="count" default="0">` becomes
    // `let count = (cx).new(|_| 0); <child>`.
    let xml = r#"
            <State name="count" default="0">
                <Label id="l" text={count.read(cx).to_string()} />
            </State>
        "#;
    let ts = codegen(xml, Span::call_site(), None, None, &[]).expect("codegen ok");
    let s = ts.to_string();
    assert!(s.contains("let count"), "{s}");
    assert!(s.contains(". new"), "{s}");
    assert!(s.contains("count . read"), "{s}");
}

#[test]
fn tests_state_default_handles_bool_and_string() {
    // Bool literal.
    let xml = r#"<State name="on" default="true"><Label id="l" text="x" /></State>"#;
    let ts = codegen(xml, Span::call_site(), None, None, &[]).expect("codegen ok");
    let s = ts.to_string();
    assert!(s.contains("true"), "{s}");
    // String literal.
    let xml = r#"<State name="name" default="anonymous"><Label id="l" text="x" /></State>"#;
    let ts = codegen(xml, Span::call_site(), None, None, &[]).expect("codegen ok");
    let s = ts.to_string();
    assert!(s.contains("String :: from"), "{s}");
    assert!(s.contains("anonymous"), "{s}");
}

#[test]
fn tests_state_without_default_is_an_error() {
    let xml = r#"<State name="x"><Label id="l" text="hi" /></State>"#;
    let err = codegen(xml, Span::call_site(), None, None, &[]).unwrap_err();
    assert!(
        matches!(err.kind, yororen_ui_xml::error::XmlErrorKind::UnknownAttribute),
        "{err:?}"
    );
}



#[test]
fn tests_string_interpolation_in_text_attr() {
    let s = render(r#"<Label id="x" text="Count: {count}" />"#);
    assert!(s.contains("format !"), "{s}");
    // The format string is `Count: {}` (one
    // placeholder, no literal braces to escape).
    assert!(s.contains("Count: {}"), "{s}");
    assert!(s.contains("count"), "{s}");
}

#[test]
fn tests_utf8_chars_in_string_attrs_preserved_in_codegen() {
    // Multi-byte UTF-8 characters in string-valued
    // attributes must round-trip through the
    // preprocessor + quote! unchanged, so the
    // resulting Rust source contains the same
    // bytes the user wrote in the XML.
    let s = render(r#"<Label id="x" text="Type here…" />"#);
    // The codegen emits `("Type here…").to_string()`
    // (3 bytes 0xE2 0x80 0xA6 for `…`).
    assert!(s.contains("Type here"), "{s}");
    // The raw `…` byte sequence should survive
    // unchanged. If the codegen mangles UTF-8
    // strings, this assertion fails.
    let ellipsis_bytes = "\u{2026}".as_bytes();
    let s_bytes = s.as_bytes();
    let mut found = false;
    for window in s_bytes.windows(ellipsis_bytes.len()) {
        if window == ellipsis_bytes {
            found = true;
            break;
        }
    }
    assert!(found, "ellipsis bytes not preserved in: {s}");
}

#[test]
fn tests_string_interpolation_with_no_braces_uses_literal_path() {
    // `text="hello"` has no braces, so the fast path
    // emits `("hello").to_string()` — no `format!`.
    let s = render(r#"<Label id="x" text="hello" />"#);
    assert!(s.contains("\"hello\""), "{s}");
    assert!(s.contains("to_string ()"), "{s}");
    assert!(!s.contains("format !"), "{s}");
}

#[test]
fn tests_string_interpolation_multiple_segments() {
    let s = render(r#"<Label id="x" text="x{a}y{b}z" />"#);
    assert!(s.contains("format !"), "{s}");
    // 2 placeholders, no literal braces to escape.
    assert!(s.contains("\"x{}y{}z\""), "{s}");
    assert!(s.contains("a"), "{s}");
    assert!(s.contains("b"), "{s}");
}




#[test]
fn tests_template_requires_name_attribute() {
    // `<Template>` without `name` is an error — the
    // tag's whole point is to define a *named*
    // template that the rest of the file can call.
    let err = codegen(
        r#"<Column>
    <Template>
        <Label id="a" text="A" />
    </Template>
</Column>"#,
        Span::call_site(),
        None,
        None,
        &[],
    )
    .unwrap_err();
    assert!(err.message.contains("name"), "{}", err.message);
}

#[test]
fn tests_template_is_dropped_from_output() {
    // `<Template>` is compile-time-only; the
    // generated code must NOT emit anything for the
    // definition itself, only for its callers.
    let s = render(
        r#"<Column>
    <Template name="X">
        <Label id="a" text="A" />
    </Template>
</Column>"#,
    );
    // The Column should be empty — the Template was
    // dropped, leaving no children.
    let compact: String = s.chars().filter(|c| !c.is_whitespace()).collect();
    assert!(!compact.contains("label::label"), "{s}");
}

#[test]
fn tests_template_invocation_substitutes_default_slot() {
    // A `<X>…</X>` call inlines the template body, with
    // the caller's children replacing the default
    // `<Slot/>` placeholder. The template's wrapping
    // `<Div>` is preserved.
    let s = render(
        r#"<Column>
    <Template name="Card">
        <Div>
            <Slot/>
        </Div>
    </Template>
    <Card>
        <Label id="body" text="Hello" />
    </Card>
</Column>"#,
    );
    let compact: String = s.chars().filter(|c| !c.is_whitespace()).collect();
    // The caller's Label must appear in the output.
    assert!(compact.contains("label::label"), "{s}");
    assert!(compact.contains("Hello"), "{s}");
    // The wrapping div is preserved too.
    assert!(compact.contains("gpui::div()"), "{s}");
}

#[test]
fn tests_template_invocation_substitutes_named_slot() {
    // `<Slot name="header"/>` in the template body is
    // replaced by the caller's `<Slot name="header">…</Slot>`
    // content; the default slot goes to the unnamed
    // children of the call.
    let s = render(
        r#"<Column>
    <Template name="Card">
        <Div>
            <Slot name="header"/>
            <Slot/>
        </Div>
    </Template>
    <Card>
        <Slot name="header">
            <Label id="h" text="Title" />
        </Slot>
        <Label id="body" text="Hello" />
    </Card>
</Column>"#,
    );
    let compact: String = s.chars().filter(|c| !c.is_whitespace()).collect();
    // Both the header and the body must be present.
    assert!(compact.contains("Title"), "{s}");
    assert!(compact.contains("Hello"), "{s}");
}

#[test]
fn tests_template_duplicate_name_is_an_error() {
    // Two `<Template name="X">` in the same file is
    // ambiguous — the second definition wins silently,
    // which is a footgun. We error explicitly.
    let err = codegen(
        r#"<Column>
    <Template name="X">
        <Label id="a" text="A" />
    </Template>
    <Template name="X">
        <Label id="b" text="B" />
    </Template>
</Column>"#,
        Span::call_site(),
        None,
        None,
        &[],
    )
    .unwrap_err();
    assert!(err.message.contains("duplicate"), "{}", err.message);
}

#[test]
fn tests_slot_in_root_is_a_no_op_when_no_template_invocation() {
    // `<Slot/>` at the root (outside any template
    // invocation) is meaningless and just disappears —
    // it has no template to be substituted into. The
    // surrounding Container's child chain is preserved.
    let s = render(r#"<Column><Slot/></Column>"#);
    assert!(s.contains("gpui :: div ()"), "{s}");
}

#[test]
fn tests_include_requires_src() {
    let err = codegen(
        r#"<Column><Include /></Column>"#,
        Span::call_site(),
        None,
        None,
        &[],
    )
    .unwrap_err();
    assert!(err.message.contains("src"), "{err:?}");
}

#[test]
fn tests_include_resolves_relative_to_source_file() {
    // The resolver should join a relative `<Include
    // src="…">` against the source file's parent
    // directory, not the current working directory.
    let resolved =
        resolve_include_path("ui/header.xml", Some("/home/dev/proj/src/view.rs")).expect("resolve");
    assert_eq!(resolved, PathBuf::from("/home/dev/proj/src/ui/header.xml"));
}

#[test]
fn tests_include_passes_absolute_paths_through() {
    // Absolute `src` paths skip the join and are
    // used verbatim.
    let resolved =
        resolve_include_path("/etc/foo.xml", Some("/home/dev/proj/src/view.rs")).expect("resolve");
    assert_eq!(resolved, PathBuf::from("/etc/foo.xml"));
}

#[test]
fn tests_include_falls_back_to_cwd_without_source_file() {
    // When the caller doesn't supply a source file
    // (the runtime loader, or a test), the resolver
    // falls back to the current working directory —
    // matching the behaviour tests rely on.
    let resolved = resolve_include_path("ui/header.xml", None).expect("resolve");
    assert_eq!(resolved, PathBuf::from("./ui/header.xml"));
}


#[test]
fn tests_overrides_provide_containers_and_control_flow() {
    // `BUILTINS_OVERRIDES` (sourced from `overrides.toml`)
    // covers the XML-only tags that the headless source
    // doesn't have entries for: containers (Column,
    // Row, Div, Stack) and control flow (If, ElseIf,
    // Else, For, Fragment).
    for tag in [
        "Column", "Row", "Div", "Stack", "If", "ElseIf", "Else", "For", "Fragment",
    ] {
        assert!(
            yororen_ui_xml::schema::builtin_overrides().iter().any(|c| c.tag == tag),
            "tag {tag:?} should be in BUILTINS_OVERRIDES"
        );
    }
}

#[test]
fn tests_if_branch_supports_multiple_children() {
    let s = render(
        r#"<Column>
    <If condition={show}>
        <Label id="a" text="A" />
        <Label id="b" text="B" />
    </If>
</Column>"#,
    );
    let normalised: String = s.chars().filter(|c| !c.is_whitespace()).collect();
    // The branch body should be wrapped in a div that has
    // both labels as children.
    assert!(
        normalised.contains("ifshow"),
        "condition must be emitted; got {normalised}"
    );
    assert!(
        normalised.matches("child").count() >= 2,
        "multiple children should be wired; got {normalised}"
    );
}

#[test]
fn tests_for_loop_supports_multiple_children_per_row() {
    let s = render(
        r#"<Column>
    <For each={items} let:item>
        <Label id="a" text={item.a} />
        <Label id="b" text={item.b} />
    </For>
</Column>"#,
    );
    let normalised: String = s.chars().filter(|c| !c.is_whitespace()).collect();
    assert!(
        normalised.contains("foritemin"),
        "loop must be emitted; got {normalised}"
    );
    assert!(
        normalised.matches("child").count() >= 2,
        "multiple children per row should be wired; got {normalised}"
    );
}

#[test]
fn tests_state_supports_multiple_children() {
    let s = render(
        r#"<Column>
    <State name="count" default="0">
        <Label id="a" text="A" />
        <Label id="b" text="B" />
    </State>
</Column>"#,
    );
    let normalised: String = s.chars().filter(|c| !c.is_whitespace()).collect();
    assert!(
        normalised.contains("new(|_|0i64)"),
        "state entity must be created; got {normalised}"
    );
    assert!(
        normalised.matches("child").count() >= 2,
        "multiple state children should be wired; got {normalised}"
    );
}

#[test]
fn tests_match_case_supports_multiple_children() {
    let s = render(
        r#"<Column>
    <Match on={status}>
        <Case pattern={Status::Ok}>
            <Label id="a" text="A" />
            <Label id="b" text="B" />
        </Case>
    </Match>
</Column>"#,
    );
    let normalised: String = s.chars().filter(|c| !c.is_whitespace()).collect();
    assert!(
        normalised.contains("match"),
        "match must be emitted; got {normalised}"
    );
    assert!(
        normalised.matches("child").count() >= 2,
        "multiple case children should be wired; got {normalised}"
    );
}




#[test]
fn tests_unknown_leaf_attribute_lists_accepted_attrs() {
    let err = codegen(
        r#"<Button id="b" href="https://example.com" />"#,
        Span::call_site(),
        None,
        None,
        &[],
    )
    .unwrap_err();
    assert!(
        err.message.contains("unknown attribute `href`"),
        "{}",
        err.message
    );
    assert!(
        err.message.contains("accepted:"),
        "error should list accepted attrs; got {}",
        err.message
    );
    assert!(
        err.message.contains("on_click"),
        "accepted list should mention on_click; got {}",
        err.message
    );
}

#[test]
fn tests_unknown_leaf_attribute_suggests_did_you_mean() {
    let err = codegen(
        r#"<Button id="b" on_clik={|| {}} />"#,
        Span::call_site(),
        None,
        None,
        &[],
    )
    .unwrap_err();
    assert!(
        err.message.contains("did you mean `on_click`"),
        "error should suggest on_click for on_clik; got {}",
        err.message
    );
}

#[test]
fn tests_unknown_container_attribute_suggests_did_you_mean() {
    let err = codegen(r#"<Column flx col />"#, Span::call_site(), None, None, &[]).unwrap_err();
    assert!(
        err.message.contains("did you mean `flex`"),
        "error should suggest flex for flx; got {}",
        err.message
    );
}

#[test]
fn tests_unknown_tag_without_id_suggests_did_you_mean() {
    let err = codegen(r#"<Buton />"#, Span::call_site(), None, None, &[]).unwrap_err();
    assert!(
        err.message.contains("did you mean `<Button>`"),
        "error should suggest Button for Buton; got {}",
        err.message
    );
}

#[test]
fn tests_virtual_list_requires_id() {
    let err = codegen(
        r#"<VirtualList item_count={9}><Label id="x" text="hi" /></VirtualList>"#,
        Span::call_site(),
        None,
        None,
        &[],
    )
    .unwrap_err();
    assert!(err.message.contains("`id"), "{err:?}");
}

#[test]
fn tests_virtual_list_requires_item_count_or_children() {
    // No item_count AND no children → error.
    let err = codegen(
        r#"<VirtualList id="x" />"#,
        Span::call_site(),
        None,
        None,
        &[],
    )
    .unwrap_err();
    assert!(err.message.contains("item_count"), "{err:?}");
    assert!(err.message.contains("child row"), "{err:?}");
}

#[test]
fn tests_virtual_list_requires_children() {
    let err = codegen(
        r#"<VirtualList id="x" item_count={9} />"#,
        Span::call_site(),
        None,
        None,
        &[],
    )
    .unwrap_err();
    assert!(err.message.contains("at least one child"), "{err:?}");
}

#[test]
fn virtual_list_rejects_row_with_children() {
    // `row=` provides an explicit row closure; children would be
    // silently ignored by the codegen. Reject instead.
    let err = codegen(
        r#"<VirtualList id="x" item_count={9} row={|_| {}}><Label id="y" text="hi" /></VirtualList>"#,
        Span::call_site(),
        None,
        None,
        &[],
    )
    .unwrap_err();
    assert!(err.message.contains("row"), "{err:?}");
    assert!(err.message.contains("children"), "{err:?}");
}

#[test]
fn tests_virtual_list_emits_keyed_state_and_row_closure() {
    let s = render(
        r#"<VirtualList id="gallery-sections" item_count={9} let:index={i}>
    <Label id="x" text="hi" />
</VirtualList>"#,
    );
    // Auto-persisted controller via use_keyed_state.
    assert!(s.contains("use_keyed_state"), "{s}");
    // The heterogeneous factory.
    assert!(
        s.contains("headless :: virtual_list :: virtual_list"),
        "{s}"
    );
    // Default overdraw.
    assert!(s.contains("px (16.)"), "{s}");
    // Per-frame count sync via controller.reset.
    assert!(s.contains(". reset"), "{s}");
    // Row closure bound to the user's index name `i`.
    assert!(s.contains("move | i : usize"), "{s}");
    // Rendered into an AnyElement.
    assert!(s.contains("into_any_element"), "{s}");
}

#[test]
fn tests_virtual_list_let_item_binds_alias() {
    // `let:item` introduces a `let item: usize = index;`
    // alias inside the row body (parity with `<For>`).
    let s = render(
        r#"<VirtualList id="vl" item_count={3} let:item let:index={i}>
    <Label id="x" text={item} />
</VirtualList>"#,
    );
    assert!(s.contains("let item : usize = i"), "{s}");
}

#[test]
fn tests_virtual_list_default_index_binding() {
    // Without `let:index`, the row index binds to `index`.
    let s = render(
        r#"<VirtualList id="vl" item_count={3}>
    <Label id="x" text="hi" />
</VirtualList>"#,
    );
    assert!(s.contains("move | index : usize"), "{s}");
}

#[test]
fn tests_virtual_list_custom_overdraw_and_alignment() {
    let s = render(
        r#"<VirtualList id="vl" item_count={3} overdraw={px(40.)} alignment="bottom">
    <Label id="x" text="hi" />
</VirtualList>"#,
    );
    assert!(s.contains("px (40.)"), "{s}");
    assert!(s.contains("ListAlignment :: Bottom"), "{s}");
    // Custom overdraw must NOT also emit the default.
    assert!(!s.contains("px (16.)"), "{s}");
}

#[test]
fn tests_virtual_list_rejects_bad_alignment() {
    let err = codegen(
        r#"<VirtualList id="vl" item_count={3} alignment="sideways">
    <Label id="x" text="hi" />
</VirtualList>"#,
        Span::call_site(),
        None,
        None,
        &[],
    )
    .unwrap_err();
    assert!(err.message.contains("\"top\" or \"bottom\""), "{err:?}");
}

#[test]
fn tests_virtual_list_forwards_on_visible_range_change() {
    let s = render(
        r#"<VirtualList id="vl" item_count={3} on_visible_range_change={controller.on_range}>
    <Label id="x" text="hi" />
</VirtualList>"#,
    );
    assert!(s.contains("on_visible_range_change"), "{s}");
    assert!(s.contains("__auto_clone . on_range"), "{s}");
}

#[test]
fn tests_uniform_virtual_list_emits_uniform_factory() {
    let s = render(
        r#"<UniformVirtualList id="uvl" item_count={1000} let:index={i}>
    <Label id="y" text="u" />
</UniformVirtualList>"#,
    );
    // Uniform factory + controller.
    assert!(
        s.contains("headless :: virtual_list :: uniform_virtual_list"),
        "{s}"
    );
    assert!(s.contains("UniformVirtualListController :: new"), "{s}");
    // No reset (uniform lists take count at the call site).
    assert!(!s.contains(". reset"), "{s}");
    // No on_visible_range_change support on uniform lists.
    assert!(!s.contains("on_visible_range_change"), "{s}");
    // Item count passed positionally at the call site.
    assert!(s.contains("1000 as usize"), "{s}");
}

#[test]
fn tests_uniform_virtual_list_requires_item_count_or_children() {
    // Neither item_count nor children → error.
    let err = codegen(
        r#"<UniformVirtualList id="uvl" />"#,
        Span::call_site(),
        None,
        None,
        &[],
    )
    .unwrap_err();
    assert!(err.message.contains("item_count"), "{err:?}");
    assert!(err.message.contains("child row"), "{err:?}");
}

#[test]
fn tests_virtual_list_children_as_rows_counts_children() {
    // No `item_count`: each direct child is a row. The
    // emitted count literal equals the number of children.
    let s = render(
        r#"<VirtualList id="vl">
    <Label id="a" text="1" />
    <Label id="b" text="2" />
    <Label id="c" text="3" />
</VirtualList>"#,
    );
    // item_count = 3 children.
    assert!(s.contains("3usize"), "{s}");
    // Row closure dispatches by index via a match.
    assert!(s.contains("match"), "{s}");
    assert!(s.contains("0usize =>"), "{s}");
    assert!(s.contains("2usize =>"), "{s}");
    // Wildcard arm returns an empty div.
    assert!(s.contains("_ =>"), "{s}");
}

#[test]
fn tests_virtual_list_children_as_rows_supports_single_child() {
    let s = render(
        r#"<VirtualList id="vl">
    <Label id="a" text="1" />
</VirtualList>"#,
    );
    assert!(s.contains("1usize"), "{s}");
    assert!(s.contains("0usize =>"), "{s}");
}

#[test]
fn tests_virtual_list_style_passthrough_applies_to_rendered_element() {
    // `size_full` and `h` are not VL attrs → they become
    // style calls on the rendered element.
    let s = render(
        r#"<VirtualList id="vl" item_count={3} size_full h={px(200.)}>
    <Label id="a" text="1" />
</VirtualList>"#,
    );
    assert!(s.contains("Styled :: size_full"), "{s}");
    assert!(s.contains("Styled :: h"), "{s}");
    assert!(s.contains("px (200.)"), "{s}");
}

#[test]
fn tests_virtual_list_children_as_rows_style_passthrough() {
    // Style passthrough works in children-as-rows mode too.
    let s = render(
        r#"<VirtualList id="vl" size_full>
    <Label id="a" text="1" />
</VirtualList>"#,
    );
    assert!(s.contains("Styled :: size_full"), "{s}");
}
