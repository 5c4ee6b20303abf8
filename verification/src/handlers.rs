//! Event handlers: wrapping a bare method reference into a closure,
//! event modifiers (`on_key_down.enter`), and `@bind` two-way bindings.
use vstd::prelude::*;

use crate::emit::{push_str_lit, str_lit};
use crate::error::{serr, SError, XmlError, XmlErrorKind};
use crate::events::{is_known_key_filter, spec_is_known_key};
use crate::rustlex::{classify_expr, syn_expr_shape, ExprShape, SExprShape};
use crate::schema::{LeafDef, PropDef, PropValue};
use crate::strings::{chars_of, str_eq, string_of, trim, trim_chars};
use crate::values::cat3;

verus! {

/// Text that reads as a bare path or field reference: no call, block
/// or closure.
pub open spec fn looks_like_path(t: Seq<char>) -> bool {
    !t.contains('(') && !t.contains('{') && !t.contains('|') && t.len() > 0
}

/// Whether a handler expression may be a method call `recv.f(args)`
/// whose result is the handler: it has a call but no block or closure.
pub open spec fn may_be_factory(t: Seq<char>) -> bool {
    t.contains('(') && !t.contains('{') && !t.contains('|')
}

/// The closure parameters and the forwarded arguments that a wrapped
/// handler of `event` gets on a `tag` element.
pub open spec fn event_params(event: Seq<char>, tag: Seq<char>) -> (Seq<char>, Seq<char>) {
    if event == "on_toggle"@ && (tag == "Checkbox"@ || tag == "Switch"@ || tag == "Radio"@ || tag
        == "ToggleButton"@) {
        (
            "__arg0: bool, __ev: Option<&gpui::ClickEvent>, __w: &mut gpui::Window, __cx: &mut gpui::App"@,
            "__arg0, __ev, __w, __cx"@,
        )
    } else if event == "on_toggle"@ {
        ("__ev: &gpui::ClickEvent, __w: &mut gpui::Window, __cx: &mut gpui::App"@, "__ev, __w, __cx"@)
    } else if event == "on_clear"@ || event == "on_start_capture"@ || event == "on_cancel_capture"@ {
        ("__w: &mut gpui::Window, __cx: &mut gpui::App"@, "__w, __cx"@)
    } else if event == "on_visible_range_change"@ {
        (
            "__range: std::ops::Range<usize>, __total: usize, __w: &mut gpui::Window, __cx: &mut gpui::App"@,
            "__range, __total, __w, __cx"@,
        )
    } else {
        default_params()
    }
}

/// The three standard callback arguments `(arg0, &mut Window, &mut App)`.
pub open spec fn default_params() -> (Seq<char>, Seq<char>) {
    ("__arg0, __w: &mut gpui::Window, __cx: &mut gpui::App"@, "__arg0, __w, __cx"@)
}

pub fn event_params_of(event: &str, tag: &str) -> (r: (&'static str, &'static str))
    ensures
        (r.0@, r.1@) == event_params(event@, tag@),
{
    if str_eq(event, "on_toggle") && (str_eq(tag, "Checkbox") || str_eq(tag, "Switch") || str_eq(
        tag,
        "Radio",
    ) || str_eq(tag, "ToggleButton")) {
        (
            "__arg0: bool, __ev: Option<&gpui::ClickEvent>, __w: &mut gpui::Window, __cx: &mut gpui::App",
            "__arg0, __ev, __w, __cx",
        )
    } else if str_eq(event, "on_toggle") {
        ("__ev: &gpui::ClickEvent, __w: &mut gpui::Window, __cx: &mut gpui::App", "__ev, __w, __cx")
    } else if str_eq(event, "on_clear") || str_eq(event, "on_start_capture") || str_eq(
        event,
        "on_cancel_capture",
    ) {
        ("__w: &mut gpui::Window, __cx: &mut gpui::App", "__w, __cx")
    } else if str_eq(event, "on_visible_range_change") {
        (
            "__range: std::ops::Range<usize>, __total: usize, __w: &mut gpui::Window, __cx: &mut gpui::App",
            "__range, __total, __w, __cx",
        )
    } else {
        ("__arg0, __w: &mut gpui::Window, __cx: &mut gpui::App", "__arg0, __w, __cx")
    }
}

pub open spec fn opt_str(o: Option<String>) -> Option<Seq<char>> {
    crate::ast::opt_view(o)
}

/// A handler expression as it is passed: a bare associated function
/// (or text `syn` cannot read) becomes `move |params| { expr(args) }`;
/// a bare `recv.method` becomes a block that clones the receiver once
/// and moves the clone into such a closure; a method call
/// `recv.method(args)` (a handler factory) is called on a clone of its
/// receiver; anything else (a closure, another call, a block) is
/// passed through. `raw` is the brace expression as written, `expr`
/// its spliced form.
pub open spec fn wrap_closure(
    raw: Option<Seq<char>>,
    expr: Seq<char>,
    params: Seq<char>,
    args: Seq<char>,
) -> Seq<char> {
    match raw {
        None => expr,
        Some(r) => {
            let t = trim(r);
            if may_be_factory(t) {
                match syn_expr_shape(t) {
                    SExprShape::MethodCall { base, member, args } => "{ let __auto_clone = ("@ + base
                        + ").clone(); __auto_clone."@ + member + "("@ + args + ") }"@,
                    _ => expr,
                }
            } else if !looks_like_path(t) {
                expr
            } else {
                match syn_expr_shape(t) {
                    SExprShape::Field { base, member } => "{ let __auto_clone = ("@ + base
                        + ").clone(); move |"@ + params + "| { __auto_clone."@ + member + "("@ + args
                        + ") } }"@,
                    SExprShape::Other => expr,
                    _ => "move |"@ + params + "| { "@ + expr + "("@ + args + ") }"@,
                }
            }
        },
    }
}

fn has_char(v: &Vec<char>, c: char) -> (b: bool)
    ensures
        b == v@.contains(c),
{
    let mut k: usize = 0;
    while k < v.len()
        invariant
            k <= v@.len(),
            forall|j: int| 0 <= j < k ==> v@[j] != c,
        decreases v.len() - k,
    {
        if v[k] == c {
            return true;
        }
        k += 1;
    }
    false
}

/// The trimmed text of a brace expression and whether it reads as a
/// bare path.
fn trimmed_path(raw: &String) -> (r: (String, bool, bool))
    ensures
        r.0@ == trim(raw@),
        r.1 == looks_like_path(trim(raw@)),
        r.2 == may_be_factory(trim(raw@)),
{
    let v = chars_of(raw.as_str());
    let t = trim_chars(&v);
    let b = !has_char(&t, '(') && !has_char(&t, '{') && !has_char(&t, '|') && t.len() > 0;
    let f = has_char(&t, '(') && !has_char(&t, '{') && !has_char(&t, '|');
    (string_of(&t), b, f)
}

pub fn auto_wrap_closure_expr(raw: &Option<String>, expr: String, params: &str, args: &str) -> (r:
    String)
    ensures
        r@ == wrap_closure(opt_str(*raw), expr@, params@, args@),
{
    match raw {
        None => expr,
        Some(rw) => {
            let (t, path, factory) = trimmed_path(rw);
            if factory {
                return match classify_expr(t.as_str()) {
                    ExprShape::MethodCall { base, member, args } => {
                        let mut out = cat3("{ let __auto_clone = (", base.as_str(), ").clone(); __auto_clone.");
                        out.append(member.as_str());
                        out.append("(");
                        out.append(args.as_str());
                        out.append(") }");
                        out
                    },
                    _ => expr,
                };
            }
            if !path {
                return expr;
            }
            match classify_expr(t.as_str()) {
                ExprShape::Field { base, member } => {
                    let mut out = cat3("{ let __auto_clone = (", base.as_str(), ").clone(); move |");
                    out.append(params);
                    out.append("| { __auto_clone.");
                    out.append(member.as_str());
                    out.append("(");
                    out.append(args);
                    out.append(") } }");
                    out
                },
                ExprShape::Other => expr,
                _ => {
                    let mut out = cat3("move |", params, "| { ");
                    out.append(expr.as_str());
                    out.append("(");
                    out.append(args);
                    out.append(") }");
                    out
                },
            }
        },
    }
}

/// For a handler with modifiers: an optional statement cloning the
/// receiver, and the call of the handler on `(__ev, __window, cx)`. A
/// method call (a handler factory) is made on the receiver's clone and
/// its result called; any other call is already the handler's call and
/// is kept as it is.
pub open spec fn event_call(raw: Option<Seq<char>>, expr: Seq<char>) -> (Option<Seq<char>>, Seq<char>) {
    let plain = (None, expr + "(__ev, __window, cx)"@);
    match raw {
        None => plain,
        Some(r) => {
            let t = trim(r);
            if may_be_factory(t) {
                match syn_expr_shape(t) {
                    SExprShape::MethodCall { base, member, args } => (
                        Some("let __auto_clone = ("@ + base + ").clone();"@),
                        "__auto_clone."@ + member + "("@ + args + ")(__ev, __window, cx)"@,
                    ),
                    SExprShape::Call => (None, expr),
                    _ => plain,
                }
            } else if !looks_like_path(t) {
                plain
            } else {
                match syn_expr_shape(t) {
                    SExprShape::Field { base, member } => (
                        Some("let __auto_clone = ("@ + base + ").clone();"@),
                        "__auto_clone."@ + member + "(__ev, __window, cx)"@,
                    ),
                    _ => plain,
                }
            }
        },
    }
}

pub open spec fn opt_string_view(o: Option<String>) -> Option<Seq<char>> {
    crate::ast::opt_view(o)
}

pub fn auto_wrap_event_call(raw: &Option<String>, expr: &String) -> (r: (Option<String>, String))
    ensures
        (opt_string_view(r.0), r.1@) == event_call(opt_str(*raw), expr@),
{
    let plain = cat3("", expr.as_str(), "(__ev, __window, cx)");
    proof {
        reveal_strlit("");
        assert(plain@ =~= expr@ + "(__ev, __window, cx)"@);
    }
    match raw {
        None => (None, plain),
        Some(rw) => {
            let (t, path, factory) = trimmed_path(rw);
            if factory {
                return match classify_expr(t.as_str()) {
                    ExprShape::MethodCall { base, member, args } => {
                        let clone = cat3("let __auto_clone = (", base.as_str(), ").clone();");
                        let mut call = cat3("__auto_clone.", member.as_str(), "(");
                        call.append(args.as_str());
                        call.append(")(__ev, __window, cx)");
                        (Some(clone), call)
                    },
                    ExprShape::Call => (None, expr.clone()),
                    _ => (None, plain),
                };
            }
            if !path {
                return (None, plain);
            }
            match classify_expr(t.as_str()) {
                ExprShape::Field { base, member } => {
                    let clone = cat3("let __auto_clone = (", base.as_str(), ").clone();");
                    let call = cat3("__auto_clone.", member.as_str(), "(__ev, __window, cx)");
                    (Some(clone), call)
                },
                _ => (None, plain),
            }
        },
    }
}

/// The `Modifiers` field a modifier-key filter reads.
pub open spec fn modifier_flag(m: Seq<char>) -> Option<Seq<char>> {
    if m == "ctrl"@ {
        Some("control"@)
    } else if m == "shift"@ {
        Some("shift"@)
    } else if m == "alt"@ {
        Some("alt"@)
    } else if m == "platform"@ || m == "meta"@ || m == "cmd"@ {
        Some("platform"@)
    } else if m == "secondary"@ {
        Some("secondary"@)
    } else if m == "function"@ {
        Some("function"@)
    } else {
        None
    }
}

fn modifier_flag_of(m: &str) -> (r: Option<&'static str>)
    ensures
        crate::values::static_view(r) == modifier_flag(m@),
{
    if str_eq(m, "ctrl") {
        Some("control")
    } else if str_eq(m, "shift") {
        Some("shift")
    } else if str_eq(m, "alt") {
        Some("alt")
    } else if str_eq(m, "platform") || str_eq(m, "meta") || str_eq(m, "cmd") {
        Some("platform")
    } else if str_eq(m, "secondary") {
        Some("secondary")
    } else if str_eq(m, "function") {
        Some("function")
    } else {
        None
    }
}

pub open spec fn unknown_modifier(m: Seq<char>) -> SError {
    serr(
        XmlErrorKind::InvalidExpression,
        "unknown event modifier `"@ + m
            + "`; expected one of `stop`, `prevent`, `ctrl`, `shift`, `alt`, `platform` (alias `meta`/`cmd`), `secondary`, `function`, or a key name like `enter` / `escape` / `tab`"@,
        None,
    )
}

/// One modifier applied around a closure body.
pub open spec fn wrap_one(m: Seq<char>, body: Seq<char>) -> Result<Seq<char>, SError> {
    if m == "stop"@ {
        Ok("{ cx.stop_propagation(); "@ + body + " }"@)
    } else if m == "prevent"@ {
        Ok("{ __window.prevent_default(); "@ + body + " }"@)
    } else {
        match modifier_flag(m) {
            Some(f) => Ok("if __ev.modifiers()."@ + f + " { "@ + body + " }"@),
            None => if spec_is_known_key(m) {
                Ok(
                    "if __ev.keystroke().key == "@ + str_lit(seq!['"'] + m + seq!['"']) + " { "@
                        + body + " }"@,
                )
            } else {
                Err(unknown_modifier(m))
            },
        }
    }
}

/// All modifiers applied, the last one innermost, so the first one
/// listed is the outermost check.
pub open spec fn wrap_mods(mods: Seq<Seq<char>>, body: Seq<char>) -> Result<Seq<char>, SError>
    decreases mods.len(),
{
    if mods.len() == 0 {
        Ok(body)
    } else {
        match wrap_one(mods.last(), body) {
            Ok(b) => wrap_mods(mods.drop_last(), b),
            Err(e) => Err(e),
        }
    }
}

/// A modifier that `wrap_one` accepts: `stop`, `prevent`, a modifier
/// key, or a key name.
pub open spec fn known_modifier(m: Seq<char>) -> bool {
    m == "stop"@ || m == "prevent"@ || modifier_flag(m) is Some || spec_is_known_key(m)
}

/// Modifiers wrap a handler body: none leaves it as it is; any unknown
/// one is an `InvalidExpression` error naming an unknown modifier of the
/// list; when all are known the body is wrapped. A modifier key gates on
/// `__ev.modifiers()`, never on the key name: `shift` gives
/// `if __ev.modifiers().shift { … }`.
pub proof fn lemma_wrap_mods(mods: Seq<Seq<char>>, body: Seq<char>)
    ensures
        mods.len() == 0 ==> wrap_mods(mods, body) == Ok::<Seq<char>, SError>(body),
        (forall|k: int| 0 <= k < mods.len() ==> known_modifier(#[trigger] mods[k])) <==> wrap_mods(mods, body) is Ok,
        wrap_mods(mods, body) matches Err(x) ==> exists|k: int|
            0 <= k < mods.len() && !known_modifier(#[trigger] mods[k]) && x == unknown_modifier(mods[k]),
        wrap_one("shift"@, body) == Ok::<Seq<char>, SError>("if __ev.modifiers()."@ + "shift"@ + " { "@ + body + " }"@),
    decreases mods.len(),
{
    reveal_strlit("shift");
    reveal_strlit("stop");
    reveal_strlit("prevent");
    reveal_strlit("ctrl");
    assert(modifier_flag("shift"@) == Some("shift"@));
    if mods.len() > 0 {
        let m = mods.last();
        match wrap_one(m, body) {
            Ok(b) => {
                lemma_wrap_mods(mods.drop_last(), b);
                assert(known_modifier(m));
                assert forall|k: int| 0 <= k < mods.drop_last().len() implies mods.drop_last()[k] == mods[k] by {}
                if wrap_mods(mods, body) is Ok {
                    assert forall|k: int| 0 <= k < mods.len() implies known_modifier(#[trigger] mods[k]) by {
                        if k < mods.len() - 1 {
                            assert(mods.drop_last()[k] == mods[k]);
                        }
                    }
                } else {
                    let x = wrap_mods(mods, body)->Err_0;
                    let k = choose|k: int|
                        0 <= k < mods.drop_last().len() && !known_modifier(#[trigger] mods.drop_last()[k])
                            && x == unknown_modifier(mods.drop_last()[k]);
                    assert(mods[k] == mods.drop_last()[k]);
                    assert(!known_modifier(mods[k]));
                }
            },
            Err(e) => {
                assert(!known_modifier(m));
                assert(e == unknown_modifier(m));
                assert(mods[mods.len() - 1] == m);
            },
        }
    }
}

fn wrap_one_exec(m: &str, body: String) -> (r: Result<String, XmlError>)
    ensures
        crate::emit::res_view(r) == wrap_one(m@, body@),
{
    if str_eq(m, "stop") {
        Ok(cat3("{ cx.stop_propagation(); ", body.as_str(), " }"))
    } else if str_eq(m, "prevent") {
        Ok(cat3("{ __window.prevent_default(); ", body.as_str(), " }"))
    } else {
        match modifier_flag_of(m) {
            Some(f) => {
                let mut out = cat3("if __ev.modifiers().", f, " { ");
                out.append(body.as_str());
                out.append(" }");
                Ok(out)
            },
            None => if is_known_key_filter(m) {
                let q = cat3("\"", m, "\"");
                let mut out = String::new();
                out.append("if __ev.keystroke().key == ");
                push_str_lit(&mut out, q.as_str());
                out.append(" { ");
                out.append(body.as_str());
                out.append(" }");
                proof {
                    reveal_strlit("\"");
                    assert(q@ =~= seq!['"'] + m@ + seq!['"']);
                }
                Ok(out)
            } else {
                let mut msg = cat3("unknown event modifier `", m, "");
                msg.append(
                    "`; expected one of `stop`, `prevent`, `ctrl`, `shift`, `alt`, `platform` (alias `meta`/`cmd`), `secondary`, `function`, or a key name like `enter` / `escape` / `tab`",
                );
                proof {
                    reveal_strlit("");
                }
                Err(XmlError::new(XmlErrorKind::InvalidExpression, msg))
            },
        }
    }
}

/// Wrap the body of a modified handler with its modifiers' checks.
pub fn wrap_event_body_with_modifiers(mods: &Vec<String>, inner: String) -> (r: Result<
    String,
    XmlError,
>)
    ensures
        crate::emit::res_view(r) == wrap_mods(crate::events::strings_view(mods@), inner@),
{
    let ghost ms = crate::events::strings_view(mods@);
    let mut body = inner;
    let mut k: usize = mods.len();
    assert(ms.take(k as int) =~= ms);
    while k > 0
        invariant
            k <= mods@.len(),
            ms == crate::events::strings_view(mods@),
            ms.len() == mods@.len(),
            wrap_mods(ms.take(k as int), body@) == wrap_mods(ms, inner@),
        decreases k,
    {
        let ghost pre = ms.take(k as int);
        assert(pre.last() == mods@[k - 1]@);
        assert(pre.drop_last() =~= ms.take(k - 1));
        match wrap_one_exec(mods[k - 1].as_str(), body) {
            Ok(b) => {
                body = b;
            },
            Err(e) => {
                return Err(e);
            },
        }
        k -= 1;
    }
    Ok(body)
}

/// The first prop named `name`.
pub open spec fn find_prop(props: Seq<PropDef>, name: Seq<char>) -> Option<PropDef>
    decreases props.len(),
{
    if props.len() == 0 {
        None
    } else if props[0].name@ == name {
        Some(props[0])
    } else {
        find_prop(props.drop_first(), name)
    }
}

/// The first event whose XML name is `name`.
pub open spec fn find_event(events: Seq<(&'static str, &'static str)>, name: Seq<char>) -> Option<
    (&'static str, &'static str),
>
    decreases events.len(),
{
    if events.len() == 0 {
        None
    } else if events[0].0@ == name {
        Some(events[0])
    } else {
        find_event(events.drop_first(), name)
    }
}

pub fn find_prop_in(props: &Vec<PropDef>, name: &str) -> (r: Option<PropDef>)
    ensures
        r == find_prop(props@, name@),
{
    let mut k: usize = 0;
    assert(props@.skip(0) =~= props@);
    while k < props.len()
        invariant
            k <= props@.len(),
            find_prop(props@.skip(k as int), name@) == find_prop(props@, name@),
        decreases props.len() - k,
    {
        assert(props@.skip(k as int)[0] == props@[k as int]);
        if str_eq(props[k].name, name) {
            return Some(props[k]);
        }
        assert(props@.skip(k as int).drop_first() =~= props@.skip(k + 1));
        k += 1;
    }
    None
}

pub fn find_event_in(events: &Vec<(&'static str, &'static str)>, name: &str) -> (r: Option<
    (&'static str, &'static str),
>)
    ensures
        r == find_event(events@, name@),
{
    let mut k: usize = 0;
    assert(events@.skip(0) =~= events@);
    while k < events.len()
        invariant
            k <= events@.len(),
            find_event(events@.skip(k as int), name@) == find_event(events@, name@),
        decreases events.len() - k,
    {
        assert(events@.skip(k as int)[0] == events@[k as int]);
        if str_eq(events[k].0, name) {
            return Some(events[k]);
        }
        assert(events@.skip(k as int).drop_first() =~= events@.skip(k + 1));
        k += 1;
    }
    None
}

/// The prop `@bind` reads into: `value`, else `checked`, else
/// `selected`, else `text`.
pub open spec fn bind_prop(l: LeafDef) -> Option<PropDef> {
    match find_prop(l.props@, "value"@) {
        Some(p) => Some(p),
        None => match find_prop(l.props@, "checked"@) {
            Some(p) => Some(p),
            None => match find_prop(l.props@, "selected"@) {
                Some(p) => Some(p),
                None => find_prop(l.props@, "text"@),
            },
        },
    }
}

/// The event `@bind` writes back from: `on_change`, else `on_toggle`.
pub open spec fn bind_event(l: LeafDef) -> Option<(&'static str, &'static str)> {
    match find_event(l.events@, "on_change"@) {
        Some(e) => Some(e),
        None => find_event(l.events@, "on_toggle"@),
    }
}

/// The write-back closure's signature and body, by event and value type.
pub open spec fn bind_writer(event: Seq<char>, value: Option<PropDef>) -> (Seq<char>, Seq<char>) {
    if event == "on_toggle"@ {
        (
            "__v: bool, _ev: Option<&gpui::ClickEvent>, _window: &mut gpui::Window, cx: &mut gpui::App"@,
            "::yororen_ui::headless::XmlBinding::<bool>::xml_write(&__bind, __v, cx);"@,
        )
    } else if value matches Some(p) && p.value == PropValue::Float64 {
        (
            "__v: f64, _window: &mut gpui::Window, cx: &mut gpui::App"@,
            "::yororen_ui::headless::XmlBinding::<f64>::xml_write(&__bind, __v, cx);"@,
        )
    } else if value matches Some(p) && p.value == PropValue::Float32 {
        (
            "__v: f32, _window: &mut gpui::Window, cx: &mut gpui::App"@,
            "::yororen_ui::headless::XmlBinding::<f32>::xml_write(&__bind, __v, cx);"@,
        )
    } else if value matches Some(p) && p.value == PropValue::UInt {
        (
            "__v: usize, _window: &mut gpui::Window, cx: &mut gpui::App"@,
            "::yororen_ui::headless::XmlBinding::<usize>::xml_write(&__bind, __v, cx);"@,
        )
    } else {
        (
            "__v: &str, _window: &mut gpui::Window, cx: &mut gpui::App"@,
            "let __new: String = __v.to_string(); ::yororen_ui::headless::XmlBinding::<String>::xml_write(&__bind, __new, cx);"@,
        )
    }
}

/// The statements `@bind={entity}` expands to on a leaf: read the
/// value through `XmlBinding::xml_read` into the value prop, write it
/// back from the change event through `XmlBinding::xml_write`.
pub open spec fn bind_code(entity: Seq<char>, l: LeafDef, cx: Seq<char>) -> Seq<char> {
    let read = match bind_prop(l) {
        Some(p) => "__el = __el."@ + p.setter@ + "({ let __bind = ("@ + entity
            + ").clone(); ::yororen_ui::headless::XmlBinding::xml_read(&__bind, "@ + cx + ") });"@,
        None => seq![],
    };
    let write = match bind_event(l) {
        Some(ev) => {
            let (sig, body) = bind_writer(ev.0@, bind_prop(l));
            "__el = __el."@ + ev.1@ + "({ let __bind = ("@ + entity + ").clone(); move |"@ + sig
                + "| { "@ + body + " } });"@
        },
        None => seq![],
    };
    read + write
}

fn bind_writer_of(event: &str, value: Option<PropDef>) -> (r: (&'static str, &'static str))
    ensures
        (r.0@, r.1@) == bind_writer(event@, value),
{
    if str_eq(event, "on_toggle") {
        (
            "__v: bool, _ev: Option<&gpui::ClickEvent>, _window: &mut gpui::Window, cx: &mut gpui::App",
            "::yororen_ui::headless::XmlBinding::<bool>::xml_write(&__bind, __v, cx);",
        )
    } else if value.is_some() && value.unwrap().value == PropValue::Float64 {
        (
            "__v: f64, _window: &mut gpui::Window, cx: &mut gpui::App",
            "::yororen_ui::headless::XmlBinding::<f64>::xml_write(&__bind, __v, cx);",
        )
    } else if value.is_some() && value.unwrap().value == PropValue::Float32 {
        (
            "__v: f32, _window: &mut gpui::Window, cx: &mut gpui::App",
            "::yororen_ui::headless::XmlBinding::<f32>::xml_write(&__bind, __v, cx);",
        )
    } else if value.is_some() && value.unwrap().value == PropValue::UInt {
        (
            "__v: usize, _window: &mut gpui::Window, cx: &mut gpui::App",
            "::yororen_ui::headless::XmlBinding::<usize>::xml_write(&__bind, __v, cx);",
        )
    } else {
        (
            "__v: &str, _window: &mut gpui::Window, cx: &mut gpui::App",
            "let __new: String = __v.to_string(); ::yororen_ui::headless::XmlBinding::<String>::xml_write(&__bind, __new, cx);",
        )
    }
}

pub fn emit_bind(entity: &str, l: &LeafDef, cx: &str) -> (r: String)
    ensures
        r@ == bind_code(entity@, *l, cx@),
{
    let mut vp = find_prop_in(&l.props, "value");
    if vp.is_none() {
        vp = find_prop_in(&l.props, "checked");
    }
    if vp.is_none() {
        vp = find_prop_in(&l.props, "selected");
    }
    if vp.is_none() {
        vp = find_prop_in(&l.props, "text");
    }
    assert(vp == bind_prop(*l));
    let mut ev = find_event_in(&l.events, "on_change");
    if ev.is_none() {
        ev = find_event_in(&l.events, "on_toggle");
    }
    assert(ev == bind_event(*l));
    let mut out = String::new();
    if let Some(p) = vp {
        out.append("__el = __el.");
        out.append(p.setter);
        out.append("({ let __bind = (");
        out.append(entity);
        out.append(").clone(); ::yororen_ui::headless::XmlBinding::xml_read(&__bind, ");
        out.append(cx);
        out.append(") });");
    }
    let ghost read = out@;
    if let Some(e) = ev {
        let (sig, body) = bind_writer_of(e.0, vp);
        out.append("__el = __el.");
        out.append(e.1);
        out.append("({ let __bind = (");
        out.append(entity);
        out.append(").clone(); move |");
        out.append(sig);
        out.append("| { ");
        out.append(body);
        out.append(" } });");
    }
    proof {
        reveal_strlit("");
    }
    out
}

} // verus!
