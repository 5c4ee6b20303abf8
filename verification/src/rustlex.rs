//! The outside parsers the code generator leans on: `proc_macro2`'s
//! lexer, which decides whether a user expression is valid Rust
//! tokens, and `syn`'s expression parser, which tells a bare method
//! path from a closure or a call.
use quote::ToTokens;
use vstd::prelude::*;

verus! {

/// The message proc-macro2's own lexer (its fallback implementation,
/// `proc_macro2::fallback`) gives when `src` does not lex as Rust
/// tokens, or `None` when it does.
pub uninterp spec fn lex_error(src: Seq<char>) -> Option<Seq<char>>;

/// Lex `src` with `proc_macro2` (`<TokenStream as FromStr>::from_str`),
/// its own lexer selected for the call (`fallback::force`, then
/// `fallback::unforce`), also inside a proc macro: `Ok` when it is a
/// valid token stream, else the lexer's message. Claimed: the outcome
/// depends on `src` alone. Leaves proc-macro2 in its detected mode (a
/// mode the caller forced before is not restored).
#[verifier::external_body]
pub(crate) fn lex_rust(src: &str) -> (r: Result<(), String>)
    ensures
        r is Ok <==> lex_error(src@) is None,
        r matches Err(m) ==> lex_error(src@) == Some(m@),
{
    proc_macro2::fallback::force();
    let r = match src.parse::<proc_macro2::TokenStream>() {
        Ok(_) => Ok(()),
        Err(e) => Err(e.to_string()),
    };
    proc_macro2::fallback::unforce();
    r
}


/// The syntactic shape of a Rust expression, as far as the code
/// generator cares: a bare path, a field access `base.member`, a method
/// call `base.member(args)`, another call, any other expression, or
/// text that does not parse as an expression.
#[derive(Debug)]
pub enum ExprShape {
    Unparsed,
    Path,
    /// The receiver and the member, each as token text.
    Field { base: String, member: String },
    /// The receiver, the method and the arguments, each as token text.
    MethodCall { base: String, member: String, args: String },
    Call,
    Other,
}

/// The mathematical form of an [`ExprShape`].
pub enum SExprShape {
    Unparsed,
    Path,
    Field { base: Seq<char>, member: Seq<char> },
    MethodCall { base: Seq<char>, member: Seq<char>, args: Seq<char> },
    Call,
    Other,
}

impl View for ExprShape {
    type V = SExprShape;

    open spec fn view(&self) -> SExprShape {
        match self {
            ExprShape::Unparsed => SExprShape::Unparsed,
            ExprShape::Path => SExprShape::Path,
            ExprShape::Field { base, member } => SExprShape::Field { base: base@, member: member@ },
            ExprShape::MethodCall { base, member, args } => SExprShape::MethodCall {
                base: base@,
                member: member@,
                args: args@,
            },
            ExprShape::Call => SExprShape::Call,
            ExprShape::Other => SExprShape::Other,
        }
    }
}

/// The shape `syn` gives `src` when it parses it as an expression over
/// proc-macro2's own lexer and printer (`proc_macro2::fallback`).
pub uninterp spec fn syn_expr_shape(src: Seq<char>) -> SExprShape;

/// Parse `src` with `syn::parse_str::<syn::Expr>` and report its
/// shape; the parts of a field access or a method call are rendered
/// back to token text with `quote::ToTokens`. proc-macro2's own lexer
/// and printer are selected for the call (`fallback::force`, then
/// `fallback::unforce`), also inside a proc macro. The result is named,
/// not described.
#[verifier::external_body]
pub(crate) fn classify_expr(src: &str) -> (r: ExprShape)
    ensures
        r@ == syn_expr_shape(src@),
{
    proc_macro2::fallback::force();
    let r = match syn::parse_str::<syn::Expr>(src) {
        Ok(syn::Expr::Path(_)) => ExprShape::Path,
        Ok(syn::Expr::Field(f)) => ExprShape::Field { base: f.base.to_token_stream().to_string(), member: f.member.to_token_stream().to_string() },
        Ok(syn::Expr::MethodCall(m)) => ExprShape::MethodCall { base: m.receiver.to_token_stream().to_string(), member: m.method.to_string(), args: m.args.to_token_stream().to_string() },
        Ok(syn::Expr::Call(_)) => ExprShape::Call,
        Ok(_) => ExprShape::Other,
        Err(_) => ExprShape::Unparsed,
    };
    proc_macro2::fallback::unforce();
    r
}

} // verus!
