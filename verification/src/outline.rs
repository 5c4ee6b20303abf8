//! A Rust source file's outline as the schema generator reads it:
//! `syn` parses the file, and its functions, structs and impl blocks
//! are read into the plain [`ItemInfo`] values that the extraction in
//! `schemagen` works on. Each syntax node crosses from `syn` as its
//! printed tokens (`to_token_stream().to_string()`), which the next read
//! parses again; every read uses proc-macro2's own lexer and printer
//! (`proc_macro2::fallback`), so what it gives depends on its text alone.
use quote::ToTokens;
use vstd::prelude::*;

use crate::ast::opt_view;
use crate::schemagen::{
    extract, items_view, spec_extract, ArgInfo, Extracted, FnInfo, ItemInfo, SArg, SFn, SItem,
    STypeInfo, TypeInfo,
};

verus! {

/// What `syn::parse_file` makes of `src`: `None` when it parses as a
/// Rust file, else the text of its error.
pub uninterp spec fn syn_parse_error(src: Seq<char>) -> Option<Seq<char>>;

/// The top-level items of the file `src`, in order, each as its printed
/// tokens.
pub uninterp spec fn syn_item_texts(src: Seq<char>) -> Seq<Seq<char>>;

/// `syn::parse_file` on `src` (proc-macro2's own lexer selected for the
/// call): the number of top-level items, or the error rendered with
/// `to_string`. Claimed: the outcome depends on `src` alone, and the
/// count is that of `syn_item_texts`.
#[verifier::external_body]
fn item_count(src: &str) -> (r: Result<usize, String>)
    ensures
        match r {
            Ok(n) => syn_parse_error(src@) is None && n == syn_item_texts(src@).len(),
            Err(m) => syn_parse_error(src@) == Some(m@),
        },
{
    proc_macro2::fallback::force();
    let r = match syn::parse_file(src) {
        Ok(f) => Ok(f.items.len()),
        Err(e) => Err(e.to_string()),
    };
    proc_macro2::fallback::unforce();
    r
}

/// Item `k` of the file `src`, printed (`to_token_stream().to_string()`).
/// The file parses and has that item, so neither the parse nor the index
/// fails.
#[verifier::external_body]
fn item_text(src: &str, k: usize) -> (r: String)
    requires
        syn_parse_error(src@) is None,
        k < syn_item_texts(src@).len(),
    ensures
        r@ == syn_item_texts(src@)[k as int],
{
    proc_macro2::fallback::force();
    let f = syn::parse_file(src).unwrap();
    let r = f.items[k].to_token_stream().to_string();
    proc_macro2::fallback::unforce();
    r
}

/// An item's kind and what is read of it at once.
pub enum SItemHead {
    Fn { public: bool, sig: Seq<char> },
    Struct { name: Seq<char>, public: bool },
    Impl,
    Other,
}

pub enum ItemHead {
    Fn { public: bool, sig: String },
    Struct { name: String, public: bool },
    Impl,
    Other,
}

impl View for ItemHead {
    type V = SItemHead;

    open spec fn view(&self) -> SItemHead {
        match self {
            ItemHead::Fn { public, sig } => SItemHead::Fn { public: *public, sig: sig@ },
            ItemHead::Struct { name, public } => SItemHead::Struct { name: name@, public: *public },
            ItemHead::Impl => SItemHead::Impl,
            ItemHead::Other => SItemHead::Other,
        }
    }
}

/// What `item_head` reads of an item's text.
pub uninterp spec fn syn_item_head(text: Seq<char>) -> SItemHead;

/// `syn::parse_str::<syn::Item>` on `text`: a function (whether it is
/// `pub`, and its signature printed), a struct (its name, whether it is
/// `pub`), an impl block, or anything else (also text that does not
/// parse). Claimed: the result depends on `text` alone.
#[verifier::external_body]
fn item_head(text: &str) -> (r: ItemHead)
    ensures
        r@ == syn_item_head(text@),
{
    proc_macro2::fallback::force();
    let r = match syn::parse_str::<syn::Item>(text) {
        Ok(syn::Item::Fn(x)) => ItemHead::Fn {
            public: matches!(x.vis, syn::Visibility::Public(_)),
            sig: x.sig.to_token_stream().to_string(),
        },
        Ok(syn::Item::Struct(x)) => ItemHead::Struct { name: x.ident.to_string(), public: matches!(x.vis, syn::Visibility::Public(_)) },
        Ok(syn::Item::Impl(_)) => ItemHead::Impl,
        _ => ItemHead::Other,
    };
    proc_macro2::fallback::unforce();
    r
}

/// An impl block's self type as read (when it is a path: whether it has
/// a qualified self, and its last segment), whether the block implements
/// a trait, and its number of items.
pub struct SImplHead {
    pub self_path: Option<(bool, Option<Seq<char>>)>,
    pub has_trait: bool,
    pub items: usize,
}

pub struct ImplHead {
    pub self_path: Option<(bool, Option<String>)>,
    pub has_trait: bool,
    pub items: usize,
}

pub open spec fn self_path_view(p: Option<(bool, Option<String>)>) -> Option<(bool, Option<Seq<char>>)> {
    match p {
        Some((q, last)) => Some((q, opt_view(last))),
        None => None,
    }
}

pub open spec fn impl_head_view(h: Option<ImplHead>) -> Option<SImplHead> {
    match h {
        Some(h) => Some(SImplHead { self_path: self_path_view(h.self_path), has_trait: h.has_trait, items: h.items }),
        None => None,
    }
}

/// What `impl_head` reads of an item's text.
pub uninterp spec fn syn_impl_head(text: Seq<char>) -> Option<SImplHead>;

/// `syn::parse_str::<syn::Item>` on `text`, for an impl block: its self
/// type when that is a path (whether it has a qualified self, the last
/// segment's identifier), whether it implements a trait, and how many
/// items it has; `None` for anything else. Claimed: the result depends
/// on `text` alone.
#[verifier::external_body]
fn impl_head(text: &str) -> (r: Option<ImplHead>)
    ensures
        impl_head_view(r) == syn_impl_head(text@),
{
    proc_macro2::fallback::force();
    let r = match syn::parse_str::<syn::Item>(text) {
        Ok(syn::Item::Impl(x)) => Some(ImplHead {
            self_path: match &*x.self_ty {
                syn::Type::Path(p) => Some((p.qself.is_some(), match p.path.segments.last() { Some(s) => Some(s.ident.to_string()), None => None })),
                _ => None,
            },
            has_trait: x.trait_.is_some(),
            items: x.items.len(),
        }),
        _ => None,
    };
    proc_macro2::fallback::unforce();
    r
}

pub open spec fn sig_pub_view(r: Option<(String, bool)>) -> Option<(Seq<char>, bool)> {
    match r {
        Some((s, p)) => Some((s@, p)),
        None => None,
    }
}

/// What `impl_fn` reads of item `j` of an impl block's text.
pub uninterp spec fn syn_impl_fn(text: Seq<char>, j: usize) -> Option<(Seq<char>, bool)>;

/// `syn::parse_str::<syn::Item>` on `text`, for an impl block whose item
/// `j` is a method: the method's signature printed and whether it is
/// `pub`; `None` otherwise. Claimed: the result depends on `text` and
/// `j` alone.
#[verifier::external_body]
fn impl_fn(text: &str, j: usize) -> (r: Option<(String, bool)>)
    ensures
        sig_pub_view(r) == syn_impl_fn(text@, j),
{
    proc_macro2::fallback::force();
    let r = match syn::parse_str::<syn::Item>(text) {
        Ok(syn::Item::Impl(x)) => match x.items.get(j) {
            Some(syn::ImplItem::Fn(m)) => Some((m.sig.to_token_stream().to_string(), matches!(m.vis, syn::Visibility::Public(_)))),
            _ => None,
        },
        _ => None,
    };
    proc_macro2::fallback::unforce();
    r
}

pub open spec fn name_count_view(r: Option<(String, usize)>) -> Option<(Seq<char>, usize)> {
    match r {
        Some((s, n)) => Some((s@, n)),
        None => None,
    }
}

/// What `sig_head` reads of a signature's text.
pub uninterp spec fn syn_sig_head(sig: Seq<char>) -> Option<(Seq<char>, usize)>;

/// `syn::parse_str::<syn::Signature>` on `sig`: the function's name and
/// its number of inputs; `None` when the text does not parse. Claimed:
/// the result depends on `sig` alone.
#[verifier::external_body]
fn sig_head(sig: &str) -> (r: Option<(String, usize)>)
    ensures
        name_count_view(r) == syn_sig_head(sig@),
{
    proc_macro2::fallback::force();
    let r = match syn::parse_str::<syn::Signature>(sig) {
        Ok(x) => Some((x.ident.to_string(), x.inputs.len())),
        Err(_) => None,
    };
    proc_macro2::fallback::unforce();
    r
}

/// What `sig_input` reads of input `a` of a signature's text.
pub uninterp spec fn syn_sig_input(sig: Seq<char>, a: usize) -> Option<Seq<char>>;

/// `syn::parse_str::<syn::Signature>` on `sig`: its input `a` printed;
/// `None` when the text does not parse or has no such input. Claimed:
/// the result depends on `sig` and `a` alone.
#[verifier::external_body]
fn sig_input(sig: &str, a: usize) -> (r: Option<String>)
    ensures
        opt_view(r) == syn_sig_input(sig@, a),
{
    proc_macro2::fallback::force();
    let r = match syn::parse_str::<syn::Signature>(sig) {
        Ok(x) => match x.inputs.get(a) {
            Some(i) => Some(i.to_token_stream().to_string()),
            None => None,
        },
        Err(_) => None,
    };
    proc_macro2::fallback::unforce();
    r
}

/// A signature input as read: `self` (borrowed? `mut`?), or a typed
/// input with the name of its pattern when that is an identifier and its
/// type printed.
pub enum SArgHead {
    Receiver { by_ref: bool, mutable: bool },
    Typed { name: Option<Seq<char>>, ty: Seq<char> },
}

pub enum ArgHead {
    Receiver { by_ref: bool, mutable: bool },
    Typed { name: Option<String>, ty: String },
}

pub open spec fn arg_head_view(r: Option<ArgHead>) -> Option<SArgHead> {
    match r {
        Some(ArgHead::Receiver { by_ref, mutable }) => Some(SArgHead::Receiver { by_ref, mutable }),
        Some(ArgHead::Typed { name, ty }) => Some(SArgHead::Typed { name: opt_view(name), ty: ty@ }),
        None => None,
    }
}

/// What `arg_head` reads of an input's text.
pub uninterp spec fn syn_arg_head(text: Seq<char>) -> Option<SArgHead>;

/// `syn::parse_str::<syn::FnArg>` on `text`: for `self`, whether it is
/// a reference and whether it is `mut`; for a typed input, the
/// identifier of its pattern (when the pattern is one) and its type
/// printed; `None` when the text does not parse. Claimed: the result
/// depends on `text` alone.
#[verifier::external_body]
fn arg_head(text: &str) -> (r: Option<ArgHead>)
    ensures
        arg_head_view(r) == syn_arg_head(text@),
{
    proc_macro2::fallback::force();
    let r = match syn::parse_str::<syn::FnArg>(text) {
        Ok(syn::FnArg::Receiver(x)) => Some(ArgHead::Receiver { by_ref: x.reference.is_some(), mutable: x.mutability.is_some() }),
        Ok(syn::FnArg::Typed(x)) => Some(ArgHead::Typed {
            name: match &*x.pat { syn::Pat::Ident(p) => Some(p.ident.to_string()), _ => None },
            ty: x.ty.to_token_stream().to_string(),
        }),
        Err(_) => None,
    };
    proc_macro2::fallback::unforce();
    r
}

/// A type as read: the last segment of its path (for a path type), and,
/// for a reference type, whether it is `&mut` and the referenced type
/// printed.
pub struct STypeHead {
    pub last: Option<Seq<char>>,
    pub reference: Option<(bool, Seq<char>)>,
}

pub struct TypeHead {
    pub last: Option<String>,
    pub reference: Option<(bool, String)>,
}

pub open spec fn type_head_view(r: Option<TypeHead>) -> Option<STypeHead> {
    match r {
        Some(h) => Some(STypeHead {
            last: opt_view(h.last),
            reference: match h.reference {
                Some((m, e)) => Some((m, e@)),
                None => None,
            },
        }),
        None => None,
    }
}

/// What `type_head` reads of a type's text.
pub uninterp spec fn syn_type_head(text: Seq<char>) -> Option<STypeHead>;

/// `syn::parse_str::<syn::Type>` on `text`: for a path type, the last
/// segment's identifier; for a reference type, whether it is `&mut` and
/// the referenced type printed; `None` when the text does not parse.
/// Claimed: the result depends on `text` alone.
#[verifier::external_body]
fn type_head(text: &str) -> (r: Option<TypeHead>)
    ensures
        type_head_view(r) == syn_type_head(text@),
{
    proc_macro2::fallback::force();
    let r = match syn::parse_str::<syn::Type>(text) {
        Ok(t) => Some(TypeHead {
            last: match &t { syn::Type::Path(p) => match p.path.segments.last() { Some(s) => Some(s.ident.to_string()), None => None }, _ => None },
            reference: match &t { syn::Type::Reference(x) => Some((x.mutability.is_some(), x.elem.to_token_stream().to_string())), _ => None },
        }),
        Err(_) => None,
    };
    proc_macro2::fallback::unforce();
    r
}

/// A type read from its printed text: the text itself, the last segment
/// of its path, whether it is a reference, and for a `&mut` the last
/// segment of the referenced type.
pub open spec fn spec_type(text: Seq<char>) -> STypeInfo {
    match syn_type_head(text) {
        None => STypeInfo { rendered: text, path_last: None, is_reference: false, mut_ref_path_last: None },
        Some(h) => STypeInfo {
            rendered: text,
            path_last: h.last,
            is_reference: h.reference is Some,
            mut_ref_path_last: match h.reference {
                Some((true, elem)) => match syn_type_head(elem) {
                    Some(e) => e.last,
                    None => None,
                },
                _ => None,
            },
        },
    }
}

/// An input read from its printed text; text that does not read as an
/// input counts as an unnamed input of that type.
pub open spec fn spec_arg(text: Seq<char>) -> SArg {
    match syn_arg_head(text) {
        Some(SArgHead::Receiver { by_ref, mutable }) => SArg::Receiver { by_ref, mutable },
        Some(SArgHead::Typed { name, ty }) => SArg::Typed { ty: spec_type(ty), name },
        None => SArg::Typed { ty: spec_type(text), name: None },
    }
}

/// Input `a` of a signature, printed (empty when it cannot be read).
pub open spec fn input_text(sig: Seq<char>, a: int) -> Seq<char> {
    match syn_sig_input(sig, a as usize) {
        Some(t) => t,
        None => seq![],
    }
}

/// A function read from its printed signature; `None` when the
/// signature does not read.
pub open spec fn spec_fn(sig: Seq<char>, public: bool) -> Option<SFn> {
    match syn_sig_head(sig) {
        None => None,
        Some((name, n)) => Some(SFn { name, public, inputs: Seq::new(n as nat, |a: int| spec_arg(input_text(sig, a))) }),
    }
}

/// The methods among the first `n` items of an impl block, in order.
pub open spec fn impl_fns(text: Seq<char>, n: int) -> Seq<SFn>
    decreases n,
{
    if n <= 0 {
        seq![]
    } else {
        let prev = impl_fns(text, n - 1);
        match syn_impl_fn(text, (n - 1) as usize) {
            Some((sig, public)) => match spec_fn(sig, public) {
                Some(f) => prev.push(f),
                None => prev,
            },
            None => prev,
        }
    }
}

/// An item read from its printed text. An impl block's self name is the
/// last segment of its self type when that is a path without a
/// qualified self.
pub open spec fn spec_item(text: Seq<char>) -> SItem {
    match syn_item_head(text) {
        SItemHead::Fn { public, sig } => match spec_fn(sig, public) {
            Some(f) => SItem::Fn(f),
            None => SItem::Other,
        },
        SItemHead::Struct { name, public } => SItem::Struct { name, public },
        SItemHead::Impl => match syn_impl_head(text) {
            None => SItem::Other,
            Some(h) => SItem::Impl {
                self_name: match h.self_path {
                    Some((false, last)) => last,
                    _ => None,
                },
                has_trait: h.has_trait,
                fns: impl_fns(text, h.items as int),
            },
        },
        SItemHead::Other => SItem::Other,
    }
}

/// The outline of a file that parses: its items, in order, as read.
pub open spec fn syn_outline(src: Seq<char>) -> Seq<SItem> {
    Seq::new(syn_item_texts(src).len(), |k: int| spec_item(syn_item_texts(src)[k]))
}

fn type_info_of(text: String) -> (r: TypeInfo)
    ensures
        r@ == spec_type(text@),
{
    match type_head(text.as_str()) {
        None => TypeInfo { rendered: text, path_last: None, is_reference: false, mut_ref_path_last: None },
        Some(h) => {
            let (is_reference, mut_ref_path_last) = match h.reference {
                Some((true, elem)) => (
                    true,
                    match type_head(elem.as_str()) {
                        Some(e) => e.last,
                        None => None,
                    },
                ),
                Some((false, _)) => (true, None),
                None => (false, None),
            };
            TypeInfo { rendered: text, path_last: h.last, is_reference, mut_ref_path_last }
        },
    }
}

fn arg_info_of(text: String) -> (r: ArgInfo)
    ensures
        r@ == spec_arg(text@),
{
    match arg_head(text.as_str()) {
        Some(ArgHead::Receiver { by_ref, mutable }) => ArgInfo::Receiver { by_ref, mutable },
        Some(ArgHead::Typed { name, ty }) => ArgInfo::Typed { ty: type_info_of(ty), name },
        None => ArgInfo::Typed { ty: type_info_of(text), name: None },
    }
}

pub open spec fn fn_opt_view(r: Option<FnInfo>) -> Option<SFn> {
    match r {
        Some(f) => Some(f@),
        None => None,
    }
}

fn fn_info_of(sig: &str, public: bool) -> (r: Option<FnInfo>)
    ensures
        fn_opt_view(r) == spec_fn(sig@, public),
{
    let (name, n) = match sig_head(sig) {
        Some(h) => h,
        None => return None,
    };
    let mut args: Vec<ArgInfo> = Vec::new();
    let mut a: usize = 0;
    while a < n
        invariant
            a <= n,
            args@.len() == a,
            forall|i: int| 0 <= i < a ==> #[trigger] args@[i]@ == spec_arg(input_text(sig@, i)),
        decreases n - a,
    {
        let text = match sig_input(sig, a) {
            Some(t) => t,
            None => String::new(),
        };
        args.push(arg_info_of(text));
        a += 1;
    }
    let r = FnInfo { name, public, inputs: args };
    assert(r@.inputs =~= Seq::new(n as nat, |i: int| spec_arg(input_text(sig@, i))));
    Some(r)
}

fn item_info_of(text: &str) -> (r: ItemInfo)
    ensures
        r@ == spec_item(text@),
{
    match item_head(text) {
        ItemHead::Fn { public, sig } => match fn_info_of(sig.as_str(), public) {
            Some(f) => ItemInfo::Fn(f),
            None => ItemInfo::Other,
        },
        ItemHead::Struct { name, public } => ItemInfo::Struct { name, public },
        ItemHead::Impl => {
            let h = match impl_head(text) {
                Some(h) => h,
                None => return ItemInfo::Other,
            };
            let self_name = match h.self_path {
                Some((false, last)) => last,
                _ => None,
            };
            let mut fns: Vec<FnInfo> = Vec::new();
            let mut j: usize = 0;
            while j < h.items
                invariant
                    j <= h.items,
                    fns@.map_values(|f: FnInfo| f@) == impl_fns(text@, j as int),
                decreases h.items - j,
            {
                let ghost before = fns@;
                match impl_fn(text, j) {
                    Some((sig, public)) => match fn_info_of(sig.as_str(), public) {
                        Some(f) => {
                            fns.push(f);
                            assert(fns@.map_values(|f: FnInfo| f@) =~= before.map_values(|f: FnInfo| f@).push(f@));
                        },
                        None => {},
                    },
                    None => {},
                }
                j += 1;
            }
            ItemInfo::Impl { self_name, has_trait: h.has_trait, fns }
        },
        ItemHead::Other => ItemInfo::Other,
    }
}

/// The outline of a Rust source file: its top-level items, in order, as
/// `syn_outline` reads them; or the parser's message when `syn` does
/// not parse it.
pub fn outline(src: &str) -> (r: Result<Vec<ItemInfo>, String>)
    ensures
        match r {
            Ok(v) => syn_parse_error(src@) is None && items_view(v@) == syn_outline(src@),
            Err(m) => syn_parse_error(src@) == Some(m@),
        },
{
    let n = match item_count(src) {
        Ok(n) => n,
        Err(m) => return Err(m),
    };
    let mut out: Vec<ItemInfo> = Vec::new();
    let mut k: usize = 0;
    while k < n
        invariant
            k <= n,
            n == syn_item_texts(src@).len(),
            syn_parse_error(src@) is None,
            out@.len() == k,
            forall|i: int| 0 <= i < k ==> #[trigger] out@[i]@ == spec_item(syn_item_texts(src@)[i]),
        decreases n - k,
    {
        let text = item_text(src, k);
        out.push(item_info_of(text.as_str()));
        k += 1;
    }
    assert(items_view(out@) =~= syn_outline(src@));
    Ok(out)
}

/// The schema entry of the headless module whose source is `src`, named
/// `module_name` and reached at `headless::<mod_path>`: `Err` with
/// `parse error: <message>` when `syn` does not parse the source, with
/// `no factory found` when [`extract`] finds no entry in the file's
/// outline (no public factory named after the module, or no public
/// `<Module>…Props` struct); else the entry that [`extract`] gives.
pub fn extract_source(src: &str, module_name: &str, mod_path: &str) -> (r: Result<Extracted, String>)
    ensures
        match syn_parse_error(src@) {
            Some(m) => r matches Err(x) && x@ == "parse error: "@ + m,
            None => match spec_extract(syn_outline(src@), module_name@, mod_path@) {
                Some(e) => r matches Ok(x) && x@ == e,
                None => r matches Err(x) && x@ == "no factory found"@,
            },
        },
{
    let items = match outline(src) {
        Ok(v) => v,
        Err(m) => return Err(crate::values::cat2("parse error: ", m.as_str())),
    };
    match extract(items.as_slice(), module_name, mod_path) {
        Some(e) => Ok(e),
        None => Err(crate::strings::to_owned("no factory found")),
    }
}

} // verus!
