//! The trusted boundary to the `syn` and `quote` crates: parsing the
//! annotated function's source text and reading its signature out as the
//! plain values the verified matcher works on.
//!
//! What the boundary returns is a function of the source text alone, so its
//! results carry names: [`fn_parses`], [`fn_name_of`], [`fn_attrs_of`] and
//! [`fn_params_of`] stand for whether the text parses as one free function
//! item and for the extracted name, attribute names and parameter shapes,
//! and [`expr_parses`] for whether a text parses as one Rust expression.
//! The one entry [`analyze_function`] carries the boundary's contract over
//! those names; the functions below it are its pieces, each one outside
//! reading, and everything past the boundary works on the extracted
//! [`FnModel`] under exact contracts.

use vstd::prelude::*;
use crate::sig::{FnModel, ParamShape, ParamV, params_view};
use crate::text::strs_view;

verus! {

/// Whether the text parses as one free Rust function item.
pub uninterp spec fn fn_parses(src: Seq<char>) -> bool;

/// The parsed function's name.
pub uninterp spec fn fn_name_of(src: Seq<char>) -> Seq<char>;

/// The parsed function's outer attribute names, in order.
pub uninterp spec fn fn_attrs_of(src: Seq<char>) -> Seq<Seq<char>>;

/// The parsed function's declared parameter shapes, in order.
pub uninterp spec fn fn_params_of(src: Seq<char>) -> Seq<ParamV>;

/// Whether the text parses as one Rust expression.
pub uninterp spec fn expr_parses(src: Seq<char>) -> bool;

#[verifier::external_type_specification]
#[verifier::external_body]
pub struct ExItemFn(syn::ItemFn);

#[verifier::external_type_specification]
#[verifier::external_body]
pub struct ExFnArg(syn::FnArg);

#[verifier::external_type_specification]
#[verifier::external_body]
pub struct ExType(syn::Type);

#[verifier::external_type_specification]
#[verifier::external_body]
pub struct ExPatType(syn::PatType);

/// Relies on `syn::parse_str::<syn::ItemFn>`: parses Rust source text as one
/// free function item; `None` when the text is not one. Deterministic in the
/// text.
#[verifier::external_body]
fn parse_item_fn(src: &str) -> (r: Option<syn::ItemFn>) {
    syn::parse_str::<syn::ItemFn>(src).ok()
}

/// Relies on `syn`: reads the function's name.
#[verifier::external_body]
fn item_fn_name(f: &syn::ItemFn) -> (r: String) {
    f.sig.ident.to_string()
}

/// Relies on `syn`: lists the function's outer attribute names, in order; an
/// attribute whose path is not a single identifier is listed as empty text.
#[verifier::external_body]
fn item_fn_attr_names(f: &syn::ItemFn) -> (r: Vec<String>) {
    f.attrs
        .iter()
        .map(|a| match a.path().get_ident() {
            Some(i) => i.to_string(),
            None => String::new(),
        })
        .collect()
}

/// Relies on `quote::ToTokens` for `syn::Type`: the type as source text.
#[verifier::external_body]
fn type_text(t: &syn::Type) -> (r: String) {
    quote::ToTokens::to_token_stream(t).to_string()
}

/// Relies on `syn`: reads a pattern-and-type parameter as a simple named
/// binding with its type text, or as some other shape.
#[verifier::external_body]
fn typed_shape(pt: &syn::PatType) -> (r: ParamShape) {
    let (by_ref, elem) = match &*pt.ty {
        syn::Type::Reference(tr) => (true, type_text(&tr.elem)),
        t => (false, type_text(t)),
    };
    match &*pt.pat {
        syn::Pat::Ident(pi) => ParamShape::Simple {
            name: pi.ident.to_string(),
            ty: type_text(&pt.ty),
            by_ref,
            elem,
        },
        _ => ParamShape::Other,
    }
}

/// Relies on `syn`: a receiver (`self`) is never a simple binding.
#[verifier::external_body]
fn arg_shape(a: &syn::FnArg) -> (r: ParamShape) {
    match a {
        syn::FnArg::Typed(pt) => typed_shape(pt),
        _ => ParamShape::Other,
    }
}

/// Relies on `syn`: reads the declared parameters, in order.
#[verifier::external_body]
fn item_fn_params(f: &syn::ItemFn) -> (r: Vec<ParamShape>) {
    f.sig.inputs.iter().map(arg_shape).collect()
}

/// Reads the annotated function's source text into the generator's model;
/// `None` exactly when the text is not a free function item. Relies on the
/// readers above: parsing and extraction depend on the source text alone,
/// which is what the named results state.
#[verifier::external_body]
pub fn analyze_function(src: &str) -> (r: Option<FnModel>)
    ensures
        r is Some <==> fn_parses(src@),
        match r {
            Option::Some(m) => m.name@ == fn_name_of(src@) && strs_view(m.attrs@) == fn_attrs_of(
                src@,
            ) && params_view(m.params@) == fn_params_of(src@),
            Option::None => true,
        },
{
    match parse_item_fn(src) {
        None => None,
        Some(f) => Some(
            FnModel {
                name: item_fn_name(&f),
                attrs: item_fn_attr_names(&f),
                params: item_fn_params(&f),
            },
        ),
    }
}

/// Relies on `syn::parse_str::<syn::Expr>`: whether the text parses as one
/// Rust expression; deterministic in the text.
#[verifier::external_body]
pub fn check_expr(src: &str) -> (r: bool)
    ensures
        r == expr_parses(src@),
{
    syn::parse_str::<syn::Expr>(src).is_ok()
}

} // verus!
