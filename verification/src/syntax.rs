//! What this crate takes from `syn`, `quote` and `proc_macro2`.
//!
//! A field's attributes, visibility, name and type are carried from the
//! declaration to the resulting struct untouched. To the verifier they are
//! opaque values, and so is the syntax tree they end up in. Nothing in this
//! file is proved: each function calls into one of these crates or builds
//! one of their values, and its contract is taken on trust.
//!
//! Nothing here reads a token stream. The parsers of `syn` panic on a
//! literal that they do not know, so reading is left to the caller, who
//! hands over a [`crate::declaration::PaddedStruct`].

use vstd::prelude::*;
use proc_macro2::{Literal, Span, TokenStream};
use syn::punctuated::Punctuated;
use syn::token::{Brace, Colon, Comma, Semi, Struct};
use syn::{
    AngleBracketedGenericArguments, Attribute, BinOp, Expr, ExprBinary, ExprCall, ExprLit, ExprPath,
    Field, Fields, FieldsNamed, GenericArgument, Generics, Ident, ItemStruct, Lit, Path,
    PathArguments, PathSegment, Type, TypeArray, TypePath, Visibility,
};
use crate::fields::{PaddedStructField, StructField};
use crate::padding::SizeExpr;

verus! {

#[verifier::external_type_specification]
#[verifier::external_body]
pub struct ExAttribute(syn::Attribute);

#[verifier::external_type_specification]
#[verifier::external_body]
pub struct ExVisibility(syn::Visibility);

#[verifier::external_type_specification]
#[verifier::external_body]
pub struct ExIdent(proc_macro2::Ident);

#[verifier::external_type_specification]
#[verifier::external_body]
pub struct ExType(syn::Type);

#[verifier::external_type_specification]
#[verifier::external_body]
pub struct ExGenerics(syn::Generics);

#[verifier::external_type_specification]
#[verifier::external_body]
pub struct ExExpr(syn::Expr);

#[verifier::external_type_specification]
#[verifier::external_body]
pub struct ExField(syn::Field);

#[verifier::external_type_specification]
#[verifier::external_body]
pub struct ExItemStruct(syn::ItemStruct);

#[verifier::external_type_specification]
#[verifier::external_body]
pub struct ExColon(syn::token::Colon);

#[verifier::external_type_specification]
#[verifier::external_body]
pub struct ExEq(syn::token::Eq);

#[verifier::external_type_specification]
#[verifier::external_body]
pub struct ExGt(syn::token::Gt);

#[verifier::external_type_specification]
#[verifier::external_body]
pub struct ExStruct(syn::token::Struct);

#[verifier::external_type_specification]
#[verifier::external_body]
pub struct ExBrace(syn::token::Brace);

#[verifier::external_type_specification]
#[verifier::external_body]
pub struct ExSemi(syn::token::Semi);

#[verifier::external_type_specification]
#[verifier::external_body]
pub struct ExComma(syn::token::Comma);

#[verifier::external_type_specification]
#[verifier::external_body]
pub struct ExTokenStream(proc_macro2::TokenStream);

#[verifier::external_type_specification]
#[verifier::external_body]
pub struct ExError(syn::Error);

#[verifier::external_type_specification]
#[verifier::external_body]
#[verifier::reject_recursive_types(T)]
#[verifier::reject_recursive_types(P)]
pub struct ExPunctuated<T, P>(syn::punctuated::Punctuated<T, P>);

/// The entries that a punctuated field list holds, first to last, without
/// the commas between them.
pub uninterp spec fn punctuated_entries(list: Punctuated<PaddedStructField, Comma>) -> Seq<PaddedStructField>;

/// The fields that a punctuated list of `syn` fields holds, first to last,
/// without the commas between them.
pub uninterp spec fn punctuated_fields(list: Punctuated<Field, Comma>) -> Seq<Field>;

/// The field that `syn::Field { .. }` makes of the parts: their attributes,
/// visibility, name, colon and type, each as it is.
pub uninterp spec fn written_field(parts: StructField) -> Field;

/// Whether a punctuated list of `syn` fields ends in a comma.
pub uninterp spec fn punctuated_trailing(list: Punctuated<Field, Comma>) -> bool;

/// The struct with named fields that `syn::ItemStruct { .. }` makes of the
/// parts: the attributes, visibility, `struct`, name and generics before a
/// brace that holds `fields` in their order, with a comma after the last
/// or not, and a semicolon or none.
pub uninterp spec fn written_struct(
    attrs: Seq<Attribute>,
    vis: Visibility,
    struct_token: Struct,
    ident: Ident,
    generics: Generics,
    brace_token: Brace,
    fields: Seq<Field>,
    trailing_comma: bool,
    semi_token: Option<Semi>,
) -> ItemStruct;

/// The tokens that write a struct down: what
/// `<syn::ItemStruct as quote::ToTokens>::to_token_stream` returns.
pub uninterp spec fn struct_tokens(item: ItemStruct) -> TokenStream;

/// The size expression that an expression reads as, spans aside.
pub uninterp spec fn size_expr_read(expr: Expr) -> SizeExpr;

/// The length of the array, if the type reads as `[u8; length]`.
pub uninterp spec fn byte_array_length(ty: Type) -> Option<SizeExpr>;

/// Whether the visibility is the one of a field that has none written.
pub uninterp spec fn visibility_inherited(vis: Visibility) -> bool;

/// The characters of an identifier: what `proc_macro2::Ident::to_string`
/// returns.
pub uninterp spec fn ident_text(ident: Ident) -> Seq<char>;

/// `Punctuated::into_iter`, collected: hands out the entries of the list in
/// their order and drops the commas.
#[verifier::external_body]
pub(crate) fn entries_into_vec(list: Punctuated<PaddedStructField, Comma>) -> (entries: Vec<PaddedStructField>)
    ensures
        entries@ == punctuated_entries(list),
{
    list.into_iter().collect()
}

/// `Punctuated::new`: a list that holds nothing, no comma either.
#[verifier::external_body]
pub(crate) fn new_field_list() -> (list: Punctuated<Field, Comma>)
    ensures
        punctuated_fields(list) == Seq::<Field>::empty(),
        !punctuated_trailing(list),
{
    Punctuated::new()
}

/// `Punctuated::push`: puts `field` at the end of the list, after a comma
/// if the list did not end in one and held a field already. No comma
/// follows the field.
#[verifier::external_body]
pub(crate) fn push_field(list: &mut Punctuated<Field, Comma>, field: Field)
    ensures
        punctuated_fields(*final(list)) == punctuated_fields(*old(list)).push(field),
        !punctuated_trailing(*final(list)),
{
    list.push(field)
}

/// `<syn::Type as Clone>::clone`. The copy is the same syntax tree, spans
/// included, so it is taken to be equal to the type it was made from.
#[verifier::external_body]
pub(crate) fn clone_type(ty: &Type) -> (copy: Type)
    ensures
        copy == *ty,
{
    ty.clone()
}

/// A character that `proc_macro2::Ident::new` takes anywhere but at the
/// front of a name, where it takes no digit.
pub open spec fn is_name_char(c: char) -> bool {
    ('a' <= c && c <= 'z') || ('A' <= c && c <= 'Z') || ('0' <= c && c <= '9') || c == '_'
}

/// A name made of ASCII letters, digits and underscores that starts with a
/// letter, or with an underscore that something follows.
pub open spec fn is_plain_identifier(name: Seq<char>) -> bool {
    &&& name.len() > 0
    &&& forall|i: int| 0 <= i < name.len() ==> is_name_char(#[trigger] name[i])
    &&& !('0' <= name[0] && name[0] <= '9')
    &&& name[0] == '_' ==> name.len() > 1
}

/// `proc_macro2::Ident::new` with the span of the call site. It panics on a
/// string that is no identifier; a plain identifier is one. The identifier
/// made is written with the characters of `name`.
#[verifier::external_body]
pub(crate) fn new_ident(name: &str) -> (ident: Ident)
    requires
        is_plain_identifier(name@),
    ensures
        ident_text(ident) == name@,
{
    Ident::new(name, Span::call_site())
}

/// `proc_macro2::Literal::usize_suffixed` in a `syn::ExprLit`: the
/// expression `<value>usize`.
#[verifier::external_body]
pub(crate) fn literal_expr(value: usize) -> (expr: Expr)
    ensures
        size_expr_read(expr) == SizeExpr::Literal(value),
{
    Expr::Lit(ExprLit { attrs: Vec::new(), lit: Lit::new(Literal::usize_suffixed(value)) })
}

/// `syn::ExprBinary` with the operator `-`: the expression `left - right`.
#[verifier::external_body]
pub(crate) fn difference_expr(left: Expr, right: Expr) -> (expr: Expr)
    ensures
        size_expr_read(expr) == SizeExpr::Difference(
            Box::new(size_expr_read(left)),
            Box::new(size_expr_read(right)),
        ),
{
    let op = BinOp::Sub(Default::default());
    Expr::Binary(ExprBinary { attrs: Vec::new(), left: Box::new(left), op, right: Box::new(right) })
}

/// `syn::ExprCall` on a `syn::ExprPath`: the expression
/// `krate::module::function::<argument>()`, which asks for the size of
/// `argument` when the path is `core::mem::size_of`.
#[verifier::external_body]
pub(crate) fn generic_call(krate: Ident, module: Ident, function: Ident, argument: Type) -> (expr: Expr)
    ensures
        ident_text(krate) == "core"@ && ident_text(module) == "mem"@ && ident_text(function) == "size_of"@
            ==> size_expr_read(expr) == SizeExpr::SizeOf(argument),
{
    let turbofish = AngleBracketedGenericArguments {
        colon2_token: Some(Default::default()),
        lt_token: Default::default(),
        args: Punctuated::from_iter([GenericArgument::Type(argument)]),
        gt_token: Default::default(),
    };
    let last = PathSegment { ident: function, arguments: PathArguments::AngleBracketed(turbofish) };
    let segments = Punctuated::from_iter([krate.into(), module.into(), last]);
    let path = Path { leading_colon: None, segments };
    let func = Box::new(Expr::Path(ExprPath { attrs: Vec::new(), qself: None, path }));
    Expr::Call(ExprCall { attrs: Vec::new(), func, paren_token: Default::default(), args: Punctuated::new() })
}

/// `syn::TypeArray`: the type `[element; len]`.
#[verifier::external_body]
pub(crate) fn array_type(element: Ident, len: Expr) -> (ty: Type)
    ensures
        ident_text(element) == "u8"@ ==> byte_array_length(ty) == Some(size_expr_read(len)),
{
    let elem = Box::new(Type::Path(TypePath { qself: None, path: Path::from(element) }));
    Type::Array(TypeArray { bracket_token: Default::default(), elem, semi_token: Default::default(), len })
}

/// `syn::Visibility::Inherited`: the visibility of a field that has none
/// written.
#[verifier::external_body]
pub(crate) fn inherited_visibility() -> (vis: Visibility)
    ensures
        visibility_inherited(vis),
{
    Visibility::Inherited
}

/// `<syn::token::Colon as Default>::default`: the token `:` with the span
/// of the call site.
#[verifier::external_body]
pub(crate) fn new_colon() -> (token: Colon) {
    Colon::default()
}

/// `syn::Field` with the parts of `field`.
#[verifier::external_body]
pub(crate) fn syn_field(field: StructField) -> (out: Field)
    ensures
        out == written_field(field),
{
    let StructField { attrs, vis, ident, colon_token, ty } = field;
    Field { attrs, vis, ident, colon_token, ty }
}

/// `syn::ItemStruct` with named fields, from its parts.
#[verifier::external_body]
pub(crate) fn item_struct(
    attrs: Vec<Attribute>,
    vis: Visibility,
    struct_token: Struct,
    ident: Ident,
    generics: Generics,
    brace_token: Brace,
    named: Punctuated<Field, Comma>,
    semi_token: Option<Semi>,
) -> (item: ItemStruct)
    ensures
        item == written_struct(
            attrs@,
            vis,
            struct_token,
            ident,
            generics,
            brace_token,
            punctuated_fields(named),
            punctuated_trailing(named),
            semi_token,
        ),
{
    let fields = Fields::Named(FieldsNamed { brace_token, named });
    ItemStruct { attrs, vis, struct_token, ident, generics, fields, semi_token }
}

/// `<syn::ItemStruct as quote::ToTokens>::to_token_stream`: the tokens that
/// write the struct down.
#[verifier::external_body]
pub(crate) fn item_struct_tokens(item: &ItemStruct) -> (tokens: TokenStream)
    ensures
        tokens == struct_tokens(*item),
{
    quote::ToTokens::to_token_stream(item)
}

} // verus!
