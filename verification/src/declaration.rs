//! A whole declaration, before and after its fields are laid out.

use vstd::prelude::*;
use crate::fields::PaddedStructField;
use crate::layout::{laid_out, lay_out, offsets_increase, AssembledField, OffsetOrderError};
use crate::syntax::{entries_into_vec, punctuated_entries};

verus! {

/// A struct declaration whose fields may declare their offsets.
pub struct PaddedStruct {
    pub attrs: Vec<syn::Attribute>,
    pub vis: syn::Visibility,
    pub struct_token: syn::token::Struct,
    pub ident: syn::Ident,
    pub generics: syn::Generics,
    pub brace: syn::token::Brace,
    pub fields: syn::punctuated::Punctuated<PaddedStructField, syn::token::Comma>,
    pub semi_token: Option<syn::token::Semi>,
}

/// The declaration of an ordinary struct: the outer shape of a
/// [`PaddedStruct`] around a field list with padding.
pub struct AssembledStruct {
    pub attrs: Vec<syn::Attribute>,
    pub vis: syn::Visibility,
    pub struct_token: syn::token::Struct,
    pub ident: syn::Ident,
    pub generics: syn::Generics,
    pub brace: syn::token::Brace,
    pub fields: Vec<AssembledField>,
    pub semi_token: Option<syn::token::Semi>,
}

impl PaddedStruct {
    /// The entries of the field list, in declaration order.
    pub open spec fn entries(self) -> Seq<PaddedStructField> {
        punctuated_entries(self.fields)
    }

    /// The declaration that was read as
    /// `attrs vis struct ident generics { fields } semi_token`.
    pub fn from_parts(
        attrs: Vec<syn::Attribute>,
        vis: syn::Visibility,
        struct_token: syn::token::Struct,
        ident: syn::Ident,
        generics: syn::Generics,
        brace: syn::token::Brace,
        fields: syn::punctuated::Punctuated<PaddedStructField, syn::token::Comma>,
        semi_token: Option<syn::token::Semi>,
    ) -> (declaration: PaddedStruct)
        ensures
            declaration == (PaddedStruct { attrs, vis, struct_token, ident, generics, brace, fields, semi_token }),
    {
        PaddedStruct { attrs, vis, struct_token, ident, generics, brace, fields, semi_token }
    }

    /// Lays out the fields and puts the declaration's attributes,
    /// visibility, name and generics back around them. Fails, with nothing
    /// produced, when a declared offset is out of order.
    pub fn into_struct(self) -> (result: Result<AssembledStruct, OffsetOrderError>)
        ensures
            result is Ok <==> offsets_increase(self.entries()),
            match result {
                Ok(assembled) => {
                    &&& assembled.fields@ == laid_out(self.entries())
                    &&& assembled.attrs == self.attrs
                    &&& assembled.vis == self.vis
                    &&& assembled.struct_token == self.struct_token
                    &&& assembled.ident == self.ident
                    &&& assembled.generics == self.generics
                    &&& assembled.brace == self.brace
                    &&& assembled.semi_token == self.semi_token
                },
                Err(error) => error.reports(self.entries()),
            },
    {
        match lay_out(entries_into_vec(self.fields)) {
            Ok(fields) => Ok(
                AssembledStruct {
                    attrs: self.attrs,
                    vis: self.vis,
                    struct_token: self.struct_token,
                    ident: self.ident,
                    generics: self.generics,
                    brace: self.brace,
                    fields,
                    semi_token: self.semi_token,
                },
            ),
            Err(error) => Err(error),
        }
    }
}

} // verus!
