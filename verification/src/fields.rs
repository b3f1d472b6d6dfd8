//! The entries of a declaration's field list.

use vstd::prelude::*;

verus! {

/// A named field as it stands in the resulting struct.
pub struct StructField {
    pub attrs: Vec<syn::Attribute>,
    pub vis: syn::Visibility,
    pub ident: Option<syn::Ident>,
    pub colon_token: Option<syn::token::Colon>,
    pub ty: syn::Type,
}

/// A field declared as `offset => name: Type`: it must sit `offset` bytes
/// from the start of the struct.
pub struct FieldWithPadding {
    pub attrs: Vec<syn::Attribute>,
    pub offset: usize,
    pub equal_sign: syn::token::Eq,
    pub right_arrow: syn::token::Gt,
    pub vis: syn::Visibility,
    pub ident: Option<syn::Ident>,
    pub colon_token: Option<syn::token::Colon>,
    pub ty: syn::Type,
}

impl FieldWithPadding {
    /// The field without its offset and arrow.
    pub open spec fn stripped(self) -> StructField {
        StructField {
            attrs: self.attrs,
            vis: self.vis,
            ident: self.ident,
            colon_token: self.colon_token,
            ty: self.ty,
        }
    }

    /// The field that was read as `offset => vis ident: ty`, without
    /// attributes: each part stands where it belongs.
    pub fn from_parts(
        offset: usize,
        equal_sign: syn::token::Eq,
        right_arrow: syn::token::Gt,
        vis: syn::Visibility,
        ident: syn::Ident,
        colon_token: syn::token::Colon,
        ty: syn::Type,
    ) -> (field: FieldWithPadding)
        ensures
            field.attrs@.len() == 0,
            field.offset == offset,
            field.equal_sign == equal_sign,
            field.right_arrow == right_arrow,
            field.vis == vis,
            field.ident == Some(ident),
            field.colon_token == Some(colon_token),
            field.ty == ty,
    {
        FieldWithPadding {
            attrs: Vec::new(),
            offset,
            equal_sign,
            right_arrow,
            vis,
            ident: Some(ident),
            colon_token: Some(colon_token),
            ty,
        }
    }

    /// Drops the offset and the arrow, keeping everything else.
    pub fn into_field(self) -> (field: StructField)
        ensures
            field == self.stripped(),
    {
        StructField {
            attrs: self.attrs,
            vis: self.vis,
            ident: self.ident,
            colon_token: self.colon_token,
            ty: self.ty,
        }
    }
}

/// One entry of the field list.
pub enum PaddedStructField {
    NoPadding(StructField),
    WithPadding(FieldWithPadding),
}

impl PaddedStructField {
    /// The field that the entry puts into the resulting struct.
    pub open spec fn field(self) -> StructField {
        match self {
            PaddedStructField::NoPadding(f) => f,
            PaddedStructField::WithPadding(p) => p.stripped(),
        }
    }

    /// The type of the entry's field.
    pub open spec fn ty(self) -> syn::Type {
        self.field().ty
    }

    /// The entry with `attrs` in place of its attributes.
    pub open spec fn with_attrs_spec(self, attrs: Vec<syn::Attribute>) -> PaddedStructField {
        match self {
            PaddedStructField::NoPadding(f) => PaddedStructField::NoPadding(StructField { attrs, ..f }),
            PaddedStructField::WithPadding(p) => PaddedStructField::WithPadding(
                FieldWithPadding { attrs, ..p },
            ),
        }
    }

    /// Puts `attrs` in place of the entry's attributes.
    pub fn with_attrs(self, attrs: Vec<syn::Attribute>) -> (entry: PaddedStructField)
        ensures
            entry == self.with_attrs_spec(attrs),
    {
        match self {
            PaddedStructField::NoPadding(f) => PaddedStructField::NoPadding(StructField { attrs, ..f }),
            PaddedStructField::WithPadding(p) => PaddedStructField::WithPadding(
                FieldWithPadding { attrs, ..p },
            ),
        }
    }
}

} // verus!
